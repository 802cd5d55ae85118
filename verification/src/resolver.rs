//! The remote version resolver's verified half: the request it must issue
//! and the classification of what came back. The network call itself is the
//! caller's work; it hands the HTTP status and the decoded body back in.

use vstd::prelude::*;
use vstd::string::StringExecFns;

use crate::apps::AppStruct;
use crate::releases::TagInfo;

verus! {

/// The HTTP status on which a release resolution succeeds.
pub const HTTP_OK: u16 = 200;

/// Mathematical image of a [`ResolverRequest`].
pub ghost struct ResolverRequestModel {
    pub url: Seq<char>,
    pub accept: Seq<char>,
    pub api_version: Seq<char>,
    pub user_agent: Seq<char>,
}

/// The one request a release resolution issues: the `releases/latest`
/// endpoint of the add-on's repository, with the required accept and version
/// headers and the fixed client identification string.
#[derive(Debug)]
pub struct ResolverRequest {
    pub url: String,
    pub accept: String,
    pub api_version: String,
    pub user_agent: String,
}

impl View for ResolverRequest {
    type V = ResolverRequestModel;

    open spec fn view(&self) -> ResolverRequestModel {
        ResolverRequestModel {
            url: self.url@,
            accept: self.accept@,
            api_version: self.api_version@,
            user_agent: self.user_agent@,
        }
    }
}

impl AppStruct {
    /// The request that resolves this add-on's most recent release.
    pub fn latest_release_request(&self) -> (r: ResolverRequest)
        ensures
            r@.url == "https://api.github.com/repos/"@ + self@.repo_owner + "/"@ + self@.repo_name
                + "/releases/latest"@,
            r@.accept == "application/vnd.github+json"@,
            r@.api_version == "2022-11-28"@,
            r@.user_agent == "Script-Check-Xrd-Tools"@,
    {
        let mut url = self.get_api_repo_url();
        url.append("/releases/latest");
        ResolverRequest {
            url,
            accept: "application/vnd.github+json".to_owned(),
            api_version: "2022-11-28".to_owned(),
            user_agent: "Script-Check-Xrd-Tools".to_owned(),
        }
    }
}

/// Mathematical image of a [`ResolveError`].
pub ghost enum ResolveErrorModel {
    Http { app_name: Seq<char>, status: u16 },
    Transport { app_name: Seq<char> },
}

/// Why a release resolution failed, carrying the add-on identity.
#[derive(Debug)]
pub enum ResolveError {
    /// The hosting service answered with an unexpected HTTP status.
    Http { app_name: String, status: u16 },
    /// The transport failed, or the successful answer could not be decoded.
    Transport { app_name: String },
}

impl View for ResolveError {
    type V = ResolveErrorModel;

    open spec fn view(&self) -> ResolveErrorModel {
        match self {
            ResolveError::Http { app_name, status } => ResolveErrorModel::Http {
                app_name: app_name@,
                status: *status,
            },
            ResolveError::Transport { app_name } => ResolveErrorModel::Transport {
                app_name: app_name@,
            },
        }
    }
}

impl ResolveError {
    /// The identity of the add-on whose resolution failed.
    pub fn app_name(&self) -> (r: &String)
        ensures
            self@ matches ResolveErrorModel::Http { app_name, .. } ==> r@ == app_name,
            self@ matches ResolveErrorModel::Transport { app_name } ==> r@ == app_name,
    {
        match self {
            ResolveError::Http { app_name, .. } => app_name,
            ResolveError::Transport { app_name } => app_name,
        }
    }
}

/// Classifies what the hosting service answered: HTTP 200 with a decodable
/// body yields the release; any other status is an error carrying that
/// status and the add-on identity; a 200 whose body could not be decoded
/// counts as a transport failure, as does no answer at all.
pub fn resolve_from_response(app: &AppStruct, status: u16, decoded: Option<TagInfo>) -> (r: Result<
    TagInfo,
    ResolveError,
>)
    ensures
        r is Ok <==> (status == HTTP_OK && decoded is Some),
        status == HTTP_OK && decoded is Some ==> (r matches Ok(t) && t == decoded->0),
        status != HTTP_OK ==> (r matches Err(e) && e@ == (ResolveErrorModel::Http {
            app_name: app@.spec_app_name(),
            status,
        })),
        status == HTTP_OK && decoded is None ==> (r matches Err(e) && e@
            == (ResolveErrorModel::Transport { app_name: app@.spec_app_name() })),
{
    if status != HTTP_OK {
        return Err(ResolveError::Http { app_name: app.get_app_name(), status });
    }
    match decoded {
        Some(tag) => Ok(tag),
        None => Err(ResolveError::Transport { app_name: app.get_app_name() }),
    }
}

} // verus!
