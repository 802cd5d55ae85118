//! Add-on descriptors: identity, kind, recorded version state and flags.

use vstd::prelude::*;
use vstd::string::StringExecFns;

verus! {

/// Closed set of add-on categories. The kind selects which release assets are
/// relevant and which installation procedure, if any, applies.
#[derive(Clone, Copy, Debug, PartialEq, Eq, Structural)]
pub enum AppType {
    Unknown,
    HitboxOverlay,
    WakeupTool,
    FasterLoadingTimes,
    MirrorColorSelect,
    BackgroundGamepad,
}

/// Host operating-system family, as far as asset selection and patching care.
#[derive(Clone, Copy, Debug, PartialEq, Eq, Structural)]
pub enum Platform {
    Windows,
    UnixLike,
    Other,
}

/// Mathematical image of an [`AppStruct`]: every field as a plain value.
pub ghost struct AppModel {
    pub repo_owner: Seq<char>,
    pub repo_name: Seq<char>,
    pub app_type: AppType,
    pub id: i32,
    pub tag_name: Seq<char>,
    pub published_at: Seq<char>,
    pub url_source_version: Seq<char>,
    pub automatically_patch: bool,
    pub patched: bool,
    pub enabled: bool,
    pub track_updates: bool,
    pub tracked_flag: bool,
}

/// One trackable add-on: identity (owner, name), kind, recorded remote
/// version state, and the flags that drive the update and patch pipeline.
#[derive(Clone, Debug)]
pub struct AppStruct {
    pub repo_owner: String,
    pub repo_name: String,
    pub app_type: AppType,
    pub id: i32,
    pub tag_name: String,
    pub published_at: String,
    pub url_source_version: String,
    pub automatically_patch: bool,
    pub patched: bool,
    pub enabled: bool,
    pub track_updates: bool,
    pub tracked_flag: bool,
}

impl View for AppStruct {
    type V = AppModel;

    open spec fn view(&self) -> AppModel {
        AppModel {
            repo_owner: self.repo_owner@,
            repo_name: self.repo_name@,
            app_type: self.app_type,
            id: self.id,
            tag_name: self.tag_name@,
            published_at: self.published_at@,
            url_source_version: self.url_source_version@,
            automatically_patch: self.automatically_patch,
            patched: self.patched,
            enabled: self.enabled,
            track_updates: self.track_updates,
            tracked_flag: self.tracked_flag,
        }
    }
}

impl AppModel {
    /// The unique human-readable key of an add-on: `owner/name`.
    pub open spec fn spec_app_name(self) -> Seq<char> {
        self.repo_owner + "/"@ + self.repo_name
    }
}

/// Default value of every boolean flag of a freshly created descriptor.
pub fn set_false() -> (r: bool)
    ensures
        r == false,
{
    false
}

impl AppStruct {
    /// Whether the add-on can be launched directly; no kind offers that.
    pub fn is_launchable() -> (r: bool)
        ensures
            r == false,
    {
        false
    }

    /// A descriptor for a not-yet-resolved add-on: identity and kind set,
    /// version state empty, every flag off.
    pub fn new(repo_owner: String, repo_name: String, app_type: AppType) -> (r: Self)
        ensures
            r@ == (AppModel {
                repo_owner: repo_owner@,
                repo_name: repo_name@,
                app_type: app_type,
                id: 0,
                tag_name: Seq::<char>::empty(),
                published_at: Seq::<char>::empty(),
                url_source_version: Seq::<char>::empty(),
                automatically_patch: false,
                patched: false,
                enabled: false,
                track_updates: false,
                tracked_flag: false,
            }),
    {
        let r = Self {
            repo_owner,
            repo_name,
            app_type,
            id: 0,
            tag_name: String::new(),
            published_at: String::new(),
            url_source_version: String::new(),
            automatically_patch: false,
            patched: false,
            enabled: false,
            track_updates: false,
            tracked_flag: false,
        };
        r
    }

    /// The registry key of this add-on, `owner/name`.
    pub fn get_app_name(&self) -> (r: String)
        ensures
            r@ == self@.spec_app_name(),
    {
        let mut r = self.repo_owner.clone();
        r.append("/");
        r.append(self.repo_name.as_str());
        r
    }

    /// The page of the repository that hosts the add-on.
    pub fn get_repo_url(&self) -> (r: String)
        ensures
            r@ == "https://github.com/"@ + self@.repo_owner + "/"@ + self@.repo_name,
    {
        let mut r = String::new();
        r.append("https://github.com/");
        r.append(self.repo_owner.as_str());
        r.append("/");
        r.append(self.repo_name.as_str());
        r
    }

    /// The API endpoint of the repository that hosts the add-on.
    pub fn get_api_repo_url(&self) -> (r: String)
        ensures
            r@ == "https://api.github.com/repos/"@ + self@.repo_owner + "/"@ + self@.repo_name,
    {
        let mut r = String::new();
        r.append("https://api.github.com/repos/");
        r.append(self.repo_owner.as_str());
        r.append("/");
        r.append(self.repo_name.as_str());
        r
    }
}

} // verus!
