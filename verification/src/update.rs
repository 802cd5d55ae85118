//! The update decision and download planner: compares the recorded version
//! with the resolved remote release, selects the expected asset names per
//! add-on kind and host platform, and plans which assets to fetch and expand.

use vstd::prelude::*;
use vstd::string::StringExecFns;

use crate::apps::{AppModel, AppStruct, AppType, Platform};
use crate::releases::{TagAssets, TagAssetsModel, TagInfo};
use crate::text::{spec_ends_with, str_ends_with, vec_contains_string};

verus! {

/// The expected asset file names for an add-on kind on a host platform,
/// given the remote version tag. An empty list means nothing is downloaded.
pub open spec fn spec_asset_whitelist(kind: AppType, platform: Platform, tag: Seq<char>) -> Seq<
    Seq<char>,
> {
    match kind {
        AppType::Unknown => Seq::empty(),
        AppType::HitboxOverlay => seq!["ggxrd_hitbox_overlay.zip"@],
        AppType::WakeupTool => seq![
            "GGXrdReversalTool."@ + tag + ".zip"@,
            "GGXrdReversalTool-"@ + tag + ".zip"@,
        ],
        AppType::FasterLoadingTimes => match platform {
            Platform::Windows => seq!["GGXrdFasterLoadingTimes.exe"@],
            Platform::UnixLike => seq!["GGXrdFasterLoadingTimes_linux"@],
            Platform::Other => Seq::empty(),
        },
        AppType::MirrorColorSelect => seq!["GGXrdMirrorColorSelect.zip"@],
        AppType::BackgroundGamepad => match platform {
            Platform::Windows => seq!["GGXrdBackgroundGamepad.exe"@],
            Platform::UnixLike => seq!["GGXrdBackgroundGamepad_linux"@],
            Platform::Other => Seq::empty(),
        },
    }
}

/// The whitelist of expected asset names, as [`spec_asset_whitelist`] states.
pub fn asset_whitelist(kind: AppType, platform: Platform, tag: &str) -> (r: Vec<String>)
    ensures
        r@.map_values(|x: String| x@) == spec_asset_whitelist(kind, platform, tag@),
{
    let mut r: Vec<String> = Vec::new();
    match kind {
        AppType::Unknown => {},
        AppType::HitboxOverlay => {
            let mut s = String::new();
            s.append("ggxrd_hitbox_overlay.zip");
            r.push(s);
        },
        AppType::WakeupTool => {
            let mut a = String::new();
            a.append("GGXrdReversalTool.");
            a.append(tag);
            a.append(".zip");
            r.push(a);
            let mut b = String::new();
            b.append("GGXrdReversalTool-");
            b.append(tag);
            b.append(".zip");
            r.push(b);
        },
        AppType::FasterLoadingTimes => {
            match platform {
                Platform::Windows => {
                    let mut s = String::new();
                    s.append("GGXrdFasterLoadingTimes.exe");
                    r.push(s);
                },
                Platform::UnixLike => {
                    let mut s = String::new();
                    s.append("GGXrdFasterLoadingTimes_linux");
                    r.push(s);
                },
                Platform::Other => {},
            }
        },
        AppType::MirrorColorSelect => {
            let mut s = String::new();
            s.append("GGXrdMirrorColorSelect.zip");
            r.push(s);
        },
        AppType::BackgroundGamepad => {
            match platform {
                Platform::Windows => {
                    let mut s = String::new();
                    s.append("GGXrdBackgroundGamepad.exe");
                    r.push(s);
                },
                Platform::UnixLike => {
                    let mut s = String::new();
                    s.append("GGXrdBackgroundGamepad_linux");
                    r.push(s);
                },
                Platform::Other => {},
            }
        },
    }
    proof {
        assert(r@.map_values(|x: String| x@) =~= spec_asset_whitelist(kind, platform, tag@));
    }
    r
}

/// An asset name that must be expanded after download: it carries the
/// archive suffix.
pub open spec fn spec_is_archive(name: Seq<char>) -> bool {
    spec_ends_with(name, ".zip"@)
}

/// Mathematical image of a [`PlannedDownload`].
pub ghost struct PlannedDownloadModel {
    pub file_name: Seq<char>,
    pub url: Seq<char>,
    pub expand: bool,
}

/// One asset the driver must fetch: its file name, its direct download URL,
/// and whether the downloaded file must be expanded in place.
#[derive(Debug)]
pub struct PlannedDownload {
    pub file_name: String,
    pub url: String,
    pub expand: bool,
}

impl View for PlannedDownload {
    type V = PlannedDownloadModel;

    open spec fn view(&self) -> PlannedDownloadModel {
        PlannedDownloadModel {
            file_name: self.file_name@,
            url: self.url@,
            expand: self.expand,
        }
    }
}

/// The plan a matched asset gives rise to.
pub open spec fn spec_planned(a: TagAssetsModel) -> PlannedDownloadModel {
    PlannedDownloadModel {
        file_name: a.name,
        url: a.browser_download_url,
        expand: spec_is_archive(a.name),
    }
}

/// The release assets whose file name stands in the whitelist, in release
/// order.
pub open spec fn spec_matched_assets(assets: Seq<TagAssetsModel>, wl: Seq<Seq<char>>) -> Seq<
    TagAssetsModel,
> {
    assets.filter(|a: TagAssetsModel| wl.contains(a.name))
}

/// The downloads an update of `kind` on `platform` requires for the remote
/// release `remote`: one per whitelisted asset, with its URL and whether it
/// must be expanded.
pub open spec fn spec_planned_downloads(
    kind: AppType,
    platform: Platform,
    remote: crate::releases::TagInfoModel,
) -> Seq<PlannedDownloadModel> {
    spec_matched_assets(
        remote.assets,
        spec_asset_whitelist(kind, platform, remote.tag_name),
    ).map_values(|a: TagAssetsModel| spec_planned(a))
}

/// Plans the downloads of one update, as [`spec_planned_downloads`] states.
pub fn plan_downloads(kind: AppType, platform: Platform, remote: &TagInfo) -> (r: Vec<
    PlannedDownload,
>)
    ensures
        r@.map_values(|d: PlannedDownload| d@) == spec_planned_downloads(kind, platform, remote@),
{
    let wl = asset_whitelist(kind, platform, remote.tag_name.as_str());
    let ghost wl_model = spec_asset_whitelist(kind, platform, remote.tag_name@);
    let ghost assets_model = remote@.assets;
    let ghost pred = |a: TagAssetsModel| wl_model.contains(a.name);
    let mut r: Vec<PlannedDownload> = Vec::new();
    let n = remote.assets.len();
    let mut i: usize = 0;
    proof {
        assert(assets_model.subrange(0, 0) =~= Seq::<TagAssetsModel>::empty());
        reveal(Seq::filter);
        assert(r@.map_values(|d: PlannedDownload| d@) =~= assets_model.subrange(0, 0).filter(
            pred,
        ).map_values(|a: TagAssetsModel| spec_planned(a)));
    }
    while i < n
        invariant
            0 <= i <= n,
            n == remote.assets@.len(),
            assets_model == remote@.assets,
            wl_model == wl@.map_values(|x: String| x@),
            pred == (|a: TagAssetsModel| wl_model.contains(a.name)),
            r@.map_values(|d: PlannedDownload| d@) == assets_model.subrange(0, i as int).filter(
                pred,
            ).map_values(|a: TagAssetsModel| spec_planned(a)),
        decreases n - i,
    {
        let ghost prefix = assets_model.subrange(0, i as int);
        let ghost cur = assets_model.subrange(0, i + 1);
        proof {
            reveal(Seq::filter);
            assert(cur.drop_last() =~= prefix);
            assert(assets_model[i as int] == remote.assets@[i as int]@);
            assert(cur.last() == assets_model[i as int]);
        }
        let asset = &remote.assets[i];
        if vec_contains_string(&wl, asset.name.as_str()) {
            let expand = str_ends_with(asset.name.as_str(), ".zip");
            let d = PlannedDownload {
                file_name: asset.name.clone(),
                url: asset.browser_download_url.clone(),
                expand,
            };
            let ghost dm = d@;
            let ghost r_old = r@;
            r.push(d);
            proof {
                assert(dm == spec_planned(assets_model[i as int]));
                assert(pred(assets_model[i as int]));
                assert(cur.filter(pred) =~= prefix.filter(pred).push(assets_model[i as int]));
                assert(cur.filter(pred).map_values(|a: TagAssetsModel| spec_planned(a))
                    =~= prefix.filter(pred).map_values(|a: TagAssetsModel| spec_planned(a)).push(
                    dm,
                ));
                assert(r@.map_values(|d: PlannedDownload| d@) =~= r_old.map_values(
                    |d: PlannedDownload| d@,
                ).push(dm));
            }
        } else {
            proof {
                assert(!pred(assets_model[i as int]));
                assert(cur.filter(pred) =~= prefix.filter(pred));
            }
        }
        i += 1;
    }
    proof {
        assert(assets_model.subrange(0, n as int) =~= assets_model);
    }
    r
}

/// The outcome of one update decision: whether the descriptor was already up
/// to date, and the downloads the driver must perform (none when up to date).
#[derive(Debug)]
pub struct UpdatePlan {
    pub up_to_date: bool,
    pub downloads: Vec<PlannedDownload>,
}

/// The descriptor `pre`, its recorded version state refreshed from the
/// remote release `remote`; every other field untouched.
pub open spec fn spec_refreshed(pre: AppModel, remote: crate::releases::TagInfoModel) -> AppModel {
    AppModel {
        tag_name: remote.tag_name,
        published_at: remote.published_at,
        url_source_version: remote.html_url,
        id: remote.id,
        ..pre
    }
}

/// A new remote version is to be reported when the tag or the publish
/// timestamp of the recorded state differs from the resolved release.
pub fn version_changed(current: &AppStruct, latest: &TagInfo) -> (r: bool)
    ensures
        r == !(current@.tag_name == latest@.tag_name && current@.published_at
            == latest@.published_at),
{
    !(current.tag_name == latest.tag_name && current.published_at == latest.published_at)
}

/// The update decision for one add-on: when the recorded tag equals the
/// remote tag nothing is downloaded; otherwise every whitelisted asset of the
/// release is planned for download. In both cases the descriptor's version
/// state is refreshed from the release, and no other field (in particular
/// `patched`) changes.
pub fn update_if_needed(app: &mut AppStruct, remote: &TagInfo, platform: Platform) -> (plan:
    UpdatePlan)
    ensures
        plan.up_to_date == (old(app)@.tag_name == remote@.tag_name),
        plan.up_to_date ==> plan.downloads@.len() == 0,
        !plan.up_to_date ==> plan.downloads@.map_values(|d: PlannedDownload| d@)
            == spec_planned_downloads(old(app)@.app_type, platform, remote@),
        final(app)@ == spec_refreshed(old(app)@, remote@),
        final(app)@.patched == old(app)@.patched,
{
    let up_to_date = app.tag_name == remote.tag_name;
    let downloads: Vec<PlannedDownload> = if up_to_date {
        Vec::new()
    } else {
        plan_downloads(app.app_type, platform, remote)
    };
    app.tag_name = remote.tag_name.clone();
    app.published_at = remote.published_at.clone();
    app.url_source_version = remote.html_url.clone();
    app.id = remote.id;
    UpdatePlan { up_to_date, downloads }
}

/// What the fetcher must do about the destination path of a download.
#[derive(Clone, Copy, Debug, PartialEq, Eq, Structural)]
pub enum CollisionAction {
    /// Nothing stands at the destination: download straight away.
    Download,
    /// A regular file stands at the destination: delete it, then download.
    DeleteThenDownload,
    /// A directory stands at the destination: the download cannot proceed.
    Abort,
}

/// How a pre-existing destination entry is handled: a regular file is deleted
/// and the download retried, a directory is a fatal collision for this asset.
pub fn collision_action(path_exists: bool, is_directory: bool) -> (r: CollisionAction)
    ensures
        r == (if path_exists && is_directory {
            CollisionAction::Abort
        } else if path_exists {
            CollisionAction::DeleteThenDownload
        } else {
            CollisionAction::Download
        }),
{
    if path_exists && is_directory {
        CollisionAction::Abort
    } else if path_exists {
        CollisionAction::DeleteThenDownload
    } else {
        CollisionAction::Download
    }
}

proof fn lemma_filter_none(assets: Seq<TagAssetsModel>, wl: Seq<Seq<char>>)
    requires
        forall|k: int| 0 <= k < assets.len() ==> !wl.contains(#[trigger] assets[k].name),
    ensures
        spec_matched_assets(assets, wl) == Seq::<TagAssetsModel>::empty(),
    decreases assets.len(),
{
    reveal(Seq::filter);
    let pred = |a: TagAssetsModel| wl.contains(a.name);
    if assets.len() == 0 {
        assert(assets.filter(pred) =~= Seq::<TagAssetsModel>::empty());
    } else {
        assert(!pred(assets.last()));
        lemma_filter_none(assets.drop_last(), wl);
        assert(assets.filter(pred) == assets.drop_last().filter(pred));
    }
}

/// A release with no whitelisted asset plans no download at all: the planned
/// list of an update is empty whenever no asset name of the release stands
/// in the whitelist of its kind and platform. Together with the contract of
/// [`update_if_needed`], such an update still refreshes the descriptor's
/// version state and touches nothing else.
pub proof fn lemma_absent_assets_no_download(
    kind: AppType,
    platform: Platform,
    remote: crate::releases::TagInfoModel,
)
    requires
        forall|k: int|
            0 <= k < remote.assets.len() ==> !spec_asset_whitelist(
                kind,
                platform,
                remote.tag_name,
            ).contains((#[trigger] remote.assets[k]).name),
    ensures
        spec_planned_downloads(kind, platform, remote) == Seq::<PlannedDownloadModel>::empty(),
{
    lemma_filter_none(remote.assets, spec_asset_whitelist(kind, platform, remote.tag_name));
    assert(spec_planned_downloads(kind, platform, remote)
        =~= Seq::<PlannedDownloadModel>::empty());
}

} // verus!
