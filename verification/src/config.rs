//! The registry: the full persisted state, a list of add-on descriptors with
//! unique `owner/name` keys plus the cached path of the game's installation
//! folder.

use vstd::prelude::*;
use vstd::string::StringExecFns;

use crate::apps::{AppModel, AppStruct, AppType, Platform};
use crate::patch::spec_needs_automatic_patch;
use crate::releases::TagInfo;
use crate::text::{lex_le, sorted_strings, str_eq};
use crate::update::{spec_refreshed, UpdatePlan, update_if_needed};

verus! {

/// Mathematical image of a [`Config`].
pub ghost struct ConfigModel {
    pub apps: Seq<AppModel>,
    pub xrd_game_folder: Seq<char>,
}

/// The full persisted state: the tracked add-ons and the cached game folder.
#[derive(Debug)]
pub struct Config {
    pub apps: Vec<AppStruct>,
    pub xrd_game_folder: String,
}

impl View for Config {
    type V = ConfigModel;

    open spec fn view(&self) -> ConfigModel {
        ConfigModel {
            apps: self.apps@.map_values(|a: AppStruct| a@),
            xrd_game_folder: self.xrd_game_folder@,
        }
    }
}

/// The registry keeps its identities unique: no two descriptors share their
/// `owner/name` key.
pub open spec fn spec_unique_names(apps: Seq<AppModel>) -> bool {
    forall|i: int, j: int|
        0 <= i < j < apps.len() ==> (#[trigger] apps[i]).spec_app_name() != (
        #[trigger] apps[j]).spec_app_name()
}

/// The descriptor a default registry holds for one add-on: identity and kind
/// set, everything else empty or off.
pub open spec fn spec_default_app(owner: Seq<char>, name: Seq<char>, kind: AppType) -> AppModel {
    AppModel {
        repo_owner: owner,
        repo_name: name,
        app_type: kind,
        id: 0,
        tag_name: Seq::empty(),
        published_at: Seq::empty(),
        url_source_version: Seq::empty(),
        automatically_patch: false,
        patched: false,
        enabled: false,
        track_updates: false,
        tracked_flag: false,
    }
}

/// The hard-coded default set of tracked add-ons, used when no persisted
/// registry exists.
pub open spec fn spec_default_apps() -> Seq<AppModel> {
    seq![
        spec_default_app("kkots"@, "ggxrd_hitbox_overlay_2211"@, AppType::HitboxOverlay),
        spec_default_app("Iquis"@, "rev2-wakeup-tool"@, AppType::WakeupTool),
        spec_default_app("kkots"@, "rev2-wakeup-tool"@, AppType::WakeupTool),
        spec_default_app("kkots"@, "GGXrdFasterLoadingTimes"@, AppType::FasterLoadingTimes),
        spec_default_app("kkots"@, "GGXrdMirrorColorSelect"@, AppType::MirrorColorSelect),
        spec_default_app("kkots"@, "GGXrdBackgroundGamepad"@, AppType::BackgroundGamepad),
    ]
}

impl Config {
    /// An empty registry: no add-ons, no cached game folder.
    pub fn new() -> (r: Self)
        ensures
            r@.apps == Seq::<AppModel>::empty(),
            r@.xrd_game_folder == Seq::<char>::empty(),
    {
        let r = Config { apps: Vec::new(), xrd_game_folder: String::new() };
        proof {
            assert(r@.apps =~= Seq::<AppModel>::empty());
        }
        r
    }

    /// Replaces the add-on list with the hard-coded default set; the cached
    /// game folder is untouched.
    pub fn set_default_apps(&mut self)
        ensures
            final(self)@.apps == spec_default_apps(),
            final(self)@.xrd_game_folder == old(self)@.xrd_game_folder,
    {
        let mut apps: Vec<AppStruct> = Vec::new();
        apps.push(AppStruct::new("kkots".to_owned(), "ggxrd_hitbox_overlay_2211".to_owned(), AppType::HitboxOverlay));
        apps.push(AppStruct::new("Iquis".to_owned(), "rev2-wakeup-tool".to_owned(), AppType::WakeupTool));
        apps.push(AppStruct::new("kkots".to_owned(), "rev2-wakeup-tool".to_owned(), AppType::WakeupTool));
        apps.push(AppStruct::new("kkots".to_owned(), "GGXrdFasterLoadingTimes".to_owned(), AppType::FasterLoadingTimes));
        apps.push(AppStruct::new("kkots".to_owned(), "GGXrdMirrorColorSelect".to_owned(), AppType::MirrorColorSelect));
        apps.push(AppStruct::new("kkots".to_owned(), "GGXrdBackgroundGamepad".to_owned(), AppType::BackgroundGamepad));
        self.apps = apps;
        proof {
            assert(self.apps@.map_values(|a: AppStruct| a@) =~= spec_default_apps());
        }
    }

    /// The index of the add-on whose key is `name`, if one is tracked.
    pub fn find_app(&self, name: &str) -> (r: Option<usize>)
        ensures
            r matches Some(i) ==> i < self@.apps.len() && self@.apps[i as int].spec_app_name()
                == name@,
            r is None ==> forall|k: int|
                0 <= k < self@.apps.len() ==> (#[trigger] self@.apps[k]).spec_app_name() != name@,
    {
        let n = self.apps.len();
        let mut i: usize = 0;
        while i < n
            invariant
                0 <= i <= n,
                n == self.apps@.len(),
                forall|k: int|
                    0 <= k < i ==> (#[trigger] self.apps@[k]@).spec_app_name() != name@,
            decreases n - i,
        {
            let key = self.apps[i].get_app_name();
            if str_eq(key.as_str(), name) {
                return Some(i);
            }
            i += 1;
        }
        None
    }

    /// Flips whether the add-on at `i` is tracked and visible; nothing else
    /// changes.
    pub fn toggle_enabled(&mut self, i: usize)
        requires
            i < old(self)@.apps.len(),
        ensures
            final(self)@.apps == old(self)@.apps.update(
                i as int,
                AppModel { enabled: !old(self)@.apps[i as int].enabled, ..old(self)@.apps[i as int] },
            ),
            final(self)@.xrd_game_folder == old(self)@.xrd_game_folder,
    {
        let app = &mut self.apps[i];
        app.enabled = !app.enabled;
        proof {
            assert(self@.apps =~= old(self)@.apps.update(
                i as int,
                AppModel { enabled: !old(self)@.apps[i as int].enabled, ..old(self)@.apps[i as int] },
            ));
        }
    }

    /// Runs the update decision for the add-on at `i` against the resolved
    /// release: the descriptor's version state is refreshed and the planned
    /// downloads are returned, exactly as
    /// [`crate::update::update_if_needed`] states per descriptor.
    pub fn update_app(&mut self, i: usize, remote: &TagInfo, platform: Platform) -> (plan:
        UpdatePlan)
        requires
            i < old(self)@.apps.len(),
        ensures
            plan.up_to_date == (old(self)@.apps[i as int].tag_name == remote@.tag_name),
            plan.up_to_date ==> plan.downloads@.len() == 0,
            !plan.up_to_date ==> plan.downloads@.map_values(
                |d: crate::update::PlannedDownload| d@,
            ) == crate::update::spec_planned_downloads(
                old(self)@.apps[i as int].app_type,
                platform,
                remote@,
            ),
            final(self)@.apps == old(self)@.apps.update(
                i as int,
                spec_refreshed(old(self)@.apps[i as int], remote@),
            ),
            final(self)@.xrd_game_folder == old(self)@.xrd_game_folder,
    {
        let app = &mut self.apps[i];
        let plan = update_if_needed(app, remote, platform);
        proof {
            assert(self@.apps =~= old(self)@.apps.update(
                i as int,
                spec_refreshed(old(self)@.apps[i as int], remote@),
            ));
        }
        plan
    }

    /// Records the outcome of a patch attempt on the add-on at `i`: success
    /// sets its `patched` flag, anything else leaves the registry as it was.
    pub fn record_patch_outcome(&mut self, i: usize, success: bool)
        requires
            i < old(self)@.apps.len(),
        ensures
            final(self)@.apps == old(self)@.apps.update(
                i as int,
                crate::patch::spec_record_patch_outcome(old(self)@.apps[i as int], success),
            ),
            final(self)@.xrd_game_folder == old(self)@.xrd_game_folder,
    {
        let app = &mut self.apps[i];
        crate::patch::record_patch_outcome(app, success);
        proof {
            assert(self@.apps =~= old(self)@.apps.update(
                i as int,
                crate::patch::spec_record_patch_outcome(old(self)@.apps[i as int], success),
            ));
        }
    }

    /// The keys of the add-ons the automatic patch scan selects: those that
    /// opted in and are not yet patched, in registry order.
    pub fn apps_to_patch(&self) -> (r: Vec<String>)
        ensures
            r@.map_values(|s: String| s@) == self@.apps.filter(
                |a: AppModel| spec_needs_automatic_patch(a),
            ).map_values(|a: AppModel| a.spec_app_name()),
    {
        let ghost apps_model = self@.apps;
        let ghost pred = |a: AppModel| spec_needs_automatic_patch(a);
        let mut r: Vec<String> = Vec::new();
        let n = self.apps.len();
        let mut i: usize = 0;
        proof {
            reveal(Seq::filter);
            assert(apps_model.subrange(0, 0) =~= Seq::<AppModel>::empty());
            assert(r@.map_values(|s: String| s@) =~= apps_model.subrange(0, 0).filter(
                pred,
            ).map_values(|a: AppModel| a.spec_app_name()));
        }
        while i < n
            invariant
                0 <= i <= n,
                n == self.apps@.len(),
                apps_model == self@.apps,
                pred == (|a: AppModel| spec_needs_automatic_patch(a)),
                r@.map_values(|s: String| s@) == apps_model.subrange(0, i as int).filter(
                    pred,
                ).map_values(|a: AppModel| a.spec_app_name()),
            decreases n - i,
        {
            let ghost prefix = apps_model.subrange(0, i as int);
            let ghost cur = apps_model.subrange(0, i + 1);
            proof {
                reveal(Seq::filter);
                assert(cur.drop_last() =~= prefix);
                assert(cur.last() == apps_model[i as int]);
            }
            let app = &self.apps[i];
            if crate::patch::needs_automatic_patch(app) {
                let key = app.get_app_name();
                let ghost key_model = key@;
                let ghost r_old = r@;
                r.push(key);
                proof {
                    assert(pred(apps_model[i as int]));
                    assert(cur.filter(pred) =~= prefix.filter(pred).push(apps_model[i as int]));
                    assert(cur.filter(pred).map_values(|a: AppModel| a.spec_app_name())
                        =~= prefix.filter(pred).map_values(|a: AppModel| a.spec_app_name()).push(
                        key_model,
                    ));
                    assert(r@.map_values(|s: String| s@) =~= r_old.map_values(
                        |s: String| s@,
                    ).push(key_model));
                }
            } else {
                proof {
                    assert(!pred(apps_model[i as int]));
                    assert(cur.filter(pred) =~= prefix.filter(pred));
                }
            }
            i += 1;
        }
        proof {
            assert(apps_model.subrange(0, n as int) =~= apps_model);
        }
        r
    }

    /// The keys of every tracked add-on, in ascending lexicographic order.
    pub fn get_app_names(&self) -> (r: Vec<String>)
        ensures
            r@.map_values(|s: String| s@).to_multiset() == self@.apps.map_values(
                |a: AppModel| a.spec_app_name(),
            ).to_multiset(),
            forall|i: int, j: int|
                0 <= i <= j < r@.len() ==> lex_le((#[trigger] r@[i])@, (#[trigger] r@[j])@),
    {
        let ghost apps_model = self@.apps;
        let mut names: Vec<String> = Vec::new();
        let n = self.apps.len();
        let mut i: usize = 0;
        proof {
            assert(names@.map_values(|s: String| s@) =~= apps_model.subrange(0, 0).map_values(
                |a: AppModel| a.spec_app_name(),
            ));
        }
        while i < n
            invariant
                0 <= i <= n,
                n == self.apps@.len(),
                apps_model == self@.apps,
                names@.map_values(|s: String| s@) == apps_model.subrange(0, i as int).map_values(
                    |a: AppModel| a.spec_app_name(),
                ),
            decreases n - i,
        {
            let key = self.apps[i].get_app_name();
            let ghost key_model = key@;
            let ghost names_old = names@;
            names.push(key);
            proof {
                assert(apps_model.subrange(0, i + 1).drop_last() =~= apps_model.subrange(
                    0,
                    i as int,
                ));
                assert(apps_model[i as int] == self.apps@[i as int]@);
                assert(key_model == apps_model[i as int].spec_app_name());
                assert(names@.map_values(|s: String| s@) =~= names_old.map_values(
                    |s: String| s@,
                ).push(key_model));
                assert(apps_model.subrange(0, i + 1).last() == apps_model[i as int]);
                assert(names@.map_values(|s: String| s@) =~= apps_model.subrange(
                    0,
                    i + 1,
                ).map_values(|a: AppModel| a.spec_app_name()));
            }
            i += 1;
        }
        proof {
            assert(apps_model.subrange(0, n as int) =~= apps_model);
        }
        sorted_strings(names)
    }

    /// The keys of the tracked-and-visible add-ons, in ascending
    /// lexicographic order.
    pub fn get_enabled_app_names(&self) -> (r: Vec<String>)
        ensures
            r@.map_values(|s: String| s@).to_multiset() == self@.apps.filter(
                |a: AppModel| a.enabled,
            ).map_values(|a: AppModel| a.spec_app_name()).to_multiset(),
            forall|i: int, j: int|
                0 <= i <= j < r@.len() ==> lex_le((#[trigger] r@[i])@, (#[trigger] r@[j])@),
    {
        let ghost apps_model = self@.apps;
        let ghost pred = |a: AppModel| a.enabled;
        let mut names: Vec<String> = Vec::new();
        let n = self.apps.len();
        let mut i: usize = 0;
        proof {
            reveal(Seq::filter);
            assert(names@.map_values(|s: String| s@) =~= apps_model.subrange(0, 0).filter(
                pred,
            ).map_values(|a: AppModel| a.spec_app_name()));
        }
        while i < n
            invariant
                0 <= i <= n,
                n == self.apps@.len(),
                apps_model == self@.apps,
                pred == (|a: AppModel| a.enabled),
                names@.map_values(|s: String| s@) == apps_model.subrange(0, i as int).filter(
                    pred,
                ).map_values(|a: AppModel| a.spec_app_name()),
            decreases n - i,
        {
            let ghost prefix = apps_model.subrange(0, i as int);
            let ghost cur = apps_model.subrange(0, i + 1);
            proof {
                reveal(Seq::filter);
                assert(cur.drop_last() =~= prefix);
                assert(cur.last() == apps_model[i as int]);
            }
            let app = &self.apps[i];
            if app.enabled {
                let key = app.get_app_name();
                let ghost key_model = key@;
                let ghost names_old = names@;
                names.push(key);
                proof {
                    assert(pred(apps_model[i as int]));
                    assert(cur.filter(pred) =~= prefix.filter(pred).push(apps_model[i as int]));
                    assert(cur.filter(pred).map_values(|a: AppModel| a.spec_app_name())
                        =~= prefix.filter(pred).map_values(|a: AppModel| a.spec_app_name()).push(
                        key_model,
                    ));
                    assert(names@.map_values(|s: String| s@) =~= names_old.map_values(
                        |s: String| s@,
                    ).push(key_model));
                }
            } else {
                proof {
                    assert(!pred(apps_model[i as int]));
                    assert(cur.filter(pred) =~= prefix.filter(pred));
                }
            }
            i += 1;
        }
        proof {
            assert(apps_model.subrange(0, n as int) =~= apps_model);
        }
        sorted_strings(names)
    }
}


/// Replacing one descriptor with one of the same identity keeps the
/// registry's keys unique: the update, patch and toggle steps all leave
/// `owner/name` untouched, so the registry invariant survives every
/// mutation this crate performs.
pub proof fn lemma_same_identity_update_keeps_uniqueness(
    apps: Seq<AppModel>,
    i: int,
    a: AppModel,
)
    requires
        spec_unique_names(apps),
        0 <= i < apps.len(),
        a.spec_app_name() == apps[i].spec_app_name(),
    ensures
        spec_unique_names(apps.update(i, a)),
{
    let updated = apps.update(i, a);
    assert forall|x: int, y: int|
        0 <= x < y < updated.len() implies (#[trigger] updated[x]).spec_app_name() != (
    #[trigger] updated[y]).spec_app_name() by {
        assert(apps[x].spec_app_name() != apps[y].spec_app_name());
        assert(updated[x].spec_app_name() == apps[x].spec_app_name());
        assert(updated[y].spec_app_name() == apps[y].spec_app_name());
    }
}

/// The hard-coded default set respects the registry invariant: its six
/// identities are pairwise distinct.
pub proof fn lemma_default_apps_unique()
    ensures
        spec_unique_names(spec_default_apps()),
{
    reveal_strlit("kkots");
    reveal_strlit("Iquis");
    reveal_strlit("/");
    reveal_strlit("ggxrd_hitbox_overlay_2211");
    reveal_strlit("rev2-wakeup-tool");
    reveal_strlit("GGXrdFasterLoadingTimes");
    reveal_strlit("GGXrdMirrorColorSelect");
    reveal_strlit("GGXrdBackgroundGamepad");
    let apps = spec_default_apps();
    let n0 = apps[0].spec_app_name();
    let n1 = apps[1].spec_app_name();
    let n2 = apps[2].spec_app_name();
    let n3 = apps[3].spec_app_name();
    let n4 = apps[4].spec_app_name();
    let n5 = apps[5].spec_app_name();
    assert(n0.len() == 31);
    assert(n1.len() == 22);
    assert(n2.len() == 22);
    assert(n3.len() == 29);
    assert(n4.len() == 28);
    assert(n5.len() == 28);
    assert(n1[0] == 'I');
    assert(n2[0] == 'k');
    assert(n1 != n2);
    assert(n4[11] == 'M');
    assert(n5[11] == 'B');
    assert(n4 != n5);
}

/// The path of the registry document inside its storage directory.
pub fn get_db_file_path(dir: &str) -> (r: String)
    ensures
        r@ == dir@ + "/db.json"@,
{
    let mut r = dir.to_owned();
    r.append("/db.json");
    r
}

} // verus!
