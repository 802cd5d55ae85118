//! The registry: defaults, lookup, flags and the patch scan.

use xrd_mod_manager::apps::Platform;
use xrd_mod_manager::config::{get_db_file_path, Config};
use xrd_mod_manager::releases::TagInfo;

fn default_config() -> Config {
    let mut cfg = Config::new();
    cfg.set_default_apps();
    cfg
}

#[test]
fn default_registry_holds_the_six_known_add_ons() {
    let cfg = default_config();
    assert_eq!(cfg.apps.len(), 6);
    let names: Vec<String> = cfg.apps.iter().map(|a| a.get_app_name()).collect();
    assert_eq!(
        names,
        vec![
            "kkots/ggxrd_hitbox_overlay_2211",
            "Iquis/rev2-wakeup-tool",
            "kkots/rev2-wakeup-tool",
            "kkots/GGXrdFasterLoadingTimes",
            "kkots/GGXrdMirrorColorSelect",
            "kkots/GGXrdBackgroundGamepad",
        ]
    );
    for app in &cfg.apps {
        assert!(!app.enabled && !app.patched && !app.automatically_patch);
        assert_eq!(app.tag_name, "");
        assert_eq!(app.id, 0);
    }
}

#[test]
fn find_app_locates_by_key() {
    let cfg = default_config();
    let i = cfg.find_app("kkots/rev2-wakeup-tool").expect("tracked add-on");
    assert_eq!(cfg.apps[i].repo_owner, "kkots");
    assert_eq!(cfg.apps[i].repo_name, "rev2-wakeup-tool");
    assert!(cfg.find_app("nobody/nothing").is_none());
}

#[test]
fn toggle_enabled_flips_only_that_flag() {
    let mut cfg = default_config();
    cfg.toggle_enabled(1);
    assert!(cfg.apps[1].enabled);
    assert!(!cfg.apps[0].enabled);
    cfg.toggle_enabled(1);
    assert!(!cfg.apps[1].enabled);
}

#[test]
fn patch_scan_selects_opted_in_unpatched_apps() {
    let mut cfg = default_config();
    cfg.apps[0].automatically_patch = true;
    cfg.apps[3].automatically_patch = true;
    cfg.apps[3].patched = true;
    cfg.apps[5].automatically_patch = true;
    let names = cfg.apps_to_patch();
    assert_eq!(
        names,
        vec!["kkots/ggxrd_hitbox_overlay_2211", "kkots/GGXrdBackgroundGamepad"]
    );
}

#[test]
fn recording_success_removes_the_app_from_the_scan() {
    let mut cfg = default_config();
    cfg.apps[0].automatically_patch = true;
    assert_eq!(cfg.apps_to_patch().len(), 1);
    cfg.record_patch_outcome(0, true);
    assert!(cfg.apps[0].patched);
    assert!(cfg.apps_to_patch().is_empty());
    cfg.record_patch_outcome(0, false);
    assert!(cfg.apps[0].patched);
}

#[test]
fn update_app_refreshes_the_descriptor_in_place() {
    let mut cfg = default_config();
    let remote = TagInfo {
        html_url: "https://example.invalid/rel".to_string(),
        id: 9,
        tag_name: "2.0".to_string(),
        tarball_url: String::new(),
        body: String::new(),
        published_at: "2024-05-06T07:08:09Z".to_string(),
        assets: vec![],
    };
    let plan = cfg.update_app(0, &remote, Platform::UnixLike);
    assert!(!plan.up_to_date);
    assert_eq!(cfg.apps[0].tag_name, "2.0");
    assert_eq!(cfg.apps[0].id, 9);
    assert_eq!(cfg.apps[0].url_source_version, "https://example.invalid/rel");
    assert_eq!(cfg.apps[1].tag_name, "");
}

#[test]
fn app_names_come_out_sorted() {
    let cfg = default_config();
    let names = cfg.get_app_names();
    assert_eq!(
        names,
        vec![
            "Iquis/rev2-wakeup-tool",
            "kkots/GGXrdBackgroundGamepad",
            "kkots/GGXrdFasterLoadingTimes",
            "kkots/GGXrdMirrorColorSelect",
            "kkots/ggxrd_hitbox_overlay_2211",
            "kkots/rev2-wakeup-tool",
        ]
    );
}

#[test]
fn enabled_app_names_filter_and_sort() {
    let mut cfg = default_config();
    cfg.toggle_enabled(0);
    cfg.toggle_enabled(1);
    let names = cfg.get_enabled_app_names();
    assert_eq!(
        names,
        vec!["Iquis/rev2-wakeup-tool", "kkots/ggxrd_hitbox_overlay_2211"]
    );
}

#[test]
fn db_file_path_is_under_the_storage_directory() {
    assert_eq!(get_db_file_path("/mods"), "/mods/db.json");
}
