//! The update decision and download planner, on concrete add-ons.

use xrd_mod_manager::apps::{AppStruct, AppType, Platform};
use xrd_mod_manager::releases::{TagAssets, TagInfo};
use xrd_mod_manager::update::{
    asset_whitelist, collision_action, plan_downloads, update_if_needed, version_changed,
    CollisionAction,
};

fn asset(name: &str, url: &str) -> TagAssets {
    TagAssets {
        id: 1,
        name: name.to_string(),
        content_type: "application/zip".to_string(),
        state: "uploaded".to_string(),
        size: 1000,
        browser_download_url: url.to_string(),
    }
}

fn release(tag: &str, assets: Vec<TagAssets>) -> TagInfo {
    TagInfo {
        html_url: format!("https://github.com/kkots/x/releases/tag/{tag}"),
        id: 42,
        tag_name: tag.to_string(),
        tarball_url: String::new(),
        body: "notes".to_string(),
        published_at: "2024-01-02T03:04:05Z".to_string(),
        assets,
    }
}

fn hitbox_app(tag: &str) -> AppStruct {
    let mut app = AppStruct::new(
        "kkots".to_string(),
        "ggxrd_hitbox_overlay_2211".to_string(),
        AppType::HitboxOverlay,
    );
    app.tag_name = tag.to_string();
    app
}

#[test]
fn new_version_downloads_and_expands_one_archive() {
    let mut app = hitbox_app("6.26");
    let remote = release(
        "6.27",
        vec![asset("ggxrd_hitbox_overlay.zip", "https://example.invalid/a.zip")],
    );
    let plan = update_if_needed(&mut app, &remote, Platform::Windows);
    assert!(!plan.up_to_date);
    assert_eq!(plan.downloads.len(), 1);
    assert_eq!(plan.downloads[0].file_name, "ggxrd_hitbox_overlay.zip");
    assert_eq!(plan.downloads[0].url, "https://example.invalid/a.zip");
    assert!(plan.downloads[0].expand);
    assert_eq!(app.tag_name, "6.27");
    assert_eq!(app.published_at, "2024-01-02T03:04:05Z");
    assert_eq!(app.id, 42);
    assert!(!app.patched);
}

#[test]
fn unchanged_tag_downloads_nothing_but_refreshes_metadata() {
    let mut app = hitbox_app("6.26");
    app.patched = true;
    let remote = release(
        "6.26",
        vec![asset("ggxrd_hitbox_overlay.zip", "https://example.invalid/a.zip")],
    );
    let plan = update_if_needed(&mut app, &remote, Platform::Windows);
    assert!(plan.up_to_date);
    assert!(plan.downloads.is_empty());
    assert_eq!(app.tag_name, "6.26");
    assert_eq!(app.published_at, "2024-01-02T03:04:05Z");
    assert_eq!(app.id, 42);
    assert!(app.patched);
}

#[test]
fn no_whitelisted_asset_downloads_nothing_but_refreshes_metadata() {
    let mut app = hitbox_app("1.0");
    let remote = release("2.0", vec![asset("README.md", "https://example.invalid/r")]);
    let plan = update_if_needed(&mut app, &remote, Platform::UnixLike);
    assert!(!plan.up_to_date);
    assert!(plan.downloads.is_empty());
    assert_eq!(app.tag_name, "2.0");
    assert!(!app.patched);
}

#[test]
fn whitelist_per_kind_and_platform() {
    let names = |kind, platform| {
        asset_whitelist(kind, platform, "1.2")
    };
    assert_eq!(
        names(AppType::WakeupTool, Platform::Windows),
        vec!["GGXrdReversalTool.1.2.zip", "GGXrdReversalTool-1.2.zip"]
    );
    assert_eq!(
        names(AppType::HitboxOverlay, Platform::UnixLike),
        vec!["ggxrd_hitbox_overlay.zip"]
    );
    assert_eq!(
        names(AppType::FasterLoadingTimes, Platform::Windows),
        vec!["GGXrdFasterLoadingTimes.exe"]
    );
    assert_eq!(
        names(AppType::FasterLoadingTimes, Platform::UnixLike),
        vec!["GGXrdFasterLoadingTimes_linux"]
    );
    assert!(names(AppType::FasterLoadingTimes, Platform::Other).is_empty());
    assert_eq!(
        names(AppType::MirrorColorSelect, Platform::Other),
        vec!["GGXrdMirrorColorSelect.zip"]
    );
    assert_eq!(
        names(AppType::BackgroundGamepad, Platform::Windows),
        vec!["GGXrdBackgroundGamepad.exe"]
    );
    assert_eq!(
        names(AppType::BackgroundGamepad, Platform::UnixLike),
        vec!["GGXrdBackgroundGamepad_linux"]
    );
    assert!(names(AppType::Unknown, Platform::Windows).is_empty());
}

#[test]
fn planner_keeps_release_order_and_marks_archives() {
    let remote = release(
        "1.2",
        vec![
            asset("GGXrdReversalTool.1.2.zip", "https://example.invalid/1"),
            asset("other.txt", "https://example.invalid/2"),
            asset("GGXrdReversalTool-1.2.zip", "https://example.invalid/3"),
        ],
    );
    let plan = plan_downloads(AppType::WakeupTool, Platform::UnixLike, &remote);
    assert_eq!(plan.len(), 2);
    assert_eq!(plan[0].file_name, "GGXrdReversalTool.1.2.zip");
    assert_eq!(plan[1].file_name, "GGXrdReversalTool-1.2.zip");
    assert!(plan[0].expand && plan[1].expand);
}

#[test]
fn non_archive_asset_is_not_expanded() {
    let remote = release(
        "3.0",
        vec![asset("GGXrdFasterLoadingTimes_linux", "https://example.invalid/x")],
    );
    let plan = plan_downloads(AppType::FasterLoadingTimes, Platform::UnixLike, &remote);
    assert_eq!(plan.len(), 1);
    assert!(!plan[0].expand);
}

#[test]
fn collision_cases() {
    assert_eq!(collision_action(false, false), CollisionAction::Download);
    assert_eq!(collision_action(true, false), CollisionAction::DeleteThenDownload);
    assert_eq!(collision_action(true, true), CollisionAction::Abort);
}

#[test]
fn version_change_detection() {
    let mut same = release("6.26", vec![]);
    same.published_at = String::new();
    let mut app_same = hitbox_app("6.26");
    app_same.published_at = String::new();
    assert!(!version_changed(&app_same, &same));
    let app = hitbox_app("6.26");
    let newer = release("6.27", vec![]);
    assert!(version_changed(&app, &newer));
    let republished = release("6.26", vec![]);
    assert!(version_changed(&app, &republished));
}
