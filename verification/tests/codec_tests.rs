//! Encoding the registry and reading the document back.

use xrd_mod_manager::apps::{AppStruct, AppType};
use xrd_mod_manager::codec::{decode_config, encode_config};
use xrd_mod_manager::config::Config;

fn sample_config() -> Config {
    let mut cfg = Config::new();
    cfg.set_default_apps();
    cfg.xrd_game_folder = "/games/GUILTY GEAR Xrd -REVELATOR-".to_string();
    cfg.apps[0].tag_name = "6.27".to_string();
    cfg.apps[0].published_at = "2024-01-02T03:04:05Z".to_string();
    cfg.apps[0].url_source_version = "https://example.invalid/rel".to_string();
    cfg.apps[0].id = -12345;
    cfg.apps[0].automatically_patch = true;
    cfg.apps[0].enabled = true;
    cfg.apps[2].patched = true;
    cfg
}

fn assert_same_config(a: &Config, b: &Config) {
    assert_eq!(a.xrd_game_folder, b.xrd_game_folder);
    assert_eq!(a.apps.len(), b.apps.len());
    for (x, y) in a.apps.iter().zip(b.apps.iter()) {
        assert_eq!(x.repo_owner, y.repo_owner);
        assert_eq!(x.repo_name, y.repo_name);
        assert_eq!(format!("{:?}", x.app_type), format!("{:?}", y.app_type));
        assert_eq!(x.id, y.id);
        assert_eq!(x.tag_name, y.tag_name);
        assert_eq!(x.published_at, y.published_at);
        assert_eq!(x.url_source_version, y.url_source_version);
        assert_eq!(x.automatically_patch, y.automatically_patch);
        assert_eq!(x.patched, y.patched);
        assert_eq!(x.enabled, y.enabled);
        assert_eq!(x.track_updates, y.track_updates);
        assert_eq!(x.tracked_flag, y.tracked_flag);
    }
}

#[test]
fn saving_then_loading_returns_the_same_registry() {
    let cfg = sample_config();
    let doc = encode_config(&cfg);
    let reloaded = decode_config(doc.as_str()).expect("the saved document must load");
    assert_same_config(&cfg, &reloaded);
}

#[test]
fn empty_registry_round_trips() {
    let cfg = Config::new();
    let doc = encode_config(&cfg);
    assert_eq!(doc, "{\"apps\":{},\"xrd_game_folder\":\"\"}");
    let reloaded = decode_config(doc.as_str()).expect("the empty document must load");
    assert!(reloaded.apps.is_empty());
    assert_eq!(reloaded.xrd_game_folder, "");
}

#[test]
fn quotes_and_backslashes_survive_the_round_trip() {
    let mut cfg = Config::new();
    let mut app = AppStruct::new(
        "ow\"ner".to_string(),
        "na\\me".to_string(),
        AppType::Unknown,
    );
    app.tag_name = "v\"1\\2".to_string();
    cfg.apps.push(app);
    cfg.xrd_game_folder = "C:\\Games\\Xrd".to_string();
    let doc = encode_config(&cfg);
    let reloaded = decode_config(doc.as_str()).expect("the escaped document must load");
    assert_same_config(&cfg, &reloaded);
}

#[test]
fn one_app_document_has_the_expected_shape() {
    let mut cfg = Config::new();
    cfg.apps.push(AppStruct::new("a".to_string(), "b".to_string(), AppType::HitboxOverlay));
    cfg.xrd_game_folder = "/g".to_string();
    let doc = encode_config(&cfg);
    assert_eq!(
        doc,
        "{\"apps\":{\"a/b\":{\"repo_owner\":\"a\",\"repo_name\":\"b\",\
         \"app_type\":\"HitboxOverlay\",\"id\":0,\"tag_name\":\"\",\"published_at\":\"\",\
         \"url_source_version\":\"\",\"automatically_patch\":false,\"patched\":false,\
         \"enabled\":false,\"track_updates\":false,\"tracked\":false}},\
         \"xrd_game_folder\":\"/g\"}"
    );
}

#[test]
fn trailing_text_is_rejected() {
    let cfg = Config::new();
    let mut doc = encode_config(&cfg);
    doc.push_str(" ");
    assert!(decode_config(doc.as_str()).is_none());
}

#[test]
fn broken_documents_are_rejected() {
    assert!(decode_config("").is_none());
    assert!(decode_config("{\"apps\":{").is_none());
    assert!(decode_config("{\"apps\":{},\"xrd_game_folder\":\"x\"").is_none());
    assert!(decode_config("{\"apps\":{\"k\":5},\"xrd_game_folder\":\"\"}").is_none());
}

#[test]
fn negative_and_extreme_ids_round_trip() {
    for id in [0, 1, -1, 7, i32::MAX, i32::MIN] {
        let mut cfg = Config::new();
        let mut app = AppStruct::new("o".to_string(), "n".to_string(), AppType::WakeupTool);
        app.id = id;
        cfg.apps.push(app);
        let doc = encode_config(&cfg);
        let reloaded = decode_config(doc.as_str()).expect("document must load");
        assert_eq!(reloaded.apps[0].id, id);
    }
}

#[test]
fn out_of_range_ids_are_rejected() {
    let doc = "{\"apps\":{\"o/n\":{\"repo_owner\":\"o\",\"repo_name\":\"n\",\
        \"app_type\":\"Unknown\",\"id\":2147483648,\"tag_name\":\"\",\"published_at\":\"\",\
        \"url_source_version\":\"\",\"automatically_patch\":false,\"patched\":false,\
        \"enabled\":false,\"track_updates\":false,\"tracked\":false}},\
        \"xrd_game_folder\":\"\"}";
    assert!(decode_config(doc).is_none());
}
