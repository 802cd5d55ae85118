//! The resolver's request assembly and response classification.

use xrd_mod_manager::apps::{AppStruct, AppType};
use xrd_mod_manager::releases::TagInfo;
use xrd_mod_manager::resolver::{resolve_from_response, ResolveError, HTTP_OK};

fn app() -> AppStruct {
    AppStruct::new(
        "kkots".to_string(),
        "ggxrd_hitbox_overlay_2211".to_string(),
        AppType::HitboxOverlay,
    )
}

fn release() -> TagInfo {
    TagInfo {
        html_url: "https://example.invalid/rel".to_string(),
        id: 3,
        tag_name: "6.27".to_string(),
        tarball_url: String::new(),
        body: String::new(),
        published_at: "t".to_string(),
        assets: vec![],
    }
}

#[test]
fn request_targets_the_latest_release_endpoint() {
    let req = app().latest_release_request();
    assert_eq!(
        req.url,
        "https://api.github.com/repos/kkots/ggxrd_hitbox_overlay_2211/releases/latest"
    );
    assert_eq!(req.accept, "application/vnd.github+json");
    assert_eq!(req.api_version, "2022-11-28");
    assert_eq!(req.user_agent, "Script-Check-Xrd-Tools");
}

#[test]
fn ok_with_a_body_yields_the_release() {
    let r = resolve_from_response(&app(), HTTP_OK, Some(release()));
    let tag = r.expect("a decoded 200 answer resolves");
    assert_eq!(tag.tag_name, "6.27");
    assert_eq!(tag.id, 3);
}

#[test]
fn unexpected_status_carries_status_and_identity() {
    let r = resolve_from_response(&app(), 404, Some(release()));
    match r {
        Err(ResolveError::Http { app_name, status }) => {
            assert_eq!(app_name, "kkots/ggxrd_hitbox_overlay_2211");
            assert_eq!(status, 404);
        }
        other => panic!("expected an HTTP error, got {other:?}"),
    }
}

#[test]
fn undecodable_ok_answer_is_a_transport_failure() {
    let r = resolve_from_response(&app(), HTTP_OK, None);
    match r {
        Err(e @ ResolveError::Transport { .. }) => {
            assert_eq!(e.app_name(), "kkots/ggxrd_hitbox_overlay_2211");
        }
        other => panic!("expected a transport failure, got {other:?}"),
    }
}

#[test]
fn repo_urls() {
    let a = app();
    assert_eq!(a.get_app_name(), "kkots/ggxrd_hitbox_overlay_2211");
    assert_eq!(
        a.get_repo_url(),
        "https://github.com/kkots/ggxrd_hitbox_overlay_2211"
    );
    assert_eq!(
        a.get_api_repo_url(),
        "https://api.github.com/repos/kkots/ggxrd_hitbox_overlay_2211"
    );
}
