//! Text primitives, release note formatting and the pure interface state.

use xrd_mod_manager::apps::{AppStruct, AppType, set_false};
use xrd_mod_manager::releases::{TagAssets, TagInfo};
use xrd_mod_manager::text::{
    path_join, remove_char, sorted_strings, split_lines, str_contains, str_ends_with, str_eq,
    str_le, str_starts_with, trim_spaces, vec_contains_string,
};
use xrd_mod_manager::ui::{
    AppUpdatingStatus, AppUpdatingStatusStatus, ModUpdatingStatus, SelectedTab, Status, TodoItem,
};

#[test]
fn substring_search() {
    assert!(str_contains("abcdef", "cde"));
    assert!(str_contains("abcdef", ""));
    assert!(!str_contains("abcdef", "cdf"));
    assert!(!str_contains("ab", "abc"));
    assert!(str_contains("aaab", "aab"));
}

#[test]
fn prefixes_and_suffixes() {
    assert!(str_starts_with("\"path\"  \"/x\"", "\"path\""));
    assert!(!str_starts_with("x\"path\"", "\"path\""));
    assert!(str_ends_with("overlay.zip", ".zip"));
    assert!(!str_ends_with("overlay.zi", ".zip"));
    assert!(!str_ends_with("zip", ".zip"));
}

#[test]
fn trimming_and_quote_removal() {
    assert_eq!(trim_spaces("   a b  "), "a b");
    assert_eq!(trim_spaces(""), "");
    assert_eq!(trim_spaces("    "), "");
    assert_eq!(remove_char("\"/mnt/games\"", '"'), "/mnt/games");
}

#[test]
fn line_splitting() {
    assert_eq!(split_lines("a\nb\nc"), vec!["a", "b", "c"]);
    assert_eq!(split_lines("a\r\nb\r\n"), vec!["a", "b"]);
    assert_eq!(split_lines(""), Vec::<String>::new());
    assert_eq!(split_lines("\n\n"), vec!["", ""]);
}

#[test]
fn string_equality_and_membership() {
    assert!(str_eq("abc", "abc"));
    assert!(!str_eq("abc", "abd"));
    let v = vec!["one".to_string(), "two".to_string()];
    assert!(vec_contains_string(&v, "two"));
    assert!(!vec_contains_string(&v, "three"));
}

#[test]
fn lexicographic_order_and_sorting() {
    assert!(str_le("abc", "abd"));
    assert!(str_le("ab", "abc"));
    assert!(!str_le("b", "abc"));
    assert!(str_le("same", "same"));
    let sorted = sorted_strings(vec![
        "kkots/rev2-wakeup-tool".to_string(),
        "Iquis/rev2-wakeup-tool".to_string(),
        "kkots/GGXrdBackgroundGamepad".to_string(),
    ]);
    assert_eq!(
        sorted,
        vec![
            "Iquis/rev2-wakeup-tool",
            "kkots/GGXrdBackgroundGamepad",
            "kkots/rev2-wakeup-tool",
        ]
    );
}

#[test]
fn paths_join_with_a_slash() {
    assert_eq!(path_join("/mods", "a.zip"), "/mods/a.zip");
}

#[test]
fn formatted_release_notes_drop_escaped_returns() {
    let tag = TagInfo {
        html_url: String::new(),
        id: 0,
        tag_name: String::new(),
        tarball_url: String::new(),
        body: "line one\\rline two\\r".to_string(),
        published_at: String::new(),
        assets: Vec::<TagAssets>::new(),
    };
    assert_eq!(tag.get_formated_body(), "line oneline two");
}

#[test]
fn tab_cycling_saturates_at_both_ends() {
    assert!(matches!(SelectedTab::Tab1.previous(), SelectedTab::Tab1));
    assert!(matches!(SelectedTab::Tab1.next(), SelectedTab::Tab2));
    assert!(matches!(SelectedTab::Tab2.next(), SelectedTab::Tab3));
    assert!(matches!(SelectedTab::Tab4.next(), SelectedTab::Tab4));
    assert!(matches!(SelectedTab::Tab4.previous(), SelectedTab::Tab3));
    assert!(matches!(SelectedTab::Tab3.previous().previous(), SelectedTab::Tab1));
}

#[test]
fn status_lines_show_name_and_state() {
    let s = AppUpdatingStatus {
        app_name: "kkots/x".to_string(),
        status: AppUpdatingStatusStatus::Pending,
    };
    assert_eq!(s.get_status_string(), "kkots/x (Pending)");
    let m = ModUpdatingStatus {
        app: AppStruct::new("kkots".to_string(), "x".to_string(), AppType::Unknown),
        status: AppUpdatingStatusStatus::Failed,
    };
    assert_eq!(m.get_status_string(), "kkots/x (Failed)");
}

#[test]
fn todo_items_keep_their_fields() {
    let item = TodoItem::new(Status::Completed, "title", "details");
    assert!(matches!(item.status, Status::Completed));
    assert_eq!(item.todo, "title");
    assert_eq!(item.info, "details");
    assert!(!set_false());
}
