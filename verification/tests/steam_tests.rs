//! Discovery of the game folder from the library configuration text.

use xrd_mod_manager::apps::Platform;
use xrd_mod_manager::steam::{get_xrd_folder_from_file, steam_library_config_path};

const SAMPLE: &str = "\"libraryfolders\"\n{\n\t\"0\"\n\t{\n\t\t\"path\"\t\t\"/home/user/.local/share/Steam\"\n\t\t\"apps\"\n\t\t{\n\t\t\t\"228980\"\t\t\"342\"\n\t\t}\n\t}\n\t\"1\"\n\t{\n\t\t\"path\"\t\t\"/mnt/games/SteamLibrary\"\n\t\t\"apps\"\n\t\t{\n\t\t\t\"520440\"\t\t\"5795607477\"\n\t\t}\n\t}\n}\n";

#[test]
fn finds_the_library_that_holds_the_game() {
    let folder = get_xrd_folder_from_file(SAMPLE, Platform::UnixLike)
        .expect("the game is listed in the sample");
    assert_eq!(
        folder,
        "/mnt/games/SteamLibrary/steamapps/common/GUILTY GEAR Xrd -REVELATOR-"
    );
}

#[test]
fn windows_suffix_uses_backslashes() {
    let folder = get_xrd_folder_from_file(SAMPLE, Platform::Windows)
        .expect("the game is listed in the sample");
    assert_eq!(
        folder,
        "/mnt/games/SteamLibrary\\steamapps\\common\\GUILTY GEAR Xrd -REVELATOR-"
    );
}

#[test]
fn missing_game_yields_none() {
    let text = "\"libraryfolders\"\n{\n\t\"0\"\n\t{\n\t\t\"path\"\t\t\"/srv/steam\"\n\t}\n}\n";
    assert!(get_xrd_folder_from_file(text, Platform::UnixLike).is_none());
}

#[test]
fn takes_the_last_path_before_the_game_entry() {
    let text = "\"path\" \"/first\"\n\"path\" \"/second\"\n\"520440\"\n\"path\" \"/after\"\n";
    let folder = get_xrd_folder_from_file(text, Platform::UnixLike).unwrap();
    assert_eq!(folder, "/second/steamapps/common/GUILTY GEAR Xrd -REVELATOR-");
}

#[test]
fn game_line_without_any_path_uses_an_empty_base() {
    let text = "\"520440\"\n";
    let folder = get_xrd_folder_from_file(text, Platform::UnixLike).unwrap();
    assert_eq!(folder, "/steamapps/common/GUILTY GEAR Xrd -REVELATOR-");
}

#[test]
fn carriage_returns_are_tolerated() {
    let text = "\"path\" \"/lib\"\r\n\"520440\"\r\n";
    let folder = get_xrd_folder_from_file(text, Platform::UnixLike).unwrap();
    assert_eq!(folder, "/lib/steamapps/common/GUILTY GEAR Xrd -REVELATOR-");
}

#[test]
fn library_config_paths_per_platform() {
    assert_eq!(
        steam_library_config_path(Platform::Windows, "C:\\Program Files (x86)\\Steam"),
        "C:\\Program Files (x86)\\Steam\\config\\libraryfolders.vdf"
    );
    assert_eq!(
        steam_library_config_path(Platform::UnixLike, "/home/user"),
        "/home/user/.steam/root/config/libraryfolders.vdf"
    );
}
