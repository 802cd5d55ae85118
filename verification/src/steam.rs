//! Discovery of the game's installation folder from the platform's library
//! configuration text: the caller reads the file, this module parses it.

use vstd::prelude::*;
use vstd::string::StrSliceExecFns;
use vstd::string::StringExecFns;

use crate::apps::Platform;
use crate::text::{
    remove_char, spec_contains, spec_lines, spec_starts_with, spec_trim, split_lines,
    str_contains, str_starts_with, trim_spaces,
};

verus! {

/// `s` with every tab turned into a space.
pub open spec fn spec_untab(s: Seq<char>) -> Seq<char> {
    s.map_values(|c: char| if c == '\t' { ' ' } else { c })
}

/// Replaces every tab of `s` with a space.
pub fn untab(s: &str) -> (r: String)
    ensures
        r@ == spec_untab(s@),
{
    let n = s.unicode_len();
    let mut r = String::new();
    let mut i: usize = 0;
    while i < n
        invariant
            0 <= i <= n,
            n == s@.len(),
            r@ == s@.subrange(0, i as int).map_values(|c: char| if c == '\t' { ' ' } else { c }),
        decreases n - i,
    {
        let ghost pre = s@.subrange(0, i as int);
        let ghost cur = s@.subrange(0, i + 1);
        if s.get_char(i) == '\t' {
            r.append(" ");
            proof {
                reveal_strlit(" ");
            }
        } else {
            let piece = s.substring_char(i, i + 1);
            r.append(piece);
        }
        proof {
            assert(r@ =~= cur.map_values(|c: char| if c == '\t' { ' ' } else { c }));
        }
        i += 1;
    }
    proof {
        assert(s@.subrange(0, n as int) =~= s@);
    }
    r
}

/// The quoted identifier whose occurrence marks the game's library entry.
pub open spec fn spec_game_id_marker() -> Seq<char> {
    "\"520440\""@
}

/// The quoted key that opens a library path line.
pub open spec fn spec_path_key() -> Seq<char> {
    "\"path\""@
}

/// A line that names a library path: after trimming it starts with the
/// quoted `path` key.
pub open spec fn spec_is_path_line(line: Seq<char>) -> bool {
    spec_starts_with(spec_trim(line), spec_path_key())
}

/// The storage path a path line names: what follows the key, trimmed, with
/// every quote removed.
pub open spec fn spec_path_of_line(line: Seq<char>) -> Seq<char> {
    let t = spec_trim(line);
    spec_trim(t.subrange(spec_path_key().len() as int, t.len() as int)).filter(
        |x: char| x != '"',
    )
}

/// The last storage path named before line `k`, if any line before `k`
/// names one.
pub open spec fn spec_last_path(lines: Seq<Seq<char>>) -> Option<Seq<char>>
    decreases lines.len(),
{
    if lines.len() == 0 {
        None
    } else if spec_is_path_line(lines.last()) {
        Some(spec_path_of_line(lines.last()))
    } else {
        spec_last_path(lines.drop_last())
    }
}

/// Index of the first line in which `pat` occurs, or `lines.len()` if none.
pub open spec fn spec_first_line_with(lines: Seq<Seq<char>>, pat: Seq<char>) -> nat
    decreases lines.len(),
{
    if lines.len() == 0 {
        0
    } else if spec_contains(lines.first(), pat) {
        0
    } else {
        1 + spec_first_line_with(lines.drop_first(), pat)
    }
}

proof fn lemma_first_line_with_value(lines: Seq<Seq<char>>, pat: Seq<char>, i: int)
    requires
        0 <= i <= lines.len(),
        forall|k: int| 0 <= k < i ==> !spec_contains(#[trigger] lines[k], pat),
        i < lines.len() ==> spec_contains(lines[i], pat),
    ensures
        spec_first_line_with(lines, pat) == i,
    decreases i,
{
    if lines.len() == 0 {
    } else if i == 0 {
    } else {
        assert(lines.first() == lines[0]);
        lemma_first_line_with_value(lines.drop_first(), pat, i - 1);
    }
}

/// The per-platform tail appended under the found library path.
pub open spec fn spec_game_folder_suffix(platform: Platform) -> Seq<char> {
    if platform == Platform::Windows {
        "\\steamapps\\common\\GUILTY GEAR Xrd -REVELATOR-"@
    } else {
        "/steamapps/common/GUILTY GEAR Xrd -REVELATOR-"@
    }
}

/// What the library configuration text names as the game's installation
/// folder: tabs become spaces, the text splits into lines, the first line
/// holding the game identifier is found (`None` if there is none), and the
/// last library path named before it — empty if none was — gets the
/// platform's `steamapps` suffix.
pub open spec fn spec_xrd_folder(contents: Seq<char>, platform: Platform) -> Option<Seq<char>> {
    let lines = spec_lines(spec_untab(contents));
    let k = spec_first_line_with(lines, spec_game_id_marker());
    if k >= lines.len() {
        None
    } else {
        let base = match spec_last_path(lines.subrange(0, k as int)) {
            Some(p) => p,
            None => Seq::empty(),
        };
        Some(base + spec_game_folder_suffix(platform))
    }
}

/// Extracts the storage path a path line names.
fn path_of_line(line: &str) -> (r: String)
    requires
        spec_is_path_line(line@),
    ensures
        r@ == spec_path_of_line(line@),
{
    let t = trim_spaces(line);
    let key_len: usize = 6;
    proof {
        reveal_strlit("\"path\"");
        assert(spec_path_key().len() == 6);
    }
    let rest = t.substring_char(key_len, t.unicode_len());
    let trimmed = trim_spaces(rest);
    remove_char(trimmed, '"')
}

/// Parses the library configuration text and returns the game's installation
/// folder, as [`spec_xrd_folder`] states: `None` when no line names the
/// game's identifier.
pub fn get_xrd_folder_from_file(contents: &str, platform: Platform) -> (r: Option<String>)
    ensures
        r is Some <==> spec_xrd_folder(contents@, platform) is Some,
        r matches Some(s) ==> spec_xrd_folder(contents@, platform) == Some(s@),
{
    let replaced = untab(contents);
    let lines = split_lines(replaced.as_str());
    let ghost lines_model = lines@.map_values(|x: String| x@);
    let ghost marker = spec_game_id_marker();
    proof {
        assert(lines_model =~= spec_lines(spec_untab(contents@)));
    }
    let mut last_path: Option<String> = None;
    let n = lines.len();
    let mut i: usize = 0;
    proof {
        assert(lines_model.subrange(0, 0) =~= Seq::<Seq<char>>::empty());
    }
    while i < n
        invariant
            0 <= i <= n,
            n == lines@.len(),
            lines_model == lines@.map_values(|x: String| x@),
            lines_model == spec_lines(spec_untab(contents@)),
            marker == spec_game_id_marker(),
            forall|k: int| 0 <= k < i ==> !spec_contains(#[trigger] lines_model[k], marker),
            match last_path {
                Some(p) => spec_last_path(lines_model.subrange(0, i as int)) == Some(p@),
                None => spec_last_path(lines_model.subrange(0, i as int)) is None,
            },
        decreases n - i,
    {
        let ghost prefix = lines_model.subrange(0, i as int);
        let ghost cur = lines_model.subrange(0, i + 1);
        proof {
            assert(cur.drop_last() =~= prefix);
            assert(cur.last() == lines_model[i as int]);
        }
        let line = &lines[i];
        if str_contains(line.as_str(), "\"520440\"") {
            proof {
                lemma_first_line_with_value(lines_model, marker, i as int);
            }
            let mut base = match last_path {
                Some(p) => p,
                None => String::new(),
            };
            if matches!(platform, Platform::Windows) {
                base.append("\\steamapps\\common\\GUILTY GEAR Xrd -REVELATOR-");
            } else {
                base.append("/steamapps/common/GUILTY GEAR Xrd -REVELATOR-");
            }
            return Some(base);
        }
        let t = trim_spaces(line.as_str());
        if str_starts_with(t, "\"path\"") {
            let p = path_of_line(line.as_str());
            last_path = Some(p);
        } else {
            proof {
                assert(!spec_is_path_line(lines_model[i as int]));
            }
        }
        i += 1;
    }
    proof {
        lemma_first_line_with_value(lines_model, marker, n as int);
    }
    None
}

/// The path of the platform's library configuration file under its base
/// directory: the installation root of the store client on Windows, the
/// user's home directory elsewhere.
pub fn steam_library_config_path(platform: Platform, base: &str) -> (r: String)
    ensures
        platform == Platform::Windows ==> r@ == base@ + "\\config\\libraryfolders.vdf"@,
        platform != Platform::Windows ==> r@ == base@ + "/.steam/root/config/libraryfolders.vdf"@,
{
    let mut r = base.to_owned();
    if matches!(platform, Platform::Windows) {
        r.append("\\config\\libraryfolders.vdf");
    } else {
        r.append("/.steam/root/config/libraryfolders.vdf");
    }
    r
}

} // verus!
