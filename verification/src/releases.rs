//! Remote releases: the normalized descriptor a version resolution returns,
//! with its list of downloadable assets.

use vstd::prelude::*;
use vstd::string::StrSliceExecFns;
use vstd::string::StringExecFns;

verus! {

/// Mathematical image of a [`TagAssets`].
pub ghost struct TagAssetsModel {
    pub id: i32,
    pub name: Seq<char>,
    pub content_type: Seq<char>,
    pub state: Seq<char>,
    pub size: i32,
    pub browser_download_url: Seq<char>,
}

/// One downloadable file attached to a release.
#[derive(Debug)]
pub struct TagAssets {
    pub id: i32,
    pub name: String,
    pub content_type: String,
    pub state: String,
    pub size: i32,
    pub browser_download_url: String,
}

impl View for TagAssets {
    type V = TagAssetsModel;

    open spec fn view(&self) -> TagAssetsModel {
        TagAssetsModel {
            id: self.id,
            name: self.name@,
            content_type: self.content_type@,
            state: self.state@,
            size: self.size,
            browser_download_url: self.browser_download_url@,
        }
    }
}

/// Mathematical image of a [`TagInfo`].
pub ghost struct TagInfoModel {
    pub html_url: Seq<char>,
    pub id: i32,
    pub tag_name: Seq<char>,
    pub tarball_url: Seq<char>,
    pub body: Seq<char>,
    pub published_at: Seq<char>,
    pub assets: Seq<TagAssetsModel>,
}

/// The most recently published release of an add-on's repository: permalink,
/// numeric identifier, version tag, change notes, publish timestamp and the
/// ordered list of its assets.
#[derive(Debug)]
pub struct TagInfo {
    pub html_url: String,
    pub id: i32,
    pub tag_name: String,
    pub tarball_url: String,
    pub body: String,
    pub published_at: String,
    pub assets: Vec<TagAssets>,
}

impl View for TagInfo {
    type V = TagInfoModel;

    open spec fn view(&self) -> TagInfoModel {
        TagInfoModel {
            html_url: self.html_url@,
            id: self.id,
            tag_name: self.tag_name@,
            tarball_url: self.tarball_url@,
            body: self.body@,
            published_at: self.published_at@,
            assets: self.assets@.map_values(|a: TagAssets| a@),
        }
    }
}

/// `s` with every two-character sequence backslash-`r` removed, scanning left
/// to right without overlap.
pub open spec fn spec_remove_esc_cr(s: Seq<char>) -> Seq<char>
    decreases s.len(),
{
    if s.len() == 0 {
        Seq::empty()
    } else if s.len() >= 2 && s[0] == '\\' && s[1] == 'r' {
        spec_remove_esc_cr(s.subrange(2, s.len() as int))
    } else {
        seq![s[0]] + spec_remove_esc_cr(s.subrange(1, s.len() as int))
    }
}

impl TagInfo {
    /// The change notes with every literal backslash-`r` escape removed.
    pub fn get_formated_body(&self) -> (r: String)
        ensures
            r@ == spec_remove_esc_cr(self@.body),
    {
        let s = self.body.as_str();
        let n = s.unicode_len();
        let mut r = String::new();
        let mut i: usize = 0;
        proof {
            assert(s@.subrange(0, n as int) =~= s@);
            assert(r@ + spec_remove_esc_cr(s@) =~= spec_remove_esc_cr(s@));
        }
        while i < n
            invariant
                0 <= i <= n,
                n == s@.len(),
                spec_remove_esc_cr(s@) == r@ + spec_remove_esc_cr(s@.subrange(i as int, n as int)),
            decreases n - i,
        {
            let ghost rest = s@.subrange(i as int, n as int);
            if i + 1 < n && s.get_char(i) == '\\' && s.get_char(i + 1) == 'r' {
                proof {
                    assert(rest.len() >= 2 && rest[0] == '\\' && rest[1] == 'r');
                    assert(rest.subrange(2, rest.len() as int) =~= s@.subrange(
                        i + 2 as int,
                        n as int,
                    ));
                }
                i += 2;
            } else {
                let piece = s.substring_char(i, i + 1);
                let ghost r_old = r@;
                r.append(piece);
                proof {
                    assert(!(rest.len() >= 2 && rest[0] == '\\' && rest[1] == 'r'));
                    assert(rest.subrange(1, rest.len() as int) =~= s@.subrange(
                        i + 1 as int,
                        n as int,
                    ));
                    assert(seq![rest[0]] =~= piece@);
                    assert(r@ + spec_remove_esc_cr(s@.subrange(i + 1 as int, n as int)) =~= r_old
                        + spec_remove_esc_cr(rest));
                }
                i += 1;
            }
        }
        proof {
            assert(s@.subrange(n as int, n as int) =~= Seq::<char>::empty());
            assert(r@ + spec_remove_esc_cr(Seq::<char>::empty()) =~= r@);
        }
        r
    }
}

} // verus!
