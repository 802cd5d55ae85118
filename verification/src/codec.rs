//! The registry document codec: the canonical form in which the registry is
//! persisted, an encoder that produces it, a parser that reads it back, and
//! the proof that saving and immediately loading returns the same registry.
//!
//! The document is one object holding the add-on map under `apps` — each
//! descriptor keyed by its `owner/name` string — and the cached game folder.
//! Inside strings the encoder escapes the quote and the backslash with a
//! backslash and leaves every other character as it is.

use vstd::prelude::*;
use vstd::string::StrSliceExecFns;
use vstd::string::StringExecFns;

use crate::apps::{AppModel, AppStruct, AppType};
use crate::config::{Config, ConfigModel};

verus! {

// ------------------------------------------------------------------
// The canonical encoding.
// ------------------------------------------------------------------
/// How one character stands inside an encoded string.
pub open spec fn esc_char(c: char) -> Seq<char> {
    if c == '"' || c == '\\' {
        seq!['\\', c]
    } else {
        seq![c]
    }
}

/// The body of an encoded string: every character escaped as needed.
pub open spec fn esc(s: Seq<char>) -> Seq<char>
    decreases s.len(),
{
    if s.len() == 0 {
        Seq::empty()
    } else {
        esc_char(s[0]) + esc(s.drop_first())
    }
}

/// An encoded string: the escaped body between quotes.
pub open spec fn enc_str(s: Seq<char>) -> Seq<char> {
    seq!['"'] + esc(s) + seq!['"']
}

/// The digit character of a value below ten.
pub open spec fn digit_char(d: nat) -> char {
    if d == 0 {
        '0'
    } else if d == 1 {
        '1'
    } else if d == 2 {
        '2'
    } else if d == 3 {
        '3'
    } else if d == 4 {
        '4'
    } else if d == 5 {
        '5'
    } else if d == 6 {
        '6'
    } else if d == 7 {
        '7'
    } else if d == 8 {
        '8'
    } else {
        '9'
    }
}

/// The decimal digits of `n`, most significant first.
pub open spec fn dec_digits(n: nat) -> Seq<char>
    decreases n,
{
    if n < 10 {
        seq![digit_char(n)]
    } else {
        dec_digits(n / 10) + seq![digit_char(n % 10)]
    }
}

/// An encoded integer: an optional minus sign and the decimal digits.
pub open spec fn enc_i32(v: int) -> Seq<char> {
    if v < 0 {
        seq!['-'] + dec_digits((-v) as nat)
    } else {
        dec_digits(v as nat)
    }
}

/// An encoded boolean.
pub open spec fn enc_bool(b: bool) -> Seq<char> {
    if b {
        "true"@
    } else {
        "false"@
    }
}

/// The name under which an add-on kind is persisted.
pub open spec fn kind_name(k: AppType) -> Seq<char> {
    match k {
        AppType::Unknown => "Unknown"@,
        AppType::HitboxOverlay => "HitboxOverlay"@,
        AppType::WakeupTool => "WakeupTool"@,
        AppType::FasterLoadingTimes => "FasterLoadingTimes"@,
        AppType::MirrorColorSelect => "MirrorColorSelect"@,
        AppType::BackgroundGamepad => "BackgroundGamepad"@,
    }
}

/// One encoded descriptor object, fields in declaration order.
pub open spec fn enc_app(a: AppModel) -> Seq<char> {
    "{\"repo_owner\":"@ + enc_str(a.repo_owner) + ",\"repo_name\":"@ + enc_str(a.repo_name)
        + ",\"app_type\":"@ + enc_str(kind_name(a.app_type)) + ",\"id\":"@ + enc_i32(a.id as int)
        + ",\"tag_name\":"@ + enc_str(a.tag_name) + ",\"published_at\":"@ + enc_str(a.published_at)
        + ",\"url_source_version\":"@ + enc_str(a.url_source_version)
        + ",\"automatically_patch\":"@ + enc_bool(a.automatically_patch) + ",\"patched\":"@
        + enc_bool(a.patched) + ",\"enabled\":"@ + enc_bool(a.enabled) + ",\"track_updates\":"@
        + enc_bool(a.track_updates) + ",\"tracked\":"@ + enc_bool(a.tracked_flag) + "}"@
}

/// One encoded map entry: the descriptor under its `owner/name` key.
pub open spec fn enc_entry(a: AppModel) -> Seq<char> {
    enc_str(a.spec_app_name()) + seq![':'] + enc_app(a)
}

/// The encoded add-on map body: the entries separated by commas.
pub open spec fn enc_apps(apps: Seq<AppModel>) -> Seq<char>
    decreases apps.len(),
{
    if apps.len() == 0 {
        Seq::empty()
    } else if apps.len() == 1 {
        enc_entry(apps[0])
    } else {
        enc_entry(apps[0]) + seq![','] + enc_apps(apps.drop_first())
    }
}

/// The whole encoded registry document.
pub open spec fn enc_config(c: ConfigModel) -> Seq<char> {
    "{\"apps\":{"@ + enc_apps(c.apps) + "},\"xrd_game_folder\":"@ + enc_str(c.xrd_game_folder)
        + "}"@
}

// ------------------------------------------------------------------
// The encoder.
// ------------------------------------------------------------------
proof fn lemma_esc_snoc(s: Seq<char>, c: char)
    ensures
        esc(s.push(c)) == esc(s) + esc_char(c),
    decreases s.len(),
{
    if s.len() == 0 {
        let t = s.push(c);
        assert(t.len() == 1);
        assert(t[0] == c);
        assert(t.drop_first() =~= Seq::<char>::empty());
        assert(esc(t) == esc_char(c) + esc(Seq::<char>::empty()));
        assert(esc(t) =~= esc(s) + esc_char(c));
    } else {
        let t = s.push(c);
        assert(t[0] == s[0]);
        assert(t.drop_first() =~= s.drop_first().push(c));
        lemma_esc_snoc(s.drop_first(), c);
        assert(t.len() > 0);
        assert(esc(t) == esc_char(t[0]) + esc(t.drop_first()));
        assert(esc(t.drop_first()) == esc(s.drop_first()) + esc_char(c));
        assert(esc(t) =~= esc(s) + esc_char(c));
    }
}

/// Appends the escaped body of `s`.
fn append_escaped(out: &mut String, s: &str)
    ensures
        final(out)@ == old(out)@ + esc(s@),
{
    let n = s.unicode_len();
    let mut i: usize = 0;
    proof {
        assert(s@.subrange(0, 0) =~= Seq::<char>::empty());
        assert(old(out)@ + esc(s@.subrange(0, 0)) =~= old(out)@);
    }
    while i < n
        invariant
            0 <= i <= n,
            n == s@.len(),
            out@ == old(out)@ + esc(s@.subrange(0, i as int)),
        decreases n - i,
    {
        let c = s.get_char(i);
        if c == '"' || c == '\\' {
            out.append("\\");
            proof {
                reveal_strlit("\\");
            }
        }
        let piece = s.substring_char(i, i + 1);
        out.append(piece);
        proof {
            let pre = s@.subrange(0, i as int);
            let cur = s@.subrange(0, i + 1);
            assert(pre.push(s@[i as int]) =~= cur);
            lemma_esc_snoc(pre, s@[i as int]);
            assert(piece@ =~= seq![s@[i as int]]);
            assert(out@ =~= old(out)@ + esc(cur));
        }
        i += 1;
    }
    proof {
        assert(s@.subrange(0, n as int) =~= s@);
    }
}

/// Appends `s` in its encoded form: quoted and escaped.
fn append_enc_str(out: &mut String, s: &str)
    ensures
        final(out)@ == old(out)@ + enc_str(s@),
{
    out.append("\"");
    append_escaped(out, s);
    out.append("\"");
    proof {
        reveal_strlit("\"");
        assert(out@ =~= old(out)@ + enc_str(s@));
    }
}

/// The digit character of `d`, as a one-character string.
fn digit_str(d: u32) -> (r: &'static str)
    requires
        d < 10,
    ensures
        r@ == seq![digit_char(d as nat)],
{
    proof {
        reveal_strlit("0");
        reveal_strlit("1");
        reveal_strlit("2");
        reveal_strlit("3");
        reveal_strlit("4");
        reveal_strlit("5");
        reveal_strlit("6");
        reveal_strlit("7");
        reveal_strlit("8");
        reveal_strlit("9");
    }
    let r = if d == 0 {
        "0"
    } else if d == 1 {
        "1"
    } else if d == 2 {
        "2"
    } else if d == 3 {
        "3"
    } else if d == 4 {
        "4"
    } else if d == 5 {
        "5"
    } else if d == 6 {
        "6"
    } else if d == 7 {
        "7"
    } else if d == 8 {
        "8"
    } else {
        "9"
    };
    proof {
        assert(r@ =~= seq![digit_char(d as nat)]);
    }
    r
}

/// Appends the decimal digits of `n`, most significant first.
fn append_digits(out: &mut String, n: u32)
    ensures
        final(out)@ == old(out)@ + dec_digits(n as nat),
    decreases n,
{
    if n < 10 {
        out.append(digit_str(n));
    } else {
        append_digits(out, n / 10);
        out.append(digit_str(n % 10));
        proof {
            assert(out@ =~= old(out)@ + dec_digits(n as nat));
        }
    }
}

/// Appends the encoded form of `v`.
fn append_i32(out: &mut String, v: i32)
    ensures
        final(out)@ == old(out)@ + enc_i32(v as int),
{
    if v < 0 {
        out.append("-");
        let wide: i64 = v as i64;
        let magnitude: u32 = (-wide) as u32;
        append_digits(out, magnitude);
        proof {
            reveal_strlit("-");
            assert(magnitude as nat == (-(v as int)) as nat);
            assert(out@ =~= old(out)@ + enc_i32(v as int));
        }
    } else {
        append_digits(out, v as u32);
    }
}

/// Appends the encoded form of `b`.
fn append_bool(out: &mut String, b: bool)
    ensures
        final(out)@ == old(out)@ + enc_bool(b),
{
    if b {
        out.append("true");
    } else {
        out.append("false");
    }
}

/// Appends the persisted name of `k`.
fn append_kind(out: &mut String, k: AppType)
    ensures
        final(out)@ == old(out)@ + enc_str(kind_name(k)),
{
    match k {
        AppType::Unknown => append_enc_str(out, "Unknown"),
        AppType::HitboxOverlay => append_enc_str(out, "HitboxOverlay"),
        AppType::WakeupTool => append_enc_str(out, "WakeupTool"),
        AppType::FasterLoadingTimes => append_enc_str(out, "FasterLoadingTimes"),
        AppType::MirrorColorSelect => append_enc_str(out, "MirrorColorSelect"),
        AppType::BackgroundGamepad => append_enc_str(out, "BackgroundGamepad"),
    }
}

proof fn lemma_concat_assoc(a: Seq<char>, b: Seq<char>, c: Seq<char>)
    ensures
        (a + b) + c == a + (b + c),
{
    assert((a + b) + c =~= a + (b + c));
}

/// Appends one encoded descriptor object.
#[verifier::rlimit(100)]
fn append_app(out: &mut String, a: &AppStruct)
    ensures
        final(out)@ == old(out)@ + enc_app(a@),
{
    let ghost base = old(out)@;
    out.append("{\"repo_owner\":");
    append_enc_str(out, a.repo_owner.as_str());
    let ghost pre1 = "{\"repo_owner\":"@ + enc_str(a@.repo_owner);
    proof {
        lemma_concat_assoc(base, "{\"repo_owner\":"@, enc_str(a@.repo_owner));
        assert(out@ == base + pre1);
    }
    out.append(",\"repo_name\":");
    append_enc_str(out, a.repo_name.as_str());
    let ghost pre2 = pre1 + ",\"repo_name\":"@ + enc_str(a@.repo_name);
    proof {
        lemma_concat_assoc(base, pre1, ",\"repo_name\":"@);
        lemma_concat_assoc(base, pre1 + ",\"repo_name\":"@, enc_str(a@.repo_name));
        assert(out@ == base + pre2);
    }
    out.append(",\"app_type\":");
    append_kind(out, a.app_type);
    let ghost pre3 = pre2 + ",\"app_type\":"@ + enc_str(kind_name(a@.app_type));
    proof {
        lemma_concat_assoc(base, pre2, ",\"app_type\":"@);
        lemma_concat_assoc(base, pre2 + ",\"app_type\":"@, enc_str(kind_name(a@.app_type)));
        assert(out@ == base + pre3);
    }
    out.append(",\"id\":");
    append_i32(out, a.id);
    let ghost pre4 = pre3 + ",\"id\":"@ + enc_i32(a@.id as int);
    proof {
        lemma_concat_assoc(base, pre3, ",\"id\":"@);
        lemma_concat_assoc(base, pre3 + ",\"id\":"@, enc_i32(a@.id as int));
        assert(out@ == base + pre4);
    }
    out.append(",\"tag_name\":");
    append_enc_str(out, a.tag_name.as_str());
    let ghost pre5 = pre4 + ",\"tag_name\":"@ + enc_str(a@.tag_name);
    proof {
        lemma_concat_assoc(base, pre4, ",\"tag_name\":"@);
        lemma_concat_assoc(base, pre4 + ",\"tag_name\":"@, enc_str(a@.tag_name));
        assert(out@ == base + pre5);
    }
    out.append(",\"published_at\":");
    append_enc_str(out, a.published_at.as_str());
    let ghost pre6 = pre5 + ",\"published_at\":"@ + enc_str(a@.published_at);
    proof {
        lemma_concat_assoc(base, pre5, ",\"published_at\":"@);
        lemma_concat_assoc(base, pre5 + ",\"published_at\":"@, enc_str(a@.published_at));
        assert(out@ == base + pre6);
    }
    out.append(",\"url_source_version\":");
    append_enc_str(out, a.url_source_version.as_str());
    let ghost pre7 = pre6 + ",\"url_source_version\":"@ + enc_str(a@.url_source_version);
    proof {
        lemma_concat_assoc(base, pre6, ",\"url_source_version\":"@);
        lemma_concat_assoc(base, pre6 + ",\"url_source_version\":"@, enc_str(a@.url_source_version));
        assert(out@ == base + pre7);
    }
    out.append(",\"automatically_patch\":");
    append_bool(out, a.automatically_patch);
    let ghost pre8 = pre7 + ",\"automatically_patch\":"@ + enc_bool(a@.automatically_patch);
    proof {
        lemma_concat_assoc(base, pre7, ",\"automatically_patch\":"@);
        lemma_concat_assoc(base, pre7 + ",\"automatically_patch\":"@, enc_bool(a@.automatically_patch));
        assert(out@ == base + pre8);
    }
    out.append(",\"patched\":");
    append_bool(out, a.patched);
    let ghost pre9 = pre8 + ",\"patched\":"@ + enc_bool(a@.patched);
    proof {
        lemma_concat_assoc(base, pre8, ",\"patched\":"@);
        lemma_concat_assoc(base, pre8 + ",\"patched\":"@, enc_bool(a@.patched));
        assert(out@ == base + pre9);
    }
    out.append(",\"enabled\":");
    append_bool(out, a.enabled);
    let ghost pre10 = pre9 + ",\"enabled\":"@ + enc_bool(a@.enabled);
    proof {
        lemma_concat_assoc(base, pre9, ",\"enabled\":"@);
        lemma_concat_assoc(base, pre9 + ",\"enabled\":"@, enc_bool(a@.enabled));
        assert(out@ == base + pre10);
    }
    out.append(",\"track_updates\":");
    append_bool(out, a.track_updates);
    let ghost pre11 = pre10 + ",\"track_updates\":"@ + enc_bool(a@.track_updates);
    proof {
        lemma_concat_assoc(base, pre10, ",\"track_updates\":"@);
        lemma_concat_assoc(base, pre10 + ",\"track_updates\":"@, enc_bool(a@.track_updates));
        assert(out@ == base + pre11);
    }
    out.append(",\"tracked\":");
    append_bool(out, a.tracked_flag);
    let ghost pre12 = pre11 + ",\"tracked\":"@ + enc_bool(a@.tracked_flag);
    proof {
        lemma_concat_assoc(base, pre11, ",\"tracked\":"@);
        lemma_concat_assoc(base, pre11 + ",\"tracked\":"@, enc_bool(a@.tracked_flag));
        assert(out@ == base + pre12);
    }
    out.append("}");
    let ghost pre13 = pre12 + "}"@;
    proof {
        assert(out@ =~= base + pre13);
        assert(pre13 == enc_app(a@));
    }
}

/// Appends one encoded map entry.
fn append_entry(out: &mut String, a: &AppStruct)
    ensures
        final(out)@ == old(out)@ + enc_entry(a@),
{
    let key = a.get_app_name();
    append_enc_str(out, key.as_str());
    out.append(":");
    append_app(out, a);
    proof {
        reveal_strlit(":");
        assert(out@ =~= old(out)@ + enc_entry(a@));
    }
}

proof fn lemma_enc_apps_snoc(apps: Seq<AppModel>, a: AppModel)
    ensures
        apps.len() == 0 ==> enc_apps(apps.push(a)) == enc_entry(a),
        apps.len() > 0 ==> enc_apps(apps.push(a)) == enc_apps(apps) + seq![','] + enc_entry(a),
    decreases apps.len(),
{
    if apps.len() == 0 {
        assert(apps.push(a)[0] == a);
        assert(enc_apps(apps.push(a)) == enc_entry(a));
    } else {
        let s = apps.push(a);
        assert(s.len() >= 2);
        assert(s[0] == apps[0]);
        assert(s.drop_first() =~= apps.drop_first().push(a));
        lemma_enc_apps_snoc(apps.drop_first(), a);
        if apps.len() == 1 {
            assert(apps.drop_first().len() == 0);
            assert(enc_apps(s) == enc_entry(apps[0]) + seq![','] + enc_entry(a));
            assert(enc_apps(apps) == enc_entry(apps[0]));
            assert(enc_apps(s) =~= enc_apps(apps) + seq![','] + enc_entry(a));
        } else {
            assert(enc_apps(s) == enc_entry(apps[0]) + seq![','] + enc_apps(
                apps.drop_first().push(a),
            ));
            assert(enc_apps(apps.drop_first().push(a)) == enc_apps(apps.drop_first())
                + seq![','] + enc_entry(a));
            assert(enc_apps(apps) == enc_entry(apps[0]) + seq![','] + enc_apps(apps.drop_first()));
            assert(enc_apps(s) =~= enc_apps(apps) + seq![','] + enc_entry(a));
        }
    }
}

/// Encodes the whole registry into its canonical document.
pub fn encode_config(c: &Config) -> (r: String)
    ensures
        r@ == enc_config(c@),
{
    let mut out = String::new();
    out.append("{\"apps\":{");
    let n = c.apps.len();
    let mut i: usize = 0;
    let ghost apps_model = c@.apps;
    proof {
        assert(apps_model.subrange(0, 0) =~= Seq::<AppModel>::empty());
        assert(out@ =~= "{\"apps\":{"@ + enc_apps(apps_model.subrange(0, 0)));
    }
    while i < n
        invariant
            0 <= i <= n,
            n == c.apps@.len(),
            apps_model == c@.apps,
            out@ == "{\"apps\":{"@ + enc_apps(apps_model.subrange(0, i as int)),
        decreases n - i,
    {
        if i > 0 {
            out.append(",");
            proof {
                reveal_strlit(",");
            }
        }
        append_entry(&mut out, &c.apps[i]);
        proof {
            let prefix = apps_model.subrange(0, i as int);
            let cur = apps_model.subrange(0, i + 1);
            assert(prefix.push(apps_model[i as int]) =~= cur);
            lemma_enc_apps_snoc(prefix, apps_model[i as int]);
            assert(apps_model[i as int] == c.apps@[i as int]@);
            assert(out@ =~= "{\"apps\":{"@ + enc_apps(cur));
        }
        i += 1;
    }
    out.append("},\"xrd_game_folder\":");
    append_enc_str(&mut out, c.xrd_game_folder.as_str());
    out.append("}");
    proof {
        assert(apps_model.subrange(0, n as int) =~= apps_model);
        assert(out@ =~= enc_config(c@));
    }
    out
}

// ------------------------------------------------------------------
// The parser, at the specification level.
// ------------------------------------------------------------------
/// The document `s` holds exactly `x` starting at position `p`.
pub open spec fn has_at(s: Seq<char>, p: int, x: Seq<char>) -> bool {
    0 <= p && p + x.len() <= s.len() && s.subrange(p, p + x.len() as int) == x
}

/// Consumes the literal `lit` at `p`.
pub open spec fn sp_lit(s: Seq<char>, p: int, lit: Seq<char>) -> Option<int> {
    if has_at(s, p, lit) {
        Some(p + lit.len() as int)
    } else {
        None
    }
}

/// Consumes an escaped string body up to its closing quote.
pub open spec fn sp_str_body(s: Seq<char>, p: int) -> Option<(Seq<char>, int)>
    decreases s.len() - p,
{
    if p < 0 || p >= s.len() {
        None
    } else if s[p] == '"' {
        Some((Seq::empty(), p + 1))
    } else if s[p] == '\\' {
        if p + 1 < s.len() {
            match sp_str_body(s, p + 2) {
                Some(t) => Some((seq![s[p + 1]] + t.0, t.1)),
                None => None,
            }
        } else {
            None
        }
    } else {
        match sp_str_body(s, p + 1) {
            Some(t) => Some((seq![s[p]] + t.0, t.1)),
            None => None,
        }
    }
}

/// Consumes a quoted, escaped string.
pub open spec fn sp_string(s: Seq<char>, p: int) -> Option<(Seq<char>, int)> {
    if 0 <= p && p < s.len() && s[p] == '"' {
        sp_str_body(s, p + 1)
    } else {
        None
    }
}

/// A decimal digit character.
pub open spec fn is_digit(c: char) -> bool {
    '0' <= c && c <= '9'
}

/// The value of a digit character.
pub open spec fn digit_val(c: char) -> nat {
    (c as int - '0' as int) as nat
}

/// Consumes the maximal run of digits from `p`, folding them onto `acc`.
pub open spec fn sp_digits(s: Seq<char>, p: int, acc: nat) -> (nat, int)
    decreases s.len() - p,
{
    if 0 <= p && p < s.len() && is_digit(s[p]) {
        sp_digits(s, p + 1, acc * 10 + digit_val(s[p]))
    } else {
        (acc, p)
    }
}

/// Consumes an optionally signed decimal number.
pub open spec fn sp_number(s: Seq<char>, p: int) -> Option<(int, int)> {
    if 0 <= p && p < s.len() && s[p] == '-' {
        if p + 1 < s.len() && is_digit(s[p + 1]) {
            let t = sp_digits(s, p + 1, 0);
            Some((-(t.0 as int), t.1))
        } else {
            None
        }
    } else if 0 <= p && p < s.len() && is_digit(s[p]) {
        let t = sp_digits(s, p, 0);
        Some((t.0 as int, t.1))
    } else {
        None
    }
}

/// Consumes a number and requires it to fit a 32-bit signed integer.
pub open spec fn sp_i32(s: Seq<char>, p: int) -> Option<(int, int)> {
    match sp_number(s, p) {
        Some(t) => if -2147483648 <= t.0 && t.0 <= 2147483647 {
            Some(t)
        } else {
            None
        },
        None => None,
    }
}

/// Consumes a boolean literal.
pub open spec fn sp_bool(s: Seq<char>, p: int) -> Option<(bool, int)> {
    match sp_lit(s, p, "true"@) {
        Some(q) => Some((true, q)),
        None => match sp_lit(s, p, "false"@) {
            Some(q) => Some((false, q)),
            None => None,
        },
    }
}

/// The add-on kind a persisted name denotes.
pub open spec fn sp_kind(name: Seq<char>) -> Option<AppType> {
    if name == "Unknown"@ {
        Some(AppType::Unknown)
    } else if name == "HitboxOverlay"@ {
        Some(AppType::HitboxOverlay)
    } else if name == "WakeupTool"@ {
        Some(AppType::WakeupTool)
    } else if name == "FasterLoadingTimes"@ {
        Some(AppType::FasterLoadingTimes)
    } else if name == "MirrorColorSelect"@ {
        Some(AppType::MirrorColorSelect)
    } else if name == "BackgroundGamepad"@ {
        Some(AppType::BackgroundGamepad)
    } else {
        None
    }
}

/// Consumes one descriptor object.
#[verifier::opaque]
pub open spec fn sp_app(s: Seq<char>, p: int) -> Option<(AppModel, int)> {
    match sp_lit(s, p, "{\"repo_owner\":"@) {
        None => None,
        Some(p1) => match sp_string(s, p1) {
            None => None,
            Some((repo_owner, p2)) => match sp_lit(s, p2, ",\"repo_name\":"@) {
                None => None,
                Some(p3) => match sp_string(s, p3) {
                    None => None,
                    Some((repo_name, p4)) => match sp_lit(s, p4, ",\"app_type\":"@) {
                        None => None,
                        Some(p5) => match sp_string(s, p5) {
                            None => None,
                            Some((kind_str, p6)) => match sp_kind(kind_str) {
                                None => None,
                                Some(app_type) => match sp_lit(s, p6, ",\"id\":"@) {
                                    None => None,
                                    Some(p7) => match sp_i32(s, p7) {
                                        None => None,
                                        Some((id, p8)) => sp_app_tail(
                                            s,
                                            p8,
                                            repo_owner,
                                            repo_name,
                                            app_type,
                                            id,
                                        ),
                                    },
                                },
                            },
                        },
                    },
                },
            },
        },
    }
}

/// Consumes the rest of a descriptor object after its `id` field.
#[verifier::opaque]
pub open spec fn sp_app_tail(
    s: Seq<char>,
    p: int,
    repo_owner: Seq<char>,
    repo_name: Seq<char>,
    app_type: AppType,
    id: int,
) -> Option<(AppModel, int)> {
    match sp_lit(s, p, ",\"tag_name\":"@) {
        None => None,
        Some(p1) => match sp_string(s, p1) {
            None => None,
            Some((tag_name, p2)) => match sp_lit(s, p2, ",\"published_at\":"@) {
                None => None,
                Some(p3) => match sp_string(s, p3) {
                    None => None,
                    Some((published_at, p4)) => match sp_lit(s, p4, ",\"url_source_version\":"@) {
                        None => None,
                        Some(p5) => match sp_string(s, p5) {
                            None => None,
                            Some((url_source_version, p6)) => match sp_lit(
                                s,
                                p6,
                                ",\"automatically_patch\":"@,
                            ) {
                                None => None,
                                Some(p7) => match sp_bool(s, p7) {
                                    None => None,
                                    Some((automatically_patch, p8)) => match sp_lit(
                                        s,
                                        p8,
                                        ",\"patched\":"@,
                                    ) {
                                        None => None,
                                        Some(p9) => match sp_bool(s, p9) {
                                            None => None,
                                            Some((patched, p10)) => match sp_lit(
                                                s,
                                                p10,
                                                ",\"enabled\":"@,
                                            ) {
                                                None => None,
                                                Some(p11) => match sp_bool(s, p11) {
                                                    None => None,
                                                    Some((enabled, p12)) => match sp_lit(
                                                        s,
                                                        p12,
                                                        ",\"track_updates\":"@,
                                                    ) {
                                                        None => None,
                                                        Some(p13) => match sp_bool(s, p13) {
                                                            None => None,
                                                            Some((track_updates, p14)) => match sp_lit(
                                                                s,
                                                                p14,
                                                                ",\"tracked\":"@,
                                                            ) {
                                                                None => None,
                                                                Some(p15) => match sp_bool(
                                                                    s,
                                                                    p15,
                                                                ) {
                                                                    None => None,
                                                                    Some((tracked_flag, p16)) => match sp_lit(
                                                                        s,
                                                                        p16,
                                                                        "}"@,
                                                                    ) {
                                                                        None => None,
                                                                        Some(p17) => Some(
                                                                            (
                                                                                AppModel {
                                                                                    repo_owner,
                                                                                    repo_name,
                                                                                    app_type,
                                                                                    id: id as i32,
                                                                                    tag_name,
                                                                                    published_at,
                                                                                    url_source_version,
                                                                                    automatically_patch,
                                                                                    patched,
                                                                                    enabled,
                                                                                    track_updates,
                                                                                    tracked_flag,
                                                                                },
                                                                                p17,
                                                                            ),
                                                                        ),
                                                                    },
                                                                },
                                                            },
                                                        },
                                                    },
                                                },
                                            },
                                        },
                                    },
                                },
                            },
                        },
                    },
                },
            },
        },
    }
}

/// Consumes one map entry: the key string, a colon, and the descriptor.
#[verifier::opaque]
pub open spec fn sp_entry(s: Seq<char>, p: int) -> Option<(AppModel, int)> {
    match sp_string(s, p) {
        None => None,
        Some((_key, p1)) => match sp_lit(s, p1, seq![':']) {
            None => None,
            Some(p2) => sp_app(s, p2),
        },
    }
}

/// Consumes one or more comma-separated entries and the closing brace of
/// the map.
pub open spec fn sp_entries(s: Seq<char>, p: int) -> Option<(Seq<AppModel>, int)>
    decreases s.len() - p,
{
    match sp_entry(s, p) {
        None => None,
        Some((a, q)) => if 0 <= q && q < s.len() && s[q] == ',' {
            if p < q + 1 {
                match sp_entries(s, q + 1) {
                    Some(t) => Some((seq![a] + t.0, t.1)),
                    None => None,
                }
            } else {
                None
            }
        } else {
            match sp_lit(s, q, seq!['}']) {
                Some(q2) => Some((seq![a], q2)),
                None => None,
            }
        },
    }
}

/// Consumes the add-on map body and its closing brace.
pub open spec fn sp_apps(s: Seq<char>, p: int) -> Option<(Seq<AppModel>, int)> {
    match sp_lit(s, p, seq!['}']) {
        Some(q) => Some((Seq::empty(), q)),
        None => sp_entries(s, p),
    }
}

/// Consumes a whole registry document from the start of `s`.
pub open spec fn sp_config(s: Seq<char>) -> Option<(ConfigModel, int)> {
    match sp_lit(s, 0, "{\"apps\":{"@) {
        None => None,
        Some(p1) => match sp_apps(s, p1) {
            None => None,
            Some((apps, p2)) => match sp_lit(s, p2, ",\"xrd_game_folder\":"@) {
                None => None,
                Some(p3) => match sp_string(s, p3) {
                    None => None,
                    Some((xrd_game_folder, p4)) => match sp_lit(s, p4, "}"@) {
                        None => None,
                        Some(p5) => Some((ConfigModel { apps, xrd_game_folder }, p5)),
                    },
                },
            },
        },
    }
}

// ------------------------------------------------------------------
// The round trip: parsing what the encoder wrote returns the registry.
// ------------------------------------------------------------------
proof fn lemma_has_split(s: Seq<char>, p: int, a: Seq<char>, b: Seq<char>)
    requires
        has_at(s, p, a + b),
    ensures
        has_at(s, p, a),
        has_at(s, p + a.len(), b),
{
    let w = a + b;
    assert forall|k: int| 0 <= k < a.len() implies s.subrange(p, p + a.len() as int)[k] == a[k] by {
        assert(s.subrange(p, p + w.len() as int)[k] == w[k]);
    }
    assert(s.subrange(p, p + a.len() as int) =~= a);
    assert forall|k: int|
        0 <= k < b.len() implies s.subrange(p + a.len(), p + a.len() + b.len() as int)[k]
        == b[k] by {
        assert(s.subrange(p, p + w.len() as int)[a.len() + k] == w[a.len() + k]);
    }
    assert(s.subrange(p + a.len(), p + a.len() + b.len() as int) =~= b);
}

proof fn lemma_sp_lit_of(s: Seq<char>, p: int, lit: Seq<char>)
    requires
        has_at(s, p, lit),
    ensures
        sp_lit(s, p, lit) == Some(p + lit.len() as int),
{
}

proof fn lemma_sp_str_body_of(s: Seq<char>, p: int, x: Seq<char>)
    requires
        has_at(s, p, esc(x) + seq!['"']),
    ensures
        sp_str_body(s, p) == Some((x, p + esc(x).len() + 1)),
    decreases x.len(),
{
    let whole = esc(x) + seq!['"'];
    if x.len() == 0 {
        assert(esc(x) =~= Seq::<char>::empty());
        assert(whole =~= seq!['"']);
        assert(s.subrange(p, p + 1)[0] == s[p]);
        assert(s.subrange(p, p + whole.len() as int) == whole);
        assert(s[p] == '"');
        assert(sp_str_body(s, p) == Some((Seq::<char>::empty(), p + 1)));
        assert(x =~= Seq::<char>::empty());
    } else {
        let c = x[0];
        let rest = x.drop_first();
        assert(esc(x) == esc_char(c) + esc(rest));
        assert(whole =~= esc_char(c) + (esc(rest) + seq!['"']));
        lemma_has_split(s, p, esc_char(c), esc(rest) + seq!['"']);
        if c == '"' || c == '\\' {
            assert(esc_char(c) =~= seq!['\\', c]);
            assert(s.subrange(p, p + 2) =~= seq!['\\', c]);
            assert(s.subrange(p, p + 2)[0] == s[p]);
            assert(s.subrange(p, p + 2)[1] == s[p + 1]);
            assert(s[p] == '\\');
            assert(s[p + 1] == c);
            assert(p + 2 + (esc(rest) + seq!['"']).len() <= s.len());
            lemma_sp_str_body_of(s, p + 2, rest);
            assert(sp_str_body(s, p) == Some(
                (seq![c] + rest, p + 2 + esc(rest).len() + 1),
            ));
            assert(seq![c] + rest =~= x);
            assert(esc(x).len() == 2 + esc(rest).len());
        } else {
            assert(esc_char(c) =~= seq![c]);
            assert(s.subrange(p, p + 1) =~= seq![c]);
            assert(s.subrange(p, p + 1)[0] == s[p]);
            assert(s[p] == c);
            lemma_sp_str_body_of(s, p + 1, rest);
            assert(sp_str_body(s, p) == Some(
                (seq![c] + rest, p + 1 + esc(rest).len() + 1),
            ));
            assert(seq![c] + rest =~= x);
            assert(esc(x).len() == 1 + esc(rest).len());
        }
    }
}

proof fn lemma_sp_string_of(s: Seq<char>, p: int, x: Seq<char>)
    requires
        has_at(s, p, enc_str(x)),
    ensures
        sp_string(s, p) == Some((x, p + enc_str(x).len())),
{
    assert(enc_str(x) =~= seq!['"'] + (esc(x) + seq!['"']));
    lemma_has_split(s, p, seq!['"'], esc(x) + seq!['"']);
    assert(s.subrange(p, p + 1) =~= seq!['"']);
    assert(s.subrange(p, p + 1)[0] == s[p]);
    assert(s[p] == '"');
    lemma_sp_str_body_of(s, p + 1, x);
    assert(enc_str(x).len() == esc(x).len() + 2);
}

/// The digit fold a run of digit characters performs on an accumulator.
spec fn dval(d: Seq<char>, acc: nat) -> nat
    decreases d.len(),
{
    if d.len() == 0 {
        acc
    } else {
        dval(d.drop_first(), acc * 10 + digit_val(d[0]))
    }
}

proof fn lemma_dval_concat(a: Seq<char>, b: Seq<char>, acc: nat)
    ensures
        dval(a + b, acc) == dval(b, dval(a, acc)),
    decreases a.len(),
{
    if a.len() == 0 {
        assert(a + b =~= b);
    } else {
        assert((a + b)[0] == a[0]);
        assert((a + b).drop_first() =~= a.drop_first() + b);
        lemma_dval_concat(a.drop_first(), b, acc * 10 + digit_val(a[0]));
    }
}

proof fn lemma_dec_digits_props(n: nat)
    ensures
        dec_digits(n).len() >= 1,
        forall|k: int| 0 <= k < dec_digits(n).len() ==> is_digit(#[trigger] dec_digits(n)[k]),
        dval(dec_digits(n), 0) == n,
    decreases n,
{
    if n < 10 {
        assert(is_digit(digit_char(n)));
        assert(digit_val(digit_char(n)) == n);
        assert(dec_digits(n) =~= seq![digit_char(n)]);
        assert(dec_digits(n).drop_first() =~= Seq::<char>::empty());
        assert(dval(Seq::<char>::empty(), n) == n);
        assert(dec_digits(n)[0] == digit_char(n));
        assert(dval(dec_digits(n), 0) == dval(Seq::<char>::empty(), 0 * 10 + digit_val(
            digit_char(n),
        )));
        assert(dval(dec_digits(n), 0) == n);
    } else {
        lemma_dec_digits_props(n / 10);
        let head = dec_digits(n / 10);
        let tail = seq![digit_char(n % 10)];
        assert(dec_digits(n) == head + tail);
        assert forall|k: int| 0 <= k < dec_digits(n).len() implies is_digit(
            #[trigger] dec_digits(n)[k],
        ) by {
            if k < head.len() {
                assert(dec_digits(n)[k] == head[k]);
            } else {
                assert(dec_digits(n)[k] == digit_char(n % 10));
                assert(is_digit(digit_char(n % 10)));
            }
        }
        lemma_dval_concat(head, tail, 0);
        assert(digit_val(digit_char(n % 10)) == n % 10);
        assert(tail.drop_first() =~= Seq::<char>::empty());
        assert(tail[0] == digit_char(n % 10));
        assert(dval(Seq::<char>::empty(), (n / 10) * 10 + n % 10) == (n / 10) * 10 + n % 10);
        assert(dval(tail, n / 10) == dval(Seq::<char>::empty(), (n / 10) * 10 + digit_val(
            digit_char(n % 10),
        )));
        assert(dval(tail, n / 10) == (n / 10) * 10 + n % 10);
        assert((n / 10) * 10 + n % 10 == n);
    }
}

proof fn lemma_sp_digits_of(s: Seq<char>, p: int, d: Seq<char>, acc: nat)
    requires
        has_at(s, p, d),
        forall|k: int| 0 <= k < d.len() ==> is_digit(#[trigger] d[k]),
        p + d.len() >= s.len() || !is_digit(s[p + d.len()]),
    ensures
        sp_digits(s, p, acc) == (dval(d, acc), p + d.len()),
    decreases d.len(),
{
    if d.len() == 0 {
        assert(sp_digits(s, p, acc) == (acc, p));
    } else {
        assert(s.subrange(p, p + d.len() as int) == d);
        assert(s[p] == d[0]);
        assert(is_digit(s[p]));
        assert(d =~= seq![d[0]] + d.drop_first());
        lemma_has_split(s, p, seq![d[0]], d.drop_first());
        lemma_sp_digits_of(s, p + 1, d.drop_first(), acc * 10 + digit_val(s[p]));
    }
}

proof fn lemma_sp_i32_of(s: Seq<char>, p: int, v: int)
    requires
        -2147483648 <= v <= 2147483647,
        has_at(s, p, enc_i32(v)),
        p + enc_i32(v).len() >= s.len() || !is_digit(s[p + enc_i32(v).len()]),
    ensures
        sp_i32(s, p) == Some((v, p + enc_i32(v).len())),
{
    if v < 0 {
        let mag = (-v) as nat;
        let d = dec_digits(mag);
        lemma_dec_digits_props(mag);
        assert(enc_i32(v) == seq!['-'] + d);
        lemma_has_split(s, p, seq!['-'], d);
        assert(s.subrange(p, p + 1) =~= seq!['-']);
        assert(s.subrange(p, p + 1)[0] == s[p]);
        assert(s[p] == '-');
        assert(!is_digit('-'));
        assert(s.subrange(p + 1, p + 1 + d.len() as int) == d);
        assert(s[p + 1] == d[0]);
        assert(is_digit(s[p + 1]));
        lemma_sp_digits_of(s, p + 1, d, 0);
        assert(sp_number(s, p) == Some((-(mag as int), p + 1 + d.len())));
        assert(-(mag as int) == v);
    } else {
        let d = dec_digits(v as nat);
        lemma_dec_digits_props(v as nat);
        assert(enc_i32(v) == d);
        assert(s.subrange(p, p + d.len() as int) == d);
        assert(s[p] == d[0]);
        assert(is_digit(s[p]));
        assert(!is_digit('-'));
        assert(s[p] != '-');
        lemma_sp_digits_of(s, p, d, 0);
        assert(sp_number(s, p) == Some((v, p + d.len())));
    }
}

proof fn lemma_sp_bool_of(s: Seq<char>, p: int, b: bool)
    requires
        has_at(s, p, enc_bool(b)),
    ensures
        sp_bool(s, p) == Some((b, p + enc_bool(b).len())),
{
    reveal_strlit("true");
    reveal_strlit("false");
    if b {
        lemma_sp_lit_of(s, p, "true"@);
    } else {
        lemma_sp_lit_of(s, p, "false"@);
        assert(s.subrange(p, p + 5) =~= "false"@);
        assert(s.subrange(p, p + 5)[0] == s[p]);
        assert(s[p] == 'f');
        if has_at(s, p, "true"@) {
            assert(s.subrange(p, p + 4)[0] == 't');
            assert(false);
        }
    }
}

proof fn lemma_sp_kind_of(k: AppType)
    ensures
        sp_kind(kind_name(k)) == Some(k),
{
    reveal_strlit("Unknown");
    reveal_strlit("HitboxOverlay");
    reveal_strlit("WakeupTool");
    reveal_strlit("FasterLoadingTimes");
    reveal_strlit("MirrorColorSelect");
    reveal_strlit("BackgroundGamepad");
    match k {
        AppType::Unknown => {},
        AppType::HitboxOverlay => {
            assert("HitboxOverlay"@.len() != "Unknown"@.len());
        },
        AppType::WakeupTool => {
            assert("WakeupTool"@.len() != "Unknown"@.len());
            assert("WakeupTool"@.len() != "HitboxOverlay"@.len());
        },
        AppType::FasterLoadingTimes => {
            assert("FasterLoadingTimes"@.len() != "Unknown"@.len());
            assert("FasterLoadingTimes"@.len() != "HitboxOverlay"@.len());
            assert("FasterLoadingTimes"@.len() != "WakeupTool"@.len());
        },
        AppType::MirrorColorSelect => {
            assert("MirrorColorSelect"@.len() != "Unknown"@.len());
            assert("MirrorColorSelect"@.len() != "HitboxOverlay"@.len());
            assert("MirrorColorSelect"@.len() != "WakeupTool"@.len());
            assert("MirrorColorSelect"@.len() != "FasterLoadingTimes"@.len());
        },
        AppType::BackgroundGamepad => {
            assert("BackgroundGamepad"@.len() != "Unknown"@.len());
            assert("BackgroundGamepad"@.len() != "HitboxOverlay"@.len());
            assert("BackgroundGamepad"@.len() != "WakeupTool"@.len());
            assert("BackgroundGamepad"@.len() != "FasterLoadingTimes"@.len());
            assert("BackgroundGamepad"@[0] != "MirrorColorSelect"@[0]);
        },
    }
}

#[verifier::rlimit(100)]
#[verifier::spinoff_prover]
proof fn lemma_sp_app_of(s: Seq<char>, p: int, a: AppModel)
    requires
        has_at(s, p, enc_app(a)),
    ensures
        sp_app(s, p) == Some((a, p + enc_app(a).len())),
{
    reveal(sp_app);
    reveal(sp_app_tail);
    let l1 = "{\"repo_owner\":"@;
    let e1 = enc_str(a.repo_owner);
    let l2 = ",\"repo_name\":"@;
    let e2 = enc_str(a.repo_name);
    let l3 = ",\"app_type\":"@;
    let e3 = enc_str(kind_name(a.app_type));
    let l4 = ",\"id\":"@;
    let e4 = enc_i32(a.id as int);
    let l5 = ",\"tag_name\":"@;
    let e5 = enc_str(a.tag_name);
    let l6 = ",\"published_at\":"@;
    let e6 = enc_str(a.published_at);
    let l7 = ",\"url_source_version\":"@;
    let e7 = enc_str(a.url_source_version);
    let l8 = ",\"automatically_patch\":"@;
    let e8 = enc_bool(a.automatically_patch);
    let l9 = ",\"patched\":"@;
    let e9 = enc_bool(a.patched);
    let l10 = ",\"enabled\":"@;
    let e10 = enc_bool(a.enabled);
    let l11 = ",\"track_updates\":"@;
    let e11 = enc_bool(a.track_updates);
    let l12 = ",\"tracked\":"@;
    let e12 = enc_bool(a.tracked_flag);
    let l13 = "}"@;
    let g1 = l1;
    let g2 = g1 + e1;
    let g3 = g2 + l2;
    let g4 = g3 + e2;
    let g5 = g4 + l3;
    let g6 = g5 + e3;
    let g7 = g6 + l4;
    let g8 = g7 + e4;
    let g9 = g8 + l5;
    let g10 = g9 + e5;
    let g11 = g10 + l6;
    let g12 = g11 + e6;
    let g13 = g12 + l7;
    let g14 = g13 + e7;
    let g15 = g14 + l8;
    let g16 = g15 + e8;
    let g17 = g16 + l9;
    let g18 = g17 + e9;
    let g19 = g18 + l10;
    let g20 = g19 + e10;
    let g21 = g20 + l11;
    let g22 = g21 + e11;
    let g23 = g22 + l12;
    let g24 = g23 + e12;
    assert(g24 + l13 == enc_app(a));
    lemma_has_split(s, p, g24, l13);
    lemma_has_split(s, p, g23, e12);
    lemma_has_split(s, p, g22, l12);
    lemma_has_split(s, p, g21, e11);
    lemma_has_split(s, p, g20, l11);
    lemma_has_split(s, p, g19, e10);
    lemma_has_split(s, p, g18, l10);
    lemma_has_split(s, p, g17, e9);
    lemma_has_split(s, p, g16, l9);
    lemma_has_split(s, p, g15, e8);
    lemma_has_split(s, p, g14, l8);
    lemma_has_split(s, p, g13, e7);
    lemma_has_split(s, p, g12, l7);
    lemma_has_split(s, p, g11, e6);
    lemma_has_split(s, p, g10, l6);
    lemma_has_split(s, p, g9, e5);
    lemma_has_split(s, p, g8, l5);
    lemma_has_split(s, p, g7, e4);
    lemma_has_split(s, p, g6, l4);
    lemma_has_split(s, p, g5, e3);
    lemma_has_split(s, p, g4, l3);
    lemma_has_split(s, p, g3, e2);
    lemma_has_split(s, p, g2, l2);
    lemma_has_split(s, p, g1, e1);
    lemma_sp_lit_of(s, p, l1);
    lemma_sp_string_of(s, p + g1.len(), a.repo_owner);
    lemma_sp_lit_of(s, p + g2.len(), l2);
    lemma_sp_string_of(s, p + g3.len(), a.repo_name);
    lemma_sp_lit_of(s, p + g4.len(), l3);
    lemma_sp_string_of(s, p + g5.len(), kind_name(a.app_type));
    lemma_sp_kind_of(a.app_type);
    lemma_sp_lit_of(s, p + g6.len(), l4);
    reveal_strlit(",\"tag_name\":");
    assert(l5.len() > 0);
    assert(s.subrange(p + g8.len(), p + g8.len() + l5.len() as int)[0] == s[p + g8.len()]);
    assert(s[p + g8.len()] == ',');
    assert(!is_digit(','));
    lemma_sp_i32_of(s, p + g7.len(), a.id as int);
    lemma_sp_lit_of(s, p + g8.len(), l5);
    lemma_sp_string_of(s, p + g9.len(), a.tag_name);
    lemma_sp_lit_of(s, p + g10.len(), l6);
    lemma_sp_string_of(s, p + g11.len(), a.published_at);
    lemma_sp_lit_of(s, p + g12.len(), l7);
    lemma_sp_string_of(s, p + g13.len(), a.url_source_version);
    lemma_sp_lit_of(s, p + g14.len(), l8);
    lemma_sp_bool_of(s, p + g15.len(), a.automatically_patch);
    lemma_sp_lit_of(s, p + g16.len(), l9);
    lemma_sp_bool_of(s, p + g17.len(), a.patched);
    lemma_sp_lit_of(s, p + g18.len(), l10);
    lemma_sp_bool_of(s, p + g19.len(), a.enabled);
    lemma_sp_lit_of(s, p + g20.len(), l11);
    lemma_sp_bool_of(s, p + g21.len(), a.track_updates);
    lemma_sp_lit_of(s, p + g22.len(), l12);
    lemma_sp_bool_of(s, p + g23.len(), a.tracked_flag);
    lemma_sp_lit_of(s, p + g24.len(), l13);
    assert((a.id as int) as i32 == a.id);
    assert(a == (AppModel {
        repo_owner: a.repo_owner,
        repo_name: a.repo_name,
        app_type: a.app_type,
        id: a.id,
        tag_name: a.tag_name,
        published_at: a.published_at,
        url_source_version: a.url_source_version,
        automatically_patch: a.automatically_patch,
        patched: a.patched,
        enabled: a.enabled,
        track_updates: a.track_updates,
        tracked_flag: a.tracked_flag,
    }));
    assert(sp_app(s, p) == Some((a, p + enc_app(a).len())));
}

proof fn lemma_sp_entry_of(s: Seq<char>, p: int, a: AppModel)
    requires
        has_at(s, p, enc_entry(a)),
    ensures
        sp_entry(s, p) == Some((a, p + enc_entry(a).len())),
{
    reveal(sp_entry);
    let k = enc_str(a.spec_app_name());
    assert(k + seq![':'] + enc_app(a) == enc_entry(a));
    lemma_has_split(s, p, k + seq![':'], enc_app(a));
    lemma_has_split(s, p, k, seq![':']);
    lemma_sp_string_of(s, p, a.spec_app_name());
    lemma_sp_lit_of(s, p + k.len(), seq![':']);
    lemma_sp_app_of(s, p + (k + seq![':']).len(), a);
}

proof fn lemma_sp_entries_of(s: Seq<char>, p: int, apps: Seq<AppModel>)
    requires
        apps.len() >= 1,
        has_at(s, p, enc_apps(apps)),
        p + enc_apps(apps).len() < s.len(),
        s[p + enc_apps(apps).len()] == '}',
    ensures
        sp_entries(s, p) == Some((apps, p + enc_apps(apps).len() + 1)),
    decreases apps.len(),
{
    if apps.len() == 1 {
        assert(enc_apps(apps) == enc_entry(apps[0]));
        lemma_sp_entry_of(s, p, apps[0]);
        let q = p + enc_entry(apps[0]).len();
        assert(s[q] == '}');
        assert('}' != ',');
        assert(s.subrange(q, q + 1) =~= seq!['}']);
        assert(has_at(s, q, seq!['}']));
        lemma_sp_lit_of(s, q, seq!['}']);
        assert(seq![apps[0]] =~= apps);
        assert(sp_entries(s, p) == Some((apps, q + 1)));
    } else {
        let head = enc_entry(apps[0]);
        let rest = enc_apps(apps.drop_first());
        assert(enc_apps(apps) == head + seq![','] + rest);
        lemma_has_split(s, p, head + seq![','], rest);
        lemma_has_split(s, p, head, seq![',']);
        lemma_sp_entry_of(s, p, apps[0]);
        let q = p + head.len();
        assert(s.subrange(q, q + 1) =~= seq![',']);
        assert(s.subrange(q, q + 1)[0] == s[q]);
        assert(s[q] == ',');
        assert(0 <= q && q < s.len());
        lemma_sp_entries_of(s, q + 1, apps.drop_first());
        assert(seq![apps[0]] + apps.drop_first() =~= apps);
        assert(sp_entries(s, p) == Some((apps, p + enc_apps(apps).len() + 1)));
    }
}

/// Parsing the canonical document of a registry returns exactly that
/// registry, with the whole document consumed: the save format and the load
/// parser invert one another.
#[verifier::rlimit(100)]
#[verifier::spinoff_prover]
pub proof fn lemma_registry_round_trip(c: ConfigModel)
    ensures
        sp_config(enc_config(c)) == Some((c, enc_config(c).len() as int)),
{
    let s = enc_config(c);
    let l1 = "{\"apps\":{"@;
    let body = enc_apps(c.apps);
    let l2 = "},\"xrd_game_folder\":"@;
    let e2 = enc_str(c.xrd_game_folder);
    let l3 = "}"@;
    let g1 = l1;
    let g2 = g1 + body;
    let g3 = g2 + l2;
    let g4 = g3 + e2;
    assert(g4 + l3 == s);
    assert(s.subrange(0, s.len() as int) =~= s);
    assert(has_at(s, 0, s));
    lemma_has_split(s, 0, g4, l3);
    lemma_has_split(s, 0, g3, e2);
    lemma_has_split(s, 0, g2, l2);
    lemma_has_split(s, 0, g1, body);
    lemma_sp_lit_of(s, 0, l1);
    let p1 = l1.len() as int;
    reveal_strlit("},\"xrd_game_folder\":");
    assert(l2.len() > 0);
    assert(s.subrange(p1 + body.len(), p1 + body.len() + l2.len() as int)[0] == s[p1
        + body.len()]);
    assert(s[p1 + body.len()] == '}');
    let brace = seq!['}'];
    let tail_lit = ",\"xrd_game_folder\":"@;
    reveal_strlit(",\"xrd_game_folder\":");
    assert(brace + tail_lit =~= l2);
    lemma_has_split(s, p1 + body.len(), brace, tail_lit);
    if c.apps.len() == 0 {
        assert(body == Seq::<char>::empty());
        assert(body.len() == 0);
        assert(s.subrange(p1, p1 + 1) =~= seq!['}']);
        assert(has_at(s, p1, seq!['}']));
        lemma_sp_lit_of(s, p1, seq!['}']);
        assert(sp_apps(s, p1) == Some((Seq::<AppModel>::empty(), p1 + 1)));
        assert(c.apps =~= Seq::<AppModel>::empty());
    } else {
        assert(enc_apps(c.apps).len() > 0);
        assert(s.subrange(p1, p1 + body.len() as int) == body);
        let entry0 = enc_entry(c.apps[0]);
        if c.apps.len() == 1 {
            assert(body == entry0);
        } else {
            assert(body == entry0 + seq![','] + enc_apps(c.apps.drop_first()));
            lemma_has_split(s, p1, entry0 + seq![','], enc_apps(c.apps.drop_first()));
            lemma_has_split(s, p1, entry0, seq![',']);
        }
        assert(entry0 == enc_str(c.apps[0].spec_app_name()) + seq![':'] + enc_app(c.apps[0]));
        assert(entry0.len() >= enc_str(c.apps[0].spec_app_name()).len());
        assert(enc_str(c.apps[0].spec_app_name()).len() >= 2);
        assert(body.len() >= 1);
        assert(s.subrange(p1, p1 + body.len() as int)[0] == s[p1]);
        assert(body[0] == entry0[0]);
        assert(entry0[0] == enc_str(c.apps[0].spec_app_name())[0]);
        assert(enc_str(c.apps[0].spec_app_name())[0] == '"');
        assert(s[p1] == '"');
        assert('"' != '}');
        if has_at(s, p1, seq!['}']) {
            assert(s.subrange(p1, p1 + 1)[0] == s[p1]);
            assert(false);
        }
        assert(sp_lit(s, p1, seq!['}']) is None);
        lemma_sp_entries_of(s, p1, c.apps);
        assert(sp_apps(s, p1) == Some((c.apps, p1 + body.len() + 1)));
    }
    let p2 = p1 + body.len() + 1;
    lemma_sp_lit_of(s, p2, tail_lit);
    let p3 = p2 + tail_lit.len() as int;
    assert(p3 == (g3.len() as int));
    lemma_sp_string_of(s, p3, c.xrd_game_folder);
    lemma_sp_lit_of(s, 0 + g4.len() as int, l3);
    assert(c == (ConfigModel { apps: c.apps, xrd_game_folder: c.xrd_game_folder }));
    assert(sp_config(s) == Some((c, s.len() as int)));
}

// ------------------------------------------------------------------
// The decoder.
// ------------------------------------------------------------------
/// Consumes `lit` at `p`, as [`sp_lit`] states.
fn expect(s: &str, p: usize, lit: &str) -> (r: Option<usize>)
    ensures
        r matches Some(q) ==> sp_lit(s@, p as int, lit@) == Some(q as int) && p <= q <= s@.len(),
        r is None ==> sp_lit(s@, p as int, lit@) is None,
{
    let n = s.unicode_len();
    let m = lit.unicode_len();
    if p > n || m > n - p {
        return None;
    }
    if m == 0 {
        proof {
            assert(s@.subrange(p as int, p as int) =~= lit@);
            assert(has_at(s@, p as int, lit@));
        }
        return Some(p);
    }
    if crate::text::str_match_at(s, lit, p) {
        proof {
            assert(has_at(s@, p as int, lit@));
        }
        Some(p + m)
    } else {
        None
    }
}

/// Whether `c` is a decimal digit.
fn is_digit_char(c: char) -> (r: bool)
    ensures
        r == is_digit(c),
{
    c >= '0' && c <= '9'
}

/// Consumes a quoted string at `p`, as [`sp_string`] states.
fn parse_string(s: &str, p: usize) -> (r: Option<(String, usize)>)
    ensures
        r matches Some(t) ==> sp_string(s@, p as int) == Some((t.0@, t.1 as int)) && p < t.1
            <= s@.len(),
        r is None ==> sp_string(s@, p as int) is None,
{
    let n = s.unicode_len();
    if p >= n {
        return None;
    }
    if s.get_char(p) != '"' {
        return None;
    }
    let mut out = String::new();
    let mut i: usize = p + 1;
    proof {
        match sp_str_body(s@, (p + 1) as int) {
            Some(t) => {
                assert(out@ + t.0 =~= t.0);
            },
            None => {},
        }
    }
    while i < n
        invariant
            p + 1 <= i <= n,
            n == s@.len(),
            p < n,
            s@[p as int] == '"',
            sp_string(s@, p as int) == (match sp_str_body(s@, i as int) {
                Some(t) => Some((out@ + t.0, t.1)),
                None => None,
            }),
        decreases n - i,
    {
        let c = s.get_char(i);
        if c == '"' {
            proof {
                assert(sp_str_body(s@, i as int) == Some((Seq::<char>::empty(), i + 1 as int)));
                assert(out@ + Seq::<char>::empty() =~= out@);
            }
            return Some((out, i + 1));
        }
        if c == '\\' {
            if i + 1 >= n {
                proof {
                    assert(sp_str_body(s@, i as int) is None);
                }
                return None;
            }
            let piece = s.substring_char(i + 1, i + 2);
            let ghost out_old = out@;
            out.append(piece);
            proof {
                assert(piece@ =~= seq![s@[i + 1 as int]]);
                match sp_str_body(s@, (i + 2) as int) {
                    Some(t) => {
                        assert(out_old + (seq![s@[i + 1 as int]] + t.0) =~= out@ + t.0);
                    },
                    None => {},
                }
            }
            i += 2;
        } else {
            let piece = s.substring_char(i, i + 1);
            let ghost out_old = out@;
            out.append(piece);
            proof {
                assert(piece@ =~= seq![s@[i as int]]);
                match sp_str_body(s@, (i + 1) as int) {
                    Some(t) => {
                        assert(out_old + (seq![s@[i as int]] + t.0) =~= out@ + t.0);
                    },
                    None => {},
                }
            }
            i += 1;
        }
    }
    proof {
        assert(sp_str_body(s@, i as int) is None);
    }
    None
}

/// Consumes a number at `p` and requires it to fit, as [`sp_i32`] states.
fn parse_i32(s: &str, p: usize) -> (r: Option<(i32, usize)>)
    ensures
        r matches Some(t) ==> sp_i32(s@, p as int) == Some((t.0 as int, t.1 as int)) && p < t.1
            <= s@.len(),
        r is None ==> sp_i32(s@, p as int) is None,
{
    let n = s.unicode_len();
    if p >= n {
        return None;
    }
    let negative = s.get_char(p) == '-';
    let mut i: usize = if negative {
        p + 1
    } else {
        p
    };
    if i >= n {
        return None;
    }
    if !is_digit_char(s.get_char(i)) {
        return None;
    }
    let ghost start = i as int;
    let mut acc: u64 = 0;
    let ghost mut acc_g: nat = 0nat;
    while i < n && is_digit_char(s.get_char(i))
        invariant
            start <= i <= n,
            n == s@.len(),
            sp_digits(s@, start, 0) == sp_digits(s@, i as int, acc_g),
            acc_g <= 2147483648 ==> acc as nat == acc_g,
            acc_g > 2147483648 ==> acc as nat > 2147483648,
            acc <= 21474836489,
        decreases n - i,
    {
        let c = s.get_char(i);
        let d: u64 = ((c as u32) - 48) as u64;
        proof {
            assert(is_digit(c));
            assert(d as nat == digit_val(c));
        }
        if acc <= 2147483648 {
            acc = acc * 10 + d;
        }
        proof {
            acc_g = acc_g * 10 + digit_val(c);
        }
        i += 1;
    }
    proof {
        assert(sp_digits(s@, i as int, acc_g) == (acc_g, i as int));
        assert(sp_digits(s@, start, 0).0 == acc_g);
    }
    if negative {
        if acc > 2147483648 {
            return None;
        }
        let v: i32 = (-(acc as i64)) as i32;
        proof {
            assert(sp_number(s@, p as int) == Some((-(acc_g as int), i as int)));
            assert(v as int == -(acc_g as int));
        }
        Some((v, i))
    } else {
        if acc > 2147483647 {
            proof {
                assert(sp_number(s@, p as int) == Some((acc_g as int, i as int)));
                assert(acc_g > 2147483647);
            }
            return None;
        }
        let v: i32 = acc as i32;
        proof {
            assert(sp_number(s@, p as int) == Some((acc_g as int, i as int)));
        }
        Some((v, i))
    }
}

/// Consumes a boolean literal at `p`, as [`sp_bool`] states.
fn parse_bool(s: &str, p: usize) -> (r: Option<(bool, usize)>)
    ensures
        r matches Some(t) ==> sp_bool(s@, p as int) == Some((t.0, t.1 as int)) && p < t.1
            <= s@.len(),
        r is None ==> sp_bool(s@, p as int) is None,
{
    proof {
        reveal_strlit("true");
        reveal_strlit("false");
    }
    match expect(s, p, "true") {
        Some(q) => Some((true, q)),
        None => match expect(s, p, "false") {
            Some(q) => Some((false, q)),
            None => None,
        },
    }
}

/// The add-on kind a persisted name denotes, as [`sp_kind`] states.
fn parse_kind(name: &str) -> (r: Option<AppType>)
    ensures
        r == sp_kind(name@),
{
    if crate::text::str_eq(name, "Unknown") {
        Some(AppType::Unknown)
    } else if crate::text::str_eq(name, "HitboxOverlay") {
        Some(AppType::HitboxOverlay)
    } else if crate::text::str_eq(name, "WakeupTool") {
        Some(AppType::WakeupTool)
    } else if crate::text::str_eq(name, "FasterLoadingTimes") {
        Some(AppType::FasterLoadingTimes)
    } else if crate::text::str_eq(name, "MirrorColorSelect") {
        Some(AppType::MirrorColorSelect)
    } else if crate::text::str_eq(name, "BackgroundGamepad") {
        Some(AppType::BackgroundGamepad)
    } else {
        None
    }
}

/// Consumes one descriptor object at `p`, as [`sp_app`] states.
#[verifier::rlimit(100)]
fn parse_app(s: &str, p: usize) -> (r: Option<(AppStruct, usize)>)
    ensures
        r matches Some(t) ==> sp_app(s@, p as int) == Some((t.0@, t.1 as int)) && p < t.1
            <= s@.len(),
        r is None ==> sp_app(s@, p as int) is None,
{
    proof {
        reveal(sp_app);
        reveal(sp_app_tail);
    }
    let p1 = match expect(s, p, "{\"repo_owner\":") {
        Some(q) => q,
        None => {
            return None;
        },
    };
    let (repo_owner, p2) = match parse_string(s, p1) {
        Some(t) => t,
        None => {
            return None;
        },
    };
    let p3 = match expect(s, p2, ",\"repo_name\":") {
        Some(q) => q,
        None => {
            return None;
        },
    };
    let (repo_name, p4) = match parse_string(s, p3) {
        Some(t) => t,
        None => {
            return None;
        },
    };
    let p5 = match expect(s, p4, ",\"app_type\":") {
        Some(q) => q,
        None => {
            return None;
        },
    };
    let (kind_str, p6) = match parse_string(s, p5) {
        Some(t) => t,
        None => {
            return None;
        },
    };
    let app_type = match parse_kind(kind_str.as_str()) {
        Some(k) => k,
        None => {
            return None;
        },
    };
    let p7 = match expect(s, p6, ",\"id\":") {
        Some(q) => q,
        None => {
            return None;
        },
    };
    let (id, p8) = match parse_i32(s, p7) {
        Some(t) => t,
        None => {
            return None;
        },
    };
    let p9 = match expect(s, p8, ",\"tag_name\":") {
        Some(q) => q,
        None => {
            return None;
        },
    };
    let (tag_name, p10) = match parse_string(s, p9) {
        Some(t) => t,
        None => {
            return None;
        },
    };
    let p11 = match expect(s, p10, ",\"published_at\":") {
        Some(q) => q,
        None => {
            return None;
        },
    };
    let (published_at, p12) = match parse_string(s, p11) {
        Some(t) => t,
        None => {
            return None;
        },
    };
    let p13 = match expect(s, p12, ",\"url_source_version\":") {
        Some(q) => q,
        None => {
            return None;
        },
    };
    let (url_source_version, p14) = match parse_string(s, p13) {
        Some(t) => t,
        None => {
            return None;
        },
    };
    let p15 = match expect(s, p14, ",\"automatically_patch\":") {
        Some(q) => q,
        None => {
            return None;
        },
    };
    let (automatically_patch, p16) = match parse_bool(s, p15) {
        Some(t) => t,
        None => {
            return None;
        },
    };
    let p17 = match expect(s, p16, ",\"patched\":") {
        Some(q) => q,
        None => {
            return None;
        },
    };
    let (patched, p18) = match parse_bool(s, p17) {
        Some(t) => t,
        None => {
            return None;
        },
    };
    let p19 = match expect(s, p18, ",\"enabled\":") {
        Some(q) => q,
        None => {
            return None;
        },
    };
    let (enabled, p20) = match parse_bool(s, p19) {
        Some(t) => t,
        None => {
            return None;
        },
    };
    let p21 = match expect(s, p20, ",\"track_updates\":") {
        Some(q) => q,
        None => {
            return None;
        },
    };
    let (track_updates, p22) = match parse_bool(s, p21) {
        Some(t) => t,
        None => {
            return None;
        },
    };
    let p23 = match expect(s, p22, ",\"tracked\":") {
        Some(q) => q,
        None => {
            return None;
        },
    };
    let (tracked_flag, p24) = match parse_bool(s, p23) {
        Some(t) => t,
        None => {
            return None;
        },
    };
    let p25 = match expect(s, p24, "}") {
        Some(q) => q,
        None => {
            return None;
        },
    };
    let app = AppStruct {
        repo_owner,
        repo_name,
        app_type,
        id,
        tag_name,
        published_at,
        url_source_version,
        automatically_patch,
        patched,
        enabled,
        track_updates,
        tracked_flag,
    };
    Some((app, p25))
}

/// Consumes one map entry at `p`, as [`sp_entry`] states.
fn parse_entry(s: &str, p: usize) -> (r: Option<(AppStruct, usize)>)
    ensures
        r matches Some(t) ==> sp_entry(s@, p as int) == Some((t.0@, t.1 as int)) && p < t.1
            <= s@.len(),
        r is None ==> sp_entry(s@, p as int) is None,
{
    proof {
        reveal(sp_entry);
    }
    let p1 = match parse_string(s, p) {
        Some(t) => t.1,
        None => {
            return None;
        },
    };
    proof {
        reveal_strlit(":");
        assert(":"@ =~= seq![':']);
    }
    let p2 = match expect(s, p1, ":") {
        Some(q) => q,
        None => {
            return None;
        },
    };
    parse_app(s, p2)
}

/// Consumes one or more entries and the map's closing brace, as
/// [`sp_entries`] states.
fn parse_entries(s: &str, p: usize) -> (r: Option<(Vec<AppStruct>, usize)>)
    ensures
        r matches Some(t) ==> sp_entries(s@, p as int) == Some(
            (t.0@.map_values(|a: AppStruct| a@), t.1 as int),
        ) && p < t.1 <= s@.len(),
        r is None ==> sp_entries(s@, p as int) is None,
    decreases s@.len() - p,
{
    let n = s.unicode_len();
    let (a, q) = match parse_entry(s, p) {
        Some(t) => t,
        None => {
            return None;
        },
    };
    if q < n && s.get_char(q) == ',' {
        match parse_entries(s, q + 1) {
            Some((rest, q2)) => {
                let ghost rest_model = rest@.map_values(|x: AppStruct| x@);
                let ghost a_model = a@;
                let mut v = rest;
                v.insert(0, a);
                proof {
                    assert(v@.map_values(|x: AppStruct| x@) =~= seq![a_model] + rest_model);
                }
                Some((v, q2))
            },
            None => None,
        }
    } else {
        proof {
            reveal_strlit("}");
            assert("}"@ =~= seq!['}']);
        }
        let q2 = match expect(s, q, "}") {
            Some(x) => x,
            None => {
                return None;
            },
        };
        let ghost a_model = a@;
        let mut v: Vec<AppStruct> = Vec::new();
        v.push(a);
        proof {
            assert(v@.map_values(|x: AppStruct| x@) =~= seq![a_model]);
        }
        Some((v, q2))
    }
}

/// Reads a whole registry document: `Some` exactly when the text is one
/// canonical document with nothing after it, and then the registry it
/// denotes, as [`sp_config`] states.
pub fn decode_config(s: &str) -> (r: Option<Config>)
    ensures
        r matches Some(cfg) ==> sp_config(s@) == Some((cfg@, s@.len() as int)),
        r is None ==> (sp_config(s@) matches Some(t) ==> t.1 != s@.len()),
{
    let n = s.unicode_len();
    let p1 = match expect(s, 0, "{\"apps\":{") {
        Some(q) => q,
        None => {
            return None;
        },
    };
    proof {
        reveal_strlit("}");
        assert("}"@ =~= seq!['}']);
    }
    let (apps, p2) = match expect(s, p1, "}") {
        Some(q) => (Vec::new(), q),
        None => {
            match parse_entries(s, p1) {
                Some(t) => t,
                None => {
                    return None;
                },
            }
        },
    };
    let p3 = match expect(s, p2, ",\"xrd_game_folder\":") {
        Some(q) => q,
        None => {
            return None;
        },
    };
    let (xrd_game_folder, p4) = match parse_string(s, p3) {
        Some(t) => t,
        None => {
            return None;
        },
    };
    let p5 = match expect(s, p4, "}") {
        Some(q) => q,
        None => {
            return None;
        },
    };
    if p5 != n {
        return None;
    }
    let cfg = Config { apps, xrd_game_folder };
    proof {
        assert(cfg@.apps =~= (match sp_apps(s@, p1 as int) {
            Some(t) => t.0,
            None => Seq::<AppModel>::empty(),
        }));
    }
    Some(cfg)
}

} // verus!
