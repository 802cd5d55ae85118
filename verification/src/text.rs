//! Verified text primitives shared by the planners and parsers: substring
//! search, prefix/suffix tests, trimming, character removal and line
//! splitting, each specified over the character sequence of the string.

use vstd::prelude::*;
use vstd::string::StrSliceExecFns;
use vstd::string::StringExecFns;

verus! {

/// `p` occurs in `s` starting at position `i`.
pub open spec fn spec_match_at(s: Seq<char>, p: Seq<char>, i: int) -> bool {
    0 <= i && i + p.len() <= s.len() && s.subrange(i, i + p.len() as int) == p
}

/// `p` occurs somewhere in `s`.
pub open spec fn spec_contains(s: Seq<char>, p: Seq<char>) -> bool {
    exists|i: int| spec_match_at(s, p, i)
}

/// `s` starts with `p`.
pub open spec fn spec_starts_with(s: Seq<char>, p: Seq<char>) -> bool {
    p.len() <= s.len() && s.subrange(0, p.len() as int) == p
}

/// `s` ends with `p`.
pub open spec fn spec_ends_with(s: Seq<char>, p: Seq<char>) -> bool {
    p.len() <= s.len() && s.subrange(s.len() - p.len(), s.len() as int) == p
}

/// Whether `p` occurs in `s` at position `i` exactly.
fn match_at(s: &str, p: &str, i: usize) -> (r: bool)
    requires
        i + p@.len() <= s@.len(),
    ensures
        r == spec_match_at(s@, p@, i as int),
{
    let n = s.unicode_len();
    let m = p.unicode_len();
    let mut j: usize = 0;
    while j < m
        invariant
            0 <= j <= m,
            m == p@.len(),
            n == s@.len(),
            i + m <= n,
            forall|t: int| 0 <= t < j ==> s@[i + t] == p@[t],
        decreases m - j,
    {
        if s.get_char(i + j) != p.get_char(j) {
            proof {
                assert(s@.subrange(i as int, i + m as int)[j as int] != p@[j as int]);
            }
            return false;
        }
        j += 1;
    }
    proof {
        assert(s@.subrange(i as int, i + m as int) =~= p@);
    }
    true
}

/// Whether `p` occurs anywhere in `s`.
pub fn str_contains(s: &str, p: &str) -> (r: bool)
    ensures
        r == spec_contains(s@, p@),
{
    let n = s.unicode_len();
    let m = p.unicode_len();
    if m > n {
        proof {
            assert(forall|i: int| !spec_match_at(s@, p@, i));
        }
        return false;
    }
    if m == 0 {
        proof {
            assert(s@.subrange(0, 0) =~= p@);
            assert(spec_match_at(s@, p@, 0));
        }
        return true;
    }
    let mut i: usize = 0;
    while i <= n - m
        invariant
            1 <= m <= n,
            n == s@.len(),
            m == p@.len(),
            0 <= i <= n - m + 1,
            forall|k: int| 0 <= k < i ==> !spec_match_at(s@, p@, k),
        decreases n - m - i + 1,
    {
        if match_at(s, p, i) {
            return true;
        }
        i += 1;
    }
    proof {
        assert(forall|k: int| spec_match_at(s@, p@, k) ==> 0 <= k <= n - m);
    }
    false
}

/// Whether `s` starts with `p`.
pub fn str_starts_with(s: &str, p: &str) -> (r: bool)
    ensures
        r == spec_starts_with(s@, p@),
{
    let n = s.unicode_len();
    let m = p.unicode_len();
    if m > n {
        return false;
    }
    match_at(s, p, 0)
}

/// Whether `s` ends with `p`.
pub fn str_ends_with(s: &str, p: &str) -> (r: bool)
    ensures
        r == spec_ends_with(s@, p@),
{
    let n = s.unicode_len();
    let m = p.unicode_len();
    if m > n {
        return false;
    }
    match_at(s, p, n - m)
}

/// The only character the trimming helpers treat as blank.
pub open spec fn is_space(c: char) -> bool {
    c == ' '
}

/// `s` with every leading space removed.
pub open spec fn spec_trim_start(s: Seq<char>) -> Seq<char>
    decreases s.len(),
{
    if s.len() > 0 && is_space(s[0]) {
        spec_trim_start(s.drop_first())
    } else {
        s
    }
}

/// `s` with every trailing space removed.
pub open spec fn spec_trim_end(s: Seq<char>) -> Seq<char>
    decreases s.len(),
{
    if s.len() > 0 && is_space(s[s.len() - 1]) {
        spec_trim_end(s.drop_last())
    } else {
        s
    }
}

/// `s` with leading and trailing spaces removed.
pub open spec fn spec_trim(s: Seq<char>) -> Seq<char> {
    spec_trim_end(spec_trim_start(s))
}

proof fn lemma_trim_start_skip(s: Seq<char>, a: int)
    requires
        0 <= a <= s.len(),
        forall|k: int| 0 <= k < a ==> is_space(s[k]),
    ensures
        spec_trim_start(s) == spec_trim_start(s.subrange(a, s.len() as int)),
    decreases a,
{
    if a > 0 {
        assert(spec_trim_start(s) == spec_trim_start(s.drop_first()));
        lemma_trim_start_skip(s.drop_first(), a - 1);
        assert(s.drop_first().subrange(a - 1, s.drop_first().len() as int) =~= s.subrange(
            a,
            s.len() as int,
        ));
    } else {
        assert(s.subrange(0, s.len() as int) =~= s);
    }
}

proof fn lemma_trim_end_take(s: Seq<char>, b: int)
    requires
        0 <= b <= s.len(),
        forall|k: int| b <= k < s.len() ==> is_space(s[k]),
    ensures
        spec_trim_end(s) == spec_trim_end(s.subrange(0, b)),
    decreases s.len() - b,
{
    if b < s.len() {
        assert(spec_trim_end(s) == spec_trim_end(s.drop_last()));
        lemma_trim_end_take(s.drop_last(), b);
        assert(s.drop_last().subrange(0, b) =~= s.subrange(0, b));
    } else {
        assert(s.subrange(0, s.len() as int) =~= s);
    }
}

/// `s` without leading and trailing spaces.
pub fn trim_spaces<'a>(s: &'a str) -> (r: &'a str)
    ensures
        r@ == spec_trim(s@),
{
    let n = s.unicode_len();
    let mut a: usize = 0;
    while a < n && s.get_char(a) == ' '
        invariant
            0 <= a <= n,
            n == s@.len(),
            forall|k: int| 0 <= k < a ==> is_space(s@[k]),
        decreases n - a,
    {
        a += 1;
    }
    let mut b: usize = n;
    while b > a && s.get_char(b - 1) == ' '
        invariant
            a <= b <= n,
            n == s@.len(),
            forall|k: int| 0 <= k < a ==> is_space(s@[k]),
            forall|k: int| b <= k < n ==> is_space(s@[k]),
        decreases b,
    {
        b -= 1;
    }
    let r = s.substring_char(a, b);
    proof {
        lemma_trim_start_skip(s@, a as int);
        let tail = s@.subrange(a as int, n as int);
        if a < n && b > a {
            assert(!is_space(tail[0]));
            assert(spec_trim_start(tail) == tail);
        } else if a == n {
            assert(tail =~= Seq::<char>::empty());
            assert(spec_trim_start(tail) == tail);
        } else {
            assert(b == a);
            assert(!is_space(s@[a as int]));
            assert(!is_space(tail[0]));
            assert(spec_trim_start(tail) == tail);
        }
        lemma_trim_end_take(tail, b - a);
        if b > a {
            assert(!is_space(tail.subrange(0, b - a)[b - a - 1]));
            assert(spec_trim_end(tail.subrange(0, b - a)) == tail.subrange(0, b - a));
        } else {
            assert(tail.subrange(0, 0) =~= Seq::<char>::empty());
            assert(spec_trim_end(tail.subrange(0, b - a)) == tail.subrange(0, b - a));
        }
        assert(r@ =~= tail.subrange(0, b - a));
    }
    r
}

/// `s` with every occurrence of `c` removed.
pub fn remove_char(s: &str, c: char) -> (r: String)
    ensures
        r@ == s@.filter(|x: char| x != c),
{
    let n = s.unicode_len();
    let mut r = String::new();
    let mut i: usize = 0;
    while i < n
        invariant
            0 <= i <= n,
            n == s@.len(),
            r@ == s@.subrange(0, i as int).filter(|x: char| x != c),
        decreases n - i,
    {
        let ghost pre = s@.subrange(0, i as int);
        let ghost cur = s@.subrange(0, i + 1);
        proof {
            reveal(Seq::filter);
            assert(cur.drop_last() =~= pre);
            assert(cur.last() == s@[i as int]);
        }
        if s.get_char(i) != c {
            let piece = s.substring_char(i, i + 1);
            r.append(piece);
            proof {
                assert(r@ =~= pre.filter(|x: char| x != c).push(s@[i as int]));
            }
        }
        i += 1;
    }
    proof {
        assert(s@.subrange(0, n as int) =~= s@);
    }
    r
}

/// Index of the first newline of `s`, or `s.len()` if there is none.
pub open spec fn spec_first_nl(s: Seq<char>) -> nat
    decreases s.len(),
{
    if s.len() == 0 {
        0
    } else if s[0] == '\n' {
        0
    } else {
        1 + spec_first_nl(s.drop_first())
    }
}

proof fn lemma_first_nl_value(s: Seq<char>, i: int)
    requires
        0 <= i <= s.len(),
        forall|k: int| 0 <= k < i ==> s[k] != '\n',
        i < s.len() ==> s[i] == '\n',
    ensures
        spec_first_nl(s) == i,
    decreases i,
{
    if s.len() == 0 {
    } else if i == 0 {
    } else {
        lemma_first_nl_value(s.drop_first(), i - 1);
    }
}

/// A line with its terminating carriage return, if any, removed.
pub open spec fn spec_strip_cr(s: Seq<char>) -> Seq<char> {
    if s.len() > 0 && s[s.len() - 1] == '\r' {
        s.drop_last()
    } else {
        s
    }
}

/// The lines of `s`: split at each newline, a carriage return before the
/// newline dropped, and no empty line added after a terminating newline.
pub open spec fn spec_lines(s: Seq<char>) -> Seq<Seq<char>>
    decreases s.len(),
{
    if s.len() == 0 {
        Seq::empty()
    } else {
        let i = spec_first_nl(s);
        if i >= s.len() {
            seq![spec_strip_cr(s)]
        } else {
            seq![spec_strip_cr(s.subrange(0, i as int))] + spec_lines(
                s.subrange(i + 1 as int, s.len() as int),
            )
        }
    }
}

/// One line of `s`, ending right before position `end` (exclusive of the
/// newline), with a trailing carriage return removed.
fn take_line(s: &str, start: usize, end: usize) -> (r: String)
    requires
        start <= end <= s@.len(),
    ensures
        r@ == spec_strip_cr(s@.subrange(start as int, end as int)),
{
    let piece = if end > start && s.get_char(end - 1) == '\r' {
        s.substring_char(start, end - 1)
    } else {
        s.substring_char(start, end)
    };
    proof {
        let full = s@.subrange(start as int, end as int);
        if end > start && s@[end - 1] == '\r' {
            assert(full[full.len() - 1] == '\r');
            assert(piece@ =~= full.drop_last());
        }
    }
    piece.to_owned()
}

proof fn lemma_lines_step(s: Seq<char>, start: int, i: int)
    requires
        0 <= start <= i <= s.len(),
        forall|k: int| start <= k < i ==> s[k] != '\n',
        i < s.len() ==> s[i] == '\n',
    ensures
        i < s.len() ==> spec_lines(s.subrange(start, s.len() as int)) == seq![
            spec_strip_cr(s.subrange(start, i)),
        ] + spec_lines(s.subrange(i + 1, s.len() as int)),
        i == s.len() && start < i ==> spec_lines(s.subrange(start, s.len() as int)) == seq![
            spec_strip_cr(s.subrange(start, i)),
        ],
        i == s.len() && start == i ==> spec_lines(s.subrange(start, s.len() as int))
            == Seq::<Seq<char>>::empty(),
{
    let tail = s.subrange(start, s.len() as int);
    assert(forall|k: int| 0 <= k < i - start ==> tail[k] != '\n');
    if i < s.len() {
        assert(tail[i - start] == '\n');
        lemma_first_nl_value(tail, i - start);
        assert(tail.subrange(0, i - start) =~= s.subrange(start, i));
        assert(tail.subrange(i - start + 1, tail.len() as int) =~= s.subrange(
            i + 1,
            s.len() as int,
        ));
    } else if start < i {
        lemma_first_nl_value(tail, i - start);
        assert(tail =~= s.subrange(start, i));
    } else {
        assert(tail.len() == 0);
    }
}

/// The lines of `s`, as [`spec_lines`] describes them.
pub fn split_lines(s: &str) -> (r: Vec<String>)
    ensures
        r@.map_values(|x: String| x@) == spec_lines(s@),
{
    let n = s.unicode_len();
    let mut r: Vec<String> = Vec::new();
    let mut start: usize = 0;
    let mut i: usize = 0;
    proof {
        assert(s@.subrange(0, n as int) =~= s@);
        assert(r@.map_values(|x: String| x@) =~= Seq::<Seq<char>>::empty());
        assert(Seq::<Seq<char>>::empty() + spec_lines(s@) =~= spec_lines(s@));
    }
    while i < n
        invariant
            0 <= start <= i <= n,
            n == s@.len(),
            forall|k: int| start <= k < i ==> s@[k] != '\n',
            spec_lines(s@) == r@.map_values(|x: String| x@) + spec_lines(
                s@.subrange(start as int, n as int),
            ),
        decreases n - i,
    {
        if s.get_char(i) == '\n' {
            let line = take_line(s, start, i);
            let ghost old_r = r@;
            r.push(line);
            proof {
                lemma_lines_step(s@, start as int, i as int);
                assert(r@.map_values(|x: String| x@) =~= old_r.map_values(|x: String| x@)
                    + seq![line@]);
            }
            start = i + 1;
        }
        i += 1;
    }
    if start < n {
        let line = take_line(s, start, n);
        let ghost old_r = r@;
        r.push(line);
        proof {
            lemma_lines_step(s@, start as int, n as int);
            assert(r@.map_values(|x: String| x@) =~= old_r.map_values(|x: String| x@)
                + seq![line@]);
        }
    } else {
        proof {
            lemma_lines_step(s@, start as int, n as int);
        }
    }
    proof {
        assert(r@.map_values(|x: String| x@) =~= spec_lines(s@));
    }
    r
}

/// Whether `p` occurs in `s` at position `i` exactly; `i + p` must lie
/// within `s`.
pub fn str_match_at(s: &str, p: &str, i: usize) -> (r: bool)
    requires
        i + p@.len() <= s@.len(),
    ensures
        r == spec_match_at(s@, p@, i as int),
{
    match_at(s, p, i)
}

/// Whether two strings hold the same characters.
pub fn str_eq(a: &str, b: &str) -> (r: bool)
    ensures
        r == (a@ == b@),
{
    if a.unicode_len() != b.unicode_len() {
        return false;
    }
    let r = match_at(a, b, 0);
    proof {
        if r {
            assert(a@.subrange(0, b@.len() as int) =~= a@);
        } else {
            if a@ == b@ {
                assert(a@.subrange(0, b@.len() as int) =~= b@);
            }
        }
    }
    r
}

/// Whether the string `s` occurs in the vector `v`.
pub fn vec_contains_string(v: &Vec<String>, s: &str) -> (r: bool)
    ensures
        r == v@.map_values(|x: String| x@).contains(s@),
{
    let mut i: usize = 0;
    while i < v.len()
        invariant
            0 <= i <= v@.len(),
            forall|k: int| 0 <= k < i ==> (#[trigger] v@[k])@ != s@,
        decreases v@.len() - i,
    {
        if v[i].as_str().unicode_len() == s.unicode_len() && match_at(v[i].as_str(), s, 0) {
            proof {
                assert(v@[i as int]@ =~= s@);
                assert(v@.map_values(|x: String| x@)[i as int] == s@);
            }
            return true;
        }
        proof {
            if v@[i as int]@ == s@ {
                assert(v@[i as int]@.subrange(0, s@.len() as int) =~= s@);
            }
        }
        i += 1;
    }
    false
}

/// `dir` and `name` joined with a single separating slash.
pub fn path_join(dir: &str, name: &str) -> (r: String)
    ensures
        r@ == dir@ + "/"@ + name@,
{
    let mut r = dir.to_owned();
    r.append("/");
    r.append(name);
    r
}

/// Lexicographic order on character sequences, by code point.
pub open spec fn lex_le(a: Seq<char>, b: Seq<char>) -> bool
    decreases a.len(),
{
    if a.len() == 0 {
        true
    } else if b.len() == 0 {
        false
    } else if a[0] == b[0] {
        lex_le(a.drop_first(), b.drop_first())
    } else {
        a[0] < b[0]
    }
}

/// The lexicographic order is reflexive.
pub proof fn lemma_lex_refl(a: Seq<char>)
    ensures
        lex_le(a, a),
    decreases a.len(),
{
    if a.len() > 0 {
        lemma_lex_refl(a.drop_first());
    }
}

/// The lexicographic order is total.
pub proof fn lemma_lex_total(a: Seq<char>, b: Seq<char>)
    ensures
        lex_le(a, b) || lex_le(b, a),
    decreases a.len(),
{
    if a.len() > 0 && b.len() > 0 && a[0] == b[0] {
        lemma_lex_total(a.drop_first(), b.drop_first());
    }
}

/// The lexicographic order is transitive.
pub proof fn lemma_lex_transitive(a: Seq<char>, b: Seq<char>, c: Seq<char>)
    requires
        lex_le(a, b),
        lex_le(b, c),
    ensures
        lex_le(a, c),
    decreases a.len(),
{
    if a.len() > 0 && b.len() > 0 && c.len() > 0 && a[0] == b[0] && b[0] == c[0] {
        lemma_lex_transitive(a.drop_first(), b.drop_first(), c.drop_first());
    }
}

/// Whether `a` comes no later than `b` in lexicographic order.
pub fn str_le(a: &str, b: &str) -> (r: bool)
    ensures
        r == lex_le(a@, b@),
{
    let na = a.unicode_len();
    let nb = b.unicode_len();
    let mut i: usize = 0;
    proof {
        assert(a@.subrange(0, na as int) =~= a@);
        assert(b@.subrange(0, nb as int) =~= b@);
    }
    while i < na && i < nb
        invariant
            0 <= i <= na,
            0 <= i <= nb,
            na == a@.len(),
            nb == b@.len(),
            lex_le(a@, b@) == lex_le(
                a@.subrange(i as int, na as int),
                b@.subrange(i as int, nb as int),
            ),
        decreases na - i,
    {
        let ca = a.get_char(i);
        let cb = b.get_char(i);
        let ghost ta = a@.subrange(i as int, na as int);
        let ghost tb = b@.subrange(i as int, nb as int);
        proof {
            assert(ta[0] == a@[i as int]);
            assert(tb[0] == b@[i as int]);
        }
        if ca != cb {
            return ca < cb;
        }
        proof {
            assert(ta.drop_first() =~= a@.subrange(i + 1 as int, na as int));
            assert(tb.drop_first() =~= b@.subrange(i + 1 as int, nb as int));
        }
        i += 1;
    }
    proof {
        if i == na {
            assert(a@.subrange(i as int, na as int).len() == 0);
        } else {
            assert(b@.subrange(i as int, nb as int).len() == 0);
            assert(a@.subrange(i as int, na as int).len() > 0);
        }
    }
    na <= nb
}

/// Index of a least element of `v` under the lexicographic order.
fn min_string_index(v: &Vec<String>) -> (r: usize)
    requires
        v@.len() > 0,
    ensures
        r < v@.len(),
        forall|k: int| 0 <= k < v@.len() ==> lex_le(v@[r as int]@, (#[trigger] v@[k])@),
{
    let mut best: usize = 0;
    let mut i: usize = 1;
    proof {
        lemma_lex_refl(v@[0]@);
    }
    while i < v.len()
        invariant
            0 <= best < i <= v@.len(),
            forall|k: int| 0 <= k < i ==> lex_le(v@[best as int]@, (#[trigger] v@[k])@),
        decreases v@.len() - i,
    {
        let keep = str_le(v[best].as_str(), v[i].as_str());
        if !keep {
            proof {
                lemma_lex_total(v@[best as int]@, v@[i as int]@);
            }
            let ghost old_best = best as int;
            best = i;
            proof {
                assert forall|k: int| 0 <= k < i + 1 implies lex_le(
                    v@[best as int]@,
                    (#[trigger] v@[k])@,
                ) by {
                    if k < i {
                        lemma_lex_transitive(v@[best as int]@, v@[old_best]@, v@[k]@);
                    } else {
                        lemma_lex_refl(v@[best as int]@);
                    }
                }
            }
        }
        i += 1;
    }
    best
}

/// `v` reordered into ascending lexicographic order: same strings with the
/// same multiplicities, each no later than the next.
pub fn sorted_strings(v: Vec<String>) -> (r: Vec<String>)
    ensures
        r@.map_values(|s: String| s@).to_multiset() == v@.map_values(
            |s: String| s@,
        ).to_multiset(),
        forall|i: int, j: int|
            0 <= i <= j < r@.len() ==> lex_le((#[trigger] r@[i])@, (#[trigger] r@[j])@),
{
    broadcast use vstd::seq_lib::group_to_multiset_ensures;

    let ghost orig = v@.map_values(|s: String| s@);
    let mut rest = v;
    let mut out: Vec<String> = Vec::new();
    proof {
        assert(out@.map_values(|s: String| s@) =~= Seq::<Seq<char>>::empty());
        assert(out@.map_values(|s: String| s@).to_multiset().add(
            rest@.map_values(|s: String| s@).to_multiset(),
        ) =~= orig.to_multiset());
    }
    while rest.len() > 0
        invariant
            out@.map_values(|s: String| s@).to_multiset().add(
                rest@.map_values(|s: String| s@).to_multiset(),
            ) == orig.to_multiset(),
            forall|i: int, j: int|
                0 <= i <= j < out@.len() ==> lex_le((#[trigger] out@[i])@, (#[trigger] out@[j])@),
            forall|i: int, k: int|
                0 <= i < out@.len() && 0 <= k < rest@.len() ==> lex_le(
                    (#[trigger] out@[i])@,
                    (#[trigger] rest@[k])@,
                ),
        decreases rest@.len(),
    {
        broadcast use vstd::seq_lib::group_to_multiset_ensures;

        let idx = min_string_index(&rest);
        let ghost out_old = out@;
        let ghost rest_old = rest@;
        let m = rest.remove(idx);
        let ghost m_model = m@;
        out.push(m);
        proof {
            let f = |s: String| s@;
            assert(rest_old.map_values(f).remove(idx as int) =~= rest@.map_values(f));
            assert(rest_old.map_values(f)[idx as int] == m_model);
            assert(out@.map_values(f) =~= out_old.map_values(f).push(m_model));
            assert(out@.map_values(f).to_multiset() =~= out_old.map_values(
                f,
            ).to_multiset().insert(m_model));
            assert(rest@.map_values(f).to_multiset() =~= rest_old.map_values(
                f,
            ).to_multiset().remove(m_model));
            assert(rest_old.map_values(f).to_multiset().count(m_model) > 0);
            assert(out@.map_values(f).to_multiset().add(rest@.map_values(f).to_multiset())
                =~= orig.to_multiset());
            assert(out@[out@.len() - 1] == m);
            assert forall|i: int, j: int|
                0 <= i <= j < out@.len() implies lex_le(
                (#[trigger] out@[i])@,
                (#[trigger] out@[j])@,
            ) by {
                if j == out@.len() - 1 && i < j {
                    assert(lex_le(out_old[i]@, rest_old[idx as int]@));
                }
            }
            assert forall|i: int, k: int|
                0 <= i < out@.len() && 0 <= k < rest@.len() implies lex_le(
                (#[trigger] out@[i])@,
                (#[trigger] rest@[k])@,
            ) by {
                let r_val = rest@[k];
                if k < idx {
                    assert(rest_old[k] == r_val);
                } else {
                    assert(rest_old[k + 1] == r_val);
                }
                if i == out@.len() - 1 {
                    if k < idx {
                        assert(lex_le(rest_old[idx as int]@, rest_old[k]@));
                    } else {
                        assert(lex_le(rest_old[idx as int]@, rest_old[k + 1]@));
                    }
                } else {
                    if k < idx {
                        assert(lex_le(out_old[i]@, rest_old[k]@));
                    } else {
                        assert(lex_le(out_old[i]@, rest_old[k + 1]@));
                    }
                }
            }
        }
    }
    proof {
        assert(rest@.map_values(|s: String| s@) =~= Seq::<Seq<char>>::empty());
        assert(out@.map_values(|s: String| s@).to_multiset().add(
            Seq::<Seq<char>>::empty().to_multiset(),
        ) =~= out@.map_values(|s: String| s@).to_multiset());
    }
    out
}

} // verus!
