//! Character-level text utilities: lowercasing, substring search, trimming,
//! line splitting and joining, and decimal formatting.
//!
//! All executable functions work over `Vec<char>` so that their contracts can
//! speak directly about the `Seq<char>` view of the strings they came from.

use vstd::prelude::*;

verus! {

// ---------------------------------------------------------------------------
// Lowercasing (ASCII)
// ---------------------------------------------------------------------------

/// ASCII lowercasing of one character; any other character, including
/// non-ASCII letters, is unchanged.  Case folding here is deliberately
/// ASCII-only: the keyword and path tables it serves are ASCII.
pub open spec fn spec_lower_char(c: char) -> char {
    if 'A' <= c && c <= 'Z' {
        (((c as u32) + 32) as char)
    } else {
        c
    }
}

/// ASCII lowercasing of a whole character sequence.
pub open spec fn spec_lower(s: Seq<char>) -> Seq<char> {
    s.map_values(|c: char| spec_lower_char(c))
}

pub fn lower_char(c: char) -> (r: char)
    ensures
        r == spec_lower_char(c),
{
    if 'A' <= c && c <= 'Z' {
        (((c as u32) + 32) as u8) as char
    } else {
        c
    }
}

pub fn lower_chars(v: &Vec<char>) -> (r: Vec<char>)
    ensures
        r@ == spec_lower(v@),
{
    let mut r: Vec<char> = Vec::new();
    let mut i: usize = 0;
    while i < v.len()
        invariant
            i <= v.len(),
            r@ == spec_lower(v@.subrange(0, i as int)),
        decreases v.len() - i,
    {
        r.push(lower_char(v[i]));
        proof {
            assert(spec_lower(v@.subrange(0, i + 1)) =~= spec_lower(v@.subrange(0, i as int)).push(
                spec_lower_char(v@[i as int]),
            ));
        }
        i = i + 1;
    }
    proof {
        assert(v@.subrange(0, v@.len() as int) =~= v@);
    }
    r
}

/// ASCII uppercasing of one character; any other character, including
/// non-ASCII letters, is unchanged.
pub open spec fn spec_upper_char(c: char) -> char {
    if 'a' <= c && c <= 'z' {
        (((c as u32) - 32) as char)
    } else {
        c
    }
}

/// ASCII uppercasing of a whole character sequence.
pub open spec fn spec_upper(s: Seq<char>) -> Seq<char> {
    s.map_values(|c: char| spec_upper_char(c))
}

pub fn upper_char(c: char) -> (r: char)
    ensures
        r == spec_upper_char(c),
{
    if 'a' <= c && c <= 'z' {
        (((c as u32) - 32) as u8) as char
    } else {
        c
    }
}

pub fn upper_chars(v: &Vec<char>) -> (r: Vec<char>)
    ensures
        r@ == spec_upper(v@),
{
    let mut r: Vec<char> = Vec::new();
    let mut i: usize = 0;
    while i < v.len()
        invariant
            i <= v.len(),
            r@ == spec_upper(v@.subrange(0, i as int)),
        decreases v.len() - i,
    {
        r.push(upper_char(v[i]));
        proof {
            assert(spec_upper(v@.subrange(0, i + 1)) =~= spec_upper(v@.subrange(0, i as int)).push(
                spec_upper_char(v@[i as int]),
            ));
        }
        i = i + 1;
    }
    proof {
        assert(v@.subrange(0, v@.len() as int) =~= v@);
    }
    r
}

// ---------------------------------------------------------------------------
// Conversions between strings and character vectors
// ---------------------------------------------------------------------------

pub fn to_chars(s: &str) -> (r: Vec<char>)
    ensures
        r@ == s@,
{
    let n = s.unicode_len();
    let mut r: Vec<char> = Vec::new();
    let mut i: usize = 0;
    while i < n
        invariant
            i <= n,
            n == s@.len(),
            r@ == s@.subrange(0, i as int),
        decreases n - i,
    {
        r.push(s.get_char(i));
        proof {
            assert(s@.subrange(0, i + 1) =~= s@.subrange(0, i as int).push(s@[i as int]));
        }
        i = i + 1;
    }
    proof {
        assert(s@.subrange(0, s@.len() as int) =~= s@);
    }
    r
}

/// Relies on std's `FromIterator for String`: collecting characters yields the
/// string whose characters are exactly the collected sequence.
#[verifier::external_body]
pub fn chars_to_string(v: &Vec<char>) -> (r: String)
    ensures
        r@ == v@,
{
    v.iter().collect()
}

/// Relies on std's `PartialEq for str`: slices are equal exactly when their
/// character sequences are equal.
#[verifier::external_body]
pub fn str_eq(a: &str, b: &str) -> (r: bool)
    ensures
        r == (a@ == b@),
{
    a == b
}

// ---------------------------------------------------------------------------
// Substring search
// ---------------------------------------------------------------------------

/// `needle` occurs in `hay` starting at position `i`.
pub open spec fn spec_match_at(hay: Seq<char>, needle: Seq<char>, i: int) -> bool {
    0 <= i && i + needle.len() <= hay.len() && hay.subrange(i, i + needle.len()) == needle
}

/// `needle` occurs somewhere in `hay`.
pub open spec fn spec_contains(hay: Seq<char>, needle: Seq<char>) -> bool {
    exists|i: int| spec_match_at(hay, needle, i)
}

pub(crate) fn match_at(hay: &Vec<char>, needle: &Vec<char>, i: usize) -> (r: bool)
    requires
        i + needle@.len() <= hay@.len(),
    ensures
        r == spec_match_at(hay@, needle@, i as int),
{
    let mut j: usize = 0;
    while j < needle.len()
        invariant
            j <= needle@.len(),
            i + needle@.len() <= hay@.len(),
            forall|k: int| 0 <= k < j ==> hay@[i + k] == needle@[k],
        decreases needle.len() - j,
    {
        proof {
            assert(i + j < hay.len());
        }
        if hay[i + j] != needle[j] {
            proof {
                assert(hay@.subrange(i as int, i + needle@.len())[j as int] == hay@[i + j]);
            }
            return false;
        }
        j = j + 1;
    }
    proof {
        assert(hay@.subrange(i as int, i + needle@.len()) =~= needle@);
    }
    true
}

pub fn chars_contains(hay: &Vec<char>, needle: &Vec<char>) -> (r: bool)
    ensures
        r == spec_contains(hay@, needle@),
{
    if needle.len() == 0 {
        proof {
            assert(spec_match_at(hay@, needle@, 0)) by {
                assert(hay@.subrange(0, 0) =~= needle@);
            }
        }
        return true;
    }
    if needle.len() > hay.len() {
        return false;
    }
    let last = hay.len() - needle.len();
    let mut i: usize = 0;
    while i <= last
        invariant
            i <= last + 1,
            last == hay@.len() - needle@.len(),
            needle@.len() >= 1,
            forall|k: int| 0 <= k < i ==> !spec_match_at(hay@, needle@, k),
        decreases last + 1 - i,
    {
        if match_at(hay, needle, i) {
            return true;
        }
        proof {
            assert(last < hay.len());
        }
        i = i + 1;
    }
    false
}

/// Search for a literal inside a character vector.
pub fn chars_contains_str(hay: &Vec<char>, needle: &str) -> (r: bool)
    ensures
        r == spec_contains(hay@, needle@),
{
    let n = to_chars(needle);
    chars_contains(hay, &n)
}

// ---------------------------------------------------------------------------
// Prefix and suffix tests
// ---------------------------------------------------------------------------

pub open spec fn spec_starts_with(s: Seq<char>, prefix: Seq<char>) -> bool {
    prefix.len() <= s.len() && s.subrange(0, prefix.len() as int) == prefix
}

pub open spec fn spec_ends_with(s: Seq<char>, suffix: Seq<char>) -> bool {
    suffix.len() <= s.len() && s.subrange(s.len() - suffix.len(), s.len() as int) == suffix
}

pub fn chars_starts_with(s: &Vec<char>, prefix: &Vec<char>) -> (r: bool)
    ensures
        r == spec_starts_with(s@, prefix@),
{
    if prefix.len() > s.len() {
        return false;
    }
    match_at(s, prefix, 0)
}

pub fn chars_starts_with_str(s: &Vec<char>, prefix: &str) -> (r: bool)
    ensures
        r == spec_starts_with(s@, prefix@),
{
    let p = to_chars(prefix);
    chars_starts_with(s, &p)
}

pub fn chars_ends_with(s: &Vec<char>, suffix: &Vec<char>) -> (r: bool)
    ensures
        r == spec_ends_with(s@, suffix@),
{
    if suffix.len() > s.len() {
        return false;
    }
    let start = s.len() - suffix.len();
    let mut j: usize = 0;
    while j < suffix.len()
        invariant
            j <= suffix@.len(),
            start == s@.len() - suffix@.len(),
            forall|k: int| 0 <= k < j ==> s@[start + k] == suffix@[k],
        decreases suffix.len() - j,
    {
        proof {
            assert(start + j < s.len());
        }
        if s[start + j] != suffix[j] {
            proof {
                assert(s@.subrange(start as int, s@.len() as int)[j as int] == s@[start + j]);
            }
            return false;
        }
        j = j + 1;
    }
    proof {
        assert(s@.subrange(start as int, s@.len() as int) =~= suffix@);
    }
    true
}

pub fn chars_ends_with_str(s: &Vec<char>, suffix: &str) -> (r: bool)
    ensures
        r == spec_ends_with(s@, suffix@),
{
    let p = to_chars(suffix);
    chars_ends_with(s, &p)
}

pub fn chars_eq(a: &Vec<char>, b: &Vec<char>) -> (r: bool)
    ensures
        r == (a@ == b@),
{
    if a.len() != b.len() {
        return false;
    }
    let mut j: usize = 0;
    while j < a.len()
        invariant
            j <= a@.len(),
            a@.len() == b@.len(),
            forall|k: int| 0 <= k < j ==> a@[k] == b@[k],
        decreases a.len() - j,
    {
        if a[j] != b[j] {
            return false;
        }
        j = j + 1;
    }
    proof {
        assert(a@ =~= b@);
    }
    true
}

pub fn chars_eq_str(a: &Vec<char>, b: &str) -> (r: bool)
    ensures
        r == (a@ == b@),
{
    let p = to_chars(b);
    chars_eq(a, &p)
}

// ---------------------------------------------------------------------------
// Trimming (ASCII whitespace)
// ---------------------------------------------------------------------------

pub open spec fn spec_is_ws(c: char) -> bool {
    c == ' ' || c == '\t' || c == '\n' || c == '\r'
}

pub open spec fn spec_trim_front(s: Seq<char>) -> Seq<char>
    decreases s.len(),
{
    if s.len() > 0 && spec_is_ws(s[0]) {
        spec_trim_front(s.drop_first())
    } else {
        s
    }
}

pub open spec fn spec_trim_back(s: Seq<char>) -> Seq<char>
    decreases s.len(),
{
    if s.len() > 0 && spec_is_ws(s.last()) {
        spec_trim_back(s.drop_last())
    } else {
        s
    }
}

/// Both-ends trim of ASCII whitespace.
pub open spec fn spec_trim(s: Seq<char>) -> Seq<char> {
    spec_trim_back(spec_trim_front(s))
}

fn is_ws(c: char) -> (r: bool)
    ensures
        r == spec_is_ws(c),
{
    c == ' ' || c == '\t' || c == '\n' || c == '\r'
}

proof fn lemma_trim_front_subrange(s: Seq<char>, i: int)
    requires
        0 <= i <= s.len(),
        forall|k: int| 0 <= k < i ==> spec_is_ws(s[k]),
    ensures
        spec_trim_front(s) == spec_trim_front(s.subrange(i, s.len() as int)),
    decreases i,
{
    if i > 0 {
        assert(spec_is_ws(s[0]));
        assert(spec_trim_front(s) == spec_trim_front(s.drop_first()));
        assert(s.drop_first().subrange(i - 1, s.drop_first().len() as int) =~= s.subrange(
            i,
            s.len() as int,
        ));
        lemma_trim_front_subrange(s.drop_first(), i - 1);
    } else {
        assert(s.subrange(0, s.len() as int) =~= s);
    }
}

proof fn lemma_trim_back_subrange(s: Seq<char>, j: int)
    requires
        0 <= j <= s.len(),
        forall|k: int| j <= k < s.len() ==> spec_is_ws(s[k]),
    ensures
        spec_trim_back(s) == spec_trim_back(s.subrange(0, j)),
    decreases s.len() - j,
{
    if j < s.len() {
        assert(spec_is_ws(s.last()));
        assert(spec_trim_back(s) == spec_trim_back(s.drop_last()));
        assert(s.drop_last().subrange(0, j) =~= s.subrange(0, j));
        lemma_trim_back_subrange(s.drop_last(), j);
    } else {
        assert(s.subrange(0, s.len() as int) =~= s);
    }
}

pub fn chars_trim(s: &Vec<char>) -> (r: Vec<char>)
    ensures
        r@ == spec_trim(s@),
{
    let mut a: usize = 0;
    while a < s.len() && is_ws(s[a])
        invariant
            a <= s@.len(),
            forall|k: int| 0 <= k < a ==> spec_is_ws(s@[k]),
        decreases s.len() - a,
    {
        a = a + 1;
    }
    proof {
        lemma_trim_front_subrange(s@, a as int);
    }
    // Characters before `a` are whitespace; `a` is the first kept position.
    let mut b: usize = s.len();
    while b > a && is_ws(s[b - 1])
        invariant
            a <= b <= s@.len(),
            forall|k: int| 0 <= k < a ==> spec_is_ws(s@[k]),
            forall|k: int| b <= k < s@.len() ==> spec_is_ws(s@[k]),
        decreases b,
    {
        b = b - 1;
    }
    let ghost tail = s@.subrange(a as int, s@.len() as int);
    proof {
        if a < s@.len() {
            assert(!spec_is_ws(s@[a as int]));
            assert(tail[0] == s@[a as int]);
            assert(spec_trim_front(tail) == tail);
        } else {
            assert(tail.len() == 0);
            assert(spec_trim_front(tail) == tail);
        }
        // trim_back of tail cuts exactly at b.
        assert(forall|k: int| b - a <= k < tail.len() ==> spec_is_ws(#[trigger] tail[k]));
        lemma_trim_back_subrange(tail, b - a);
        if b > a {
            assert(!spec_is_ws(s@[b - 1]));
            let cut = tail.subrange(0, b - a);
            assert(cut.last() == s@[b - 1]);
            assert(spec_trim_back(cut) == cut);
        } else {
            let cut = tail.subrange(0, 0);
            assert(spec_trim_back(cut) == cut);
        }
    }
    let mut r: Vec<char> = Vec::new();
    let mut i: usize = a;
    while i < b
        invariant
            a <= i <= b <= s@.len(),
            r@ == s@.subrange(a as int, i as int),
        decreases b - i,
    {
        r.push(s[i]);
        proof {
            assert(s@.subrange(a as int, i + 1) =~= s@.subrange(a as int, i as int).push(
                s@[i as int],
            ));
        }
        i = i + 1;
    }
    proof {
        assert(r@ =~= s@.subrange(a as int, s@.len() as int).subrange(0, b - a));
    }
    r
}

// ---------------------------------------------------------------------------
// Line splitting and joining
// ---------------------------------------------------------------------------

/// Index of the first newline in `s`, or -1 if there is none.
pub open spec fn spec_first_nl(s: Seq<char>) -> int
    decreases s.len(),
{
    if s.len() == 0 {
        -1
    } else if s[0] == '\n' {
        0
    } else {
        let r = spec_first_nl(s.drop_first());
        if r < 0 {
            -1
        } else {
            r + 1
        }
    }
}

pub proof fn lemma_first_nl_bounds(s: Seq<char>)
    ensures
        -1 <= spec_first_nl(s) < s.len(),
        spec_first_nl(s) >= 0 ==> s[spec_first_nl(s)] == '\n',
        forall|k: int| 0 <= k < spec_first_nl(s) ==> s[k] != '\n',
        spec_first_nl(s) == -1 ==> forall|k: int| 0 <= k < s.len() ==> s[k] != '\n',
    decreases s.len(),
{
    if s.len() > 0 && s[0] != '\n' {
        let t = s.drop_first();
        lemma_first_nl_bounds(t);
        assert(forall|k: int| 1 <= k < s.len() ==> s[k] == t[k - 1]);
        let r = spec_first_nl(t);
        if r >= 0 {
            assert forall|k: int| 0 <= k < spec_first_nl(s) implies s[k] != '\n' by {
                if k >= 1 {
                    assert(s[k] == t[k - 1]);
                }
            }
        } else {
            assert forall|k: int| 0 <= k < s.len() implies s[k] != '\n' by {
                if k >= 1 {
                    assert(s[k] == t[k - 1]);
                }
            }
        }
    }
}

/// A line's trailing carriage return is dropped when the line was ended by
/// a newline ("\r\n" line endings).
pub open spec fn spec_strip_cr(l: Seq<char>) -> Seq<char> {
    if l.len() > 0 && l.last() == '\r' {
        l.drop_last()
    } else {
        l
    }
}

/// The lines of `s`, split at newlines, with "\r\n" treated as one line
/// ending; a final segment without a newline is kept only if non-empty.
pub open spec fn spec_lines(s: Seq<char>) -> Seq<Seq<char>>
    decreases s.len(),
    via spec_lines_dec
{
    if s.len() == 0 {
        Seq::empty()
    } else {
        let i = spec_first_nl(s);
        if i < 0 {
            seq![s]
        } else {
            seq![spec_strip_cr(s.subrange(0, i))] + spec_lines(s.subrange(i + 1, s.len() as int))
        }
    }
}

#[via_fn]
proof fn spec_lines_dec(s: Seq<char>) {
    lemma_first_nl_bounds(s);
}

proof fn lemma_lines_step(cur: Seq<char>, rest: Seq<char>)
    requires
        forall|k: int| 0 <= k < cur.len() ==> cur[k] != '\n',
    ensures
        spec_lines(cur + seq!['\n'] + rest) == seq![spec_strip_cr(cur)] + spec_lines(rest),
{
    let s = cur + seq!['\n'] + rest;
    assert(s.len() > 0);
    assert(s[cur.len() as int] == '\n');
    lemma_first_nl_bounds(s);
    let i = spec_first_nl(s);
    assert(i >= 0);
    assert(forall|k: int| 0 <= k < cur.len() ==> s[k] == cur[k]);
    if i < cur.len() {
        assert(s[i] == cur[i]);
        assert(false);
    }
    assert(i == cur.len());
    assert(s.subrange(0, i) =~= cur);
    assert(s.subrange(i + 1, s.len() as int) =~= rest);
}

proof fn lemma_lines_no_nl(cur: Seq<char>)
    requires
        forall|k: int| 0 <= k < cur.len() ==> cur[k] != '\n',
    ensures
        spec_lines(cur) == if cur.len() == 0 {
            Seq::<Seq<char>>::empty()
        } else {
            seq![cur]
        },
{
    lemma_first_nl_bounds(cur);
    if cur.len() > 0 {
        let i = spec_first_nl(cur);
        if i >= 0 {
            assert(cur[i] == '\n');
            assert(false);
        }
    }
}

/// Split text into its lines.
pub fn split_lines(s: &Vec<char>) -> (r: Vec<Vec<char>>)
    ensures
        r.deep_view() == spec_lines(s@),
{
    let mut done: Vec<Vec<char>> = Vec::new();
    let mut cur: Vec<char> = Vec::new();
    let mut i: usize = 0;
    proof {
        assert(done.deep_view() =~~= Seq::<Seq<char>>::empty());
        assert(cur@ + s@.subrange(0, s@.len() as int) =~= s@);
        assert(Seq::<Seq<char>>::empty() + spec_lines(s@) =~= spec_lines(s@));
    }
    while i < s.len()
        invariant
            i <= s@.len(),
            forall|k: int| 0 <= k < cur@.len() ==> cur@[k] != '\n',
            spec_lines(s@) == done.deep_view() + spec_lines(
                cur@ + s@.subrange(i as int, s@.len() as int),
            ),
        decreases s.len() - i,
    {
        let c = s[i];
        let ghost old_cur = cur@;
        let ghost old_done = done.deep_view();
        let ghost rest = s@.subrange(i as int, s@.len() as int);
        let ghost rest1 = s@.subrange(i + 1, s@.len() as int);
        proof {
            assert(rest =~= seq![s@[i as int]] + rest1);
        }
        if c == '\n' {
            let mut line = cur;
            cur = Vec::new();
            if line.len() > 0 && line[line.len() - 1] == '\r' {
                line.pop();
                proof {
                    assert(line@ =~= spec_strip_cr(old_cur));
                }
            }
            proof {
                assert(line@ == spec_strip_cr(old_cur));
            }
            done.push(line);
            proof {
                assert(old_cur + seq!['\n'] + rest1 =~= old_cur + rest);
                lemma_lines_step(old_cur, rest1);
                assert(done.deep_view() =~~= old_done + seq![spec_strip_cr(old_cur)]);
                assert(cur@ + rest1 =~= rest1);
                assert((old_done + seq![spec_strip_cr(old_cur)]) + spec_lines(rest1)
                    =~= old_done + (seq![spec_strip_cr(old_cur)] + spec_lines(rest1)));
            }
        } else {
            cur.push(c);
            proof {
                assert(cur@ + rest1 =~= old_cur + rest);
            }
        }
        i = i + 1;
    }
    proof {
        let tail = s@.subrange(s@.len() as int, s@.len() as int);
        assert(cur@ + tail =~= cur@);
        lemma_lines_no_nl(cur@);
    }
    if cur.len() > 0 {
        let ghost old_done = done.deep_view();
        proof {
            assert(old_done + seq![cur@] =~= old_done + spec_lines(cur@));
        }
        done.push(cur);
        proof {
            assert(done.deep_view() =~~= old_done + seq![done@[done@.len() - 1]@]);
        }
    } else {
        proof {
            assert(done.deep_view() + Seq::<Seq<char>>::empty() =~= done.deep_view());
        }
    }
    done
}

/// Lines joined with single newlines (no trailing newline).
pub open spec fn spec_join_nl(lines: Seq<Seq<char>>) -> Seq<char>
    decreases lines.len(),
{
    if lines.len() == 0 {
        Seq::empty()
    } else if lines.len() == 1 {
        lines[0]
    } else {
        lines[0] + seq!['\n'] + spec_join_nl(lines.drop_first())
    }
}

proof fn lemma_join_nl_push(lines: Seq<Seq<char>>, x: Seq<char>)
    ensures
        spec_join_nl(lines.push(x)) == if lines.len() == 0 {
            x
        } else {
            spec_join_nl(lines) + seq!['\n'] + x
        },
    decreases lines.len(),
{
    if lines.len() == 0 {
        assert(lines.push(x)[0] == x);
    } else if lines.len() == 1 {
        assert(lines.push(x).drop_first() =~= seq![x]);
        assert(spec_join_nl(seq![x]) == x);
        assert(lines.push(x)[0] == lines[0]);
    } else {
        lemma_join_nl_push(lines.drop_first(), x);
        assert(lines.push(x).drop_first() =~= lines.drop_first().push(x));
        assert(lines.push(x)[0] == lines[0]);
    }
}

/// Join the line range `[from, to)` with newlines.
pub fn join_nl_range(lines: &Vec<Vec<char>>, from: usize, to: usize) -> (r: Vec<char>)
    requires
        from <= to <= lines@.len(),
    ensures
        r@ == spec_join_nl(lines.deep_view().subrange(from as int, to as int)),
{
    let mut r: Vec<char> = Vec::new();
    let mut k: usize = from;
    while k < to
        invariant
            from <= k <= to <= lines@.len(),
            lines.deep_view().len() == lines@.len(),
            r@ == spec_join_nl(lines.deep_view().subrange(from as int, k as int)),
        decreases to - k,
    {
        let ghost done = lines.deep_view().subrange(from as int, k as int);
        if k > from {
            r.push('\n');
        }
        let line = &lines[k];
        let mut j: usize = 0;
        let ghost base = r@;
        while j < line.len()
            invariant
                j <= line@.len(),
                r@ == base + line@.subrange(0, j as int),
            decreases line.len() - j,
        {
            r.push(line[j]);
            proof {
                assert(base + line@.subrange(0, j + 1) =~= (base + line@.subrange(
                    0,
                    j as int,
                )).push(line@[j as int]));
            }
            j = j + 1;
        }
        proof {
            assert(line@.subrange(0, line@.len() as int) =~= line@);
            assert(lines.deep_view()[k as int] == line@);
            lemma_join_nl_push(done, line@);
            assert(lines.deep_view().subrange(from as int, k + 1) =~= done.push(line@));
            if k > from {
                assert(r@ =~= spec_join_nl(done) + seq!['\n'] + line@);
            } else {
                assert(done.len() == 0);
                assert(r@ =~= line@);
            }
        }
        k = k + 1;
    }
    r
}

// ---------------------------------------------------------------------------
// Decimal formatting
// ---------------------------------------------------------------------------

pub open spec fn spec_digit_char(d: int) -> char {
    ((d + 48) as char)
}

/// Decimal digit characters of `n`, most significant first.
pub open spec fn spec_decimal(n: nat) -> Seq<char>
    decreases n,
{
    if n < 10 {
        seq![spec_digit_char(n as int)]
    } else {
        spec_decimal(n / 10) + seq![spec_digit_char((n % 10) as int)]
    }
}

/// Render a number in decimal.
pub fn decimal_chars(n: u64) -> (r: Vec<char>)
    ensures
        r@ == spec_decimal(n as nat),
{
    let mut rev: Vec<char> = Vec::new();
    let mut m: u64 = n;
    if m == 0 {
        let mut r: Vec<char> = Vec::new();
        r.push('0');
        proof {
            assert(spec_decimal(0) =~= seq!['0']);
            assert(r@ =~= seq!['0']);
        }
        return r;
    }
    while m > 0
        invariant
            m <= n,
            m > 0 ==> spec_decimal(n as nat) == spec_decimal(m as nat) + rev@.reverse(),
            m == 0 ==> n > 0 && spec_decimal(n as nat) == rev@.reverse(),
        decreases m,
    {
        let d = m % 10;
        let ghost old_rev = rev@;
        rev.push((((d + 48) as u8) as char));
        proof {
            assert(rev@.reverse() =~= seq![spec_digit_char(d as int)] + old_rev.reverse());
            if m >= 10 {
                assert(spec_decimal(m as nat) == spec_decimal((m / 10) as nat) + seq![
                    spec_digit_char((m % 10) as int),
                ]);
                assert(spec_decimal((m / 10) as nat) + (seq![spec_digit_char(d as int)]
                    + old_rev.reverse()) =~= (spec_decimal((m / 10) as nat) + seq![
                    spec_digit_char(d as int),
                ]) + old_rev.reverse());
            } else {
                assert(spec_decimal(m as nat) == seq![spec_digit_char(d as int)]);
                assert(seq![spec_digit_char(d as int)] + old_rev.reverse() =~= spec_decimal(
                    m as nat,
                ) + old_rev.reverse());
            }
        }
        m = m / 10;
    }
    let mut r: Vec<char> = Vec::new();
    let mut i: usize = rev.len();
    while i > 0
        invariant
            i <= rev@.len(),
            r@ == rev@.reverse().subrange(0, rev@.len() - i),
        decreases i,
    {
        i = i - 1;
        r.push(rev[i]);
        proof {
            assert(rev@.reverse()[rev@.len() - i - 1] == rev@[i as int]);
            assert(rev@.reverse().subrange(0, rev@.len() - i) =~= rev@.reverse().subrange(
                0,
                rev@.len() - i - 1,
            ).push(rev@[i as int]));
        }
    }
    proof {
        assert(r@ =~= rev@.reverse());
    }
    r
}

// ---------------------------------------------------------------------------
// Appending helpers
// ---------------------------------------------------------------------------

/// Append all of `src` to `dst`.
pub fn push_all(dst: &mut Vec<char>, src: &Vec<char>)
    ensures
        final(dst)@ == old(dst)@ + src@,
{
    let mut j: usize = 0;
    while j < src.len()
        invariant
            j <= src@.len(),
            dst@ == old(dst)@ + src@.subrange(0, j as int),
        decreases src.len() - j,
    {
        dst.push(src[j]);
        proof {
            assert(old(dst)@ + src@.subrange(0, j + 1) =~= (old(dst)@ + src@.subrange(
                0,
                j as int,
            )).push(src@[j as int]));
        }
        j = j + 1;
    }
    proof {
        assert(src@.subrange(0, src@.len() as int) =~= src@);
    }
}

/// Append a literal to `dst`.
pub fn push_str(dst: &mut Vec<char>, src: &str)
    ensures
        final(dst)@ == old(dst)@ + src@,
{
    let v = to_chars(src);
    push_all(dst, &v);
}

} // verus!
