//! Pulling a JSON object out of a model response that may wrap it in a
//! markdown code fence or surround it with prose.

use vstd::prelude::*;
use crate::text::{
    spec_lines, spec_join_nl, spec_contains, to_chars, chars_to_string, split_lines,
    join_nl_range, chars_contains_str,
};

verus! {

/// Index of the first occurrence of `c` in `s`, or -1.
pub open spec fn spec_first_idx(s: Seq<char>, c: char) -> int
    decreases s.len(),
{
    if s.len() == 0 {
        -1
    } else if s[0] == c {
        0
    } else {
        let r = spec_first_idx(s.drop_first(), c);
        if r < 0 {
            -1
        } else {
            r + 1
        }
    }
}

/// Index of the last occurrence of `c` in `s`, or -1.
pub open spec fn spec_last_idx(s: Seq<char>, c: char) -> int
    decreases s.len(),
{
    if s.len() == 0 {
        -1
    } else if s.last() == c {
        s.len() - 1
    } else {
        spec_last_idx(s.drop_last(), c)
    }
}

proof fn lemma_first_idx_bounds(s: Seq<char>, c: char)
    ensures
        -1 <= spec_first_idx(s, c) < s.len(),
        spec_first_idx(s, c) >= 0 ==> s[spec_first_idx(s, c)] == c,
    decreases s.len(),
{
    if s.len() > 0 && s[0] != c {
        lemma_first_idx_bounds(s.drop_first(), c);
    }
}

proof fn lemma_last_idx_bounds(s: Seq<char>, c: char)
    ensures
        -1 <= spec_last_idx(s, c) < s.len(),
        spec_last_idx(s, c) >= 0 ==> s[spec_last_idx(s, c)] == c,
    decreases s.len(),
{
    if s.len() > 0 && s.last() != c {
        lemma_last_idx_bounds(s.drop_last(), c);
    }
}

/// What `extract_json` returns: the fenced block's inner lines when the
/// response opens with a code fence, else the text from the first `{` to
/// the last `}` when that range is sensible, else the response unchanged.
pub open spec fn spec_extract_json(s: Seq<char>) -> Seq<char> {
    let lines = spec_lines(s);
    if lines.len() > 2 && spec_contains(lines[0], "```"@) {
        spec_join_nl(lines.subrange(1, lines.len() - 1))
    } else {
        let a = spec_first_idx(s, '{');
        let b = spec_last_idx(s, '}');
        if a >= 0 && b >= 0 && b + 1 >= a {
            s.subrange(a, b + 1)
        } else {
            s
        }
    }
}

/// Find the first occurrence of `c`.
pub fn first_idx(v: &Vec<char>, c: char) -> (r: Option<usize>)
    ensures
        match r {
            Some(i) => i < v@.len() && i as int == spec_first_idx(v@, c),
            None => spec_first_idx(v@, c) == -1,
        },
{
    proof {
        lemma_first_idx_bounds(v@, c);
    }
    let mut i: usize = 0;
    while i < v.len()
        invariant
            i <= v@.len(),
            forall|k: int| 0 <= k < i ==> v@[k] != c,
        decreases v.len() - i,
    {
        if v[i] == c {
            proof {
                lemma_first_idx_agrees(v@, c, i as int);
            }
            return Some(i);
        }
        i = i + 1;
    }
    proof {
        if spec_first_idx(v@, c) >= 0 {
            assert(v@[spec_first_idx(v@, c)] == c);
        }
    }
    None
}

proof fn lemma_first_idx_agrees(s: Seq<char>, c: char, i: int)
    requires
        0 <= i < s.len(),
        s[i] == c,
        forall|k: int| 0 <= k < i ==> s[k] != c,
    ensures
        spec_first_idx(s, c) == i,
    decreases s.len(),
{
    if i == 0 {
    } else {
        assert(s[0] != c);
        let t = s.drop_first();
        assert(forall|k: int| 0 <= k < i - 1 ==> t[k] == s[k + 1]);
        assert(t[i - 1] == s[i]);
        lemma_first_idx_agrees(t, c, i - 1);
    }
}

/// Find the last occurrence of `c`.
fn last_idx(v: &Vec<char>, c: char) -> (r: Option<usize>)
    ensures
        match r {
            Some(i) => i as int == spec_last_idx(v@, c),
            None => spec_last_idx(v@, c) == -1,
        },
{
    proof {
        assert(v@.subrange(0, v@.len() as int) =~= v@);
    }
    let mut i: usize = v.len();
    while i > 0
        invariant
            i <= v@.len(),
            spec_last_idx(v@, c) == spec_last_idx(v@.subrange(0, i as int), c),
        decreases i,
    {
        proof {
            let sub = v@.subrange(0, i as int);
            assert(sub.last() == v@[i - 1]);
            assert(sub.drop_last() =~= v@.subrange(0, i - 1));
        }
        if v[i - 1] == c {
            return Some(i - 1);
        }
        i = i - 1;
    }
    proof {
        assert(v@.subrange(0, 0) =~= Seq::<char>::empty());
    }
    None
}

/// Extract the JSON payload of a model response: the inside of a leading
/// markdown code fence when there is one, else the span from the first `{`
/// to the last `}` when those exist in that order, else the whole response.
pub fn extract_json(response: &str) -> (r: String)
    ensures
        r@ == spec_extract_json(response@),
{
    let cv = to_chars(response);
    let lines = split_lines(&cv);
    if lines.len() > 2 {
        proof {
            assert(lines.deep_view()[0] =~= lines@[0]@);
        }
        if chars_contains_str(&lines[0], "```") {
            let joined = join_nl_range(&lines, 1, lines.len() - 1);
            return chars_to_string(&joined);
        }
    }
    let a = first_idx(&cv, '{');
    let b = last_idx(&cv, '}');
    proof {
        lemma_first_idx_bounds(cv@, '{');
        lemma_last_idx_bounds(cv@, '}');
    }
    match (a, b) {
        (Some(ai), Some(bi)) => {
            proof {
                assert(bi < cv.len());
            }
            if bi + 1 >= ai {
                let mut out: Vec<char> = Vec::new();
                let mut i: usize = ai;
                while i < bi + 1
                    invariant
                        ai <= i <= bi + 1,
                        bi < cv.len(),
                        bi < cv@.len(),
                        out@ == cv@.subrange(ai as int, i as int),
                    decreases bi + 1 - i,
                {
                    out.push(cv[i]);
                    proof {
                        assert(cv@.subrange(ai as int, i + 1) =~= cv@.subrange(
                            ai as int,
                            i as int,
                        ).push(cv@[i as int]));
                    }
                    i = i + 1;
                }
                proof {
                    assert(out@ =~= cv@.subrange(ai as int, bi + 1));
                }
                chars_to_string(&out)
            } else {
                response.to_owned()
            }
        },
        _ => response.to_owned(),
    }
}

} // verus!
