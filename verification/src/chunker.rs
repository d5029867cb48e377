//! Splitting a file's text into bounded chunks, looking for a natural break
//! (blank line, lone closing brace, line comment) near each target boundary
//! so that logical units are not severed.

use vstd::prelude::*;
use crate::text::{
    spec_trim, spec_join_nl, spec_lines, spec_starts_with, chars_trim, chars_eq_str,
    chars_starts_with_str, to_chars, chars_to_string, split_lines, join_nl_range,
};

verus! {

/// Target number of lines per chunk.
pub const CHUNK_SIZE: usize = 300;

/// Most chunks kept from a single file.
pub const MAX_CHUNKS_PER_FILE: usize = 10;

/// How many lines below the target boundary are searched for a break.
pub const BREAK_WINDOW: usize = 20;

/// Chunks whose trimmed text is at most this many characters are discarded.
pub const MIN_CHUNK_CHARS: usize = 50;

/// One bounded, contiguous slice of a file's lines, ready for embedding.
pub struct CodeChunk {
    pub repo_name: String,
    pub file_path: String,
    pub line_start: i32,
    pub line_end: i32,
    pub language: Option<String>,
    pub content: String,
}

/// Two chunks carry the same data.
pub open spec fn spec_chunk_like(a: CodeChunk, b: CodeChunk) -> bool {
    &&& a.repo_name@ == b.repo_name@
    &&& a.file_path@ == b.file_path@
    &&& a.line_start == b.line_start
    &&& a.line_end == b.line_end
    &&& match b.language {
        Some(l) => a.language matches Some(m) && m@ == l@,
        None => a.language is None,
    }
    &&& a.content@ == b.content@
}

impl CodeChunk {
    /// An owned copy of this chunk.
    pub fn duplicate(&self) -> (r: CodeChunk)
        ensures
            spec_chunk_like(r, *self),
    {
        CodeChunk {
            repo_name: self.repo_name.clone(),
            file_path: self.file_path.clone(),
            line_start: self.line_start,
            line_end: self.line_end,
            language: match &self.language {
                Some(l) => Some(l.clone()),
                None => None,
            },
            content: self.content.clone(),
        }
    }
}

// ---------------------------------------------------------------------------
// Natural-break search
// ---------------------------------------------------------------------------

/// A line at which a chunk may end: blank, a lone closing brace, or a line
/// comment.
pub open spec fn spec_is_break(l: Seq<char>) -> bool {
    let t = spec_trim(l);
    t.len() == 0 || t == "}"@ || t == "};"@ || spec_starts_with(t, "// "@)
}

/// The largest break position in `[lo, i]`, or -1 if there is none.
pub open spec fn spec_break_search(lines: Seq<Seq<char>>, lo: int, i: int) -> int
    decreases i - lo + 1,
{
    if i < lo || i < 0 || i >= lines.len() {
        -1
    } else if spec_is_break(lines[i]) {
        i
    } else {
        spec_break_search(lines, lo, i - 1)
    }
}

proof fn lemma_break_search_bounds(lines: Seq<Seq<char>>, lo: int, i: int)
    ensures
        spec_break_search(lines, lo, i) == -1 || (lo <= spec_break_search(lines, lo, i) <= i
            && spec_break_search(lines, lo, i) < lines.len()),
    decreases i - lo + 1,
{
    if i < lo || i < 0 || i >= lines.len() {
    } else if spec_is_break(lines[i]) {
    } else {
        lemma_break_search_bounds(lines, lo, i - 1);
    }
}

/// Where a chunk starting at `start` with naive boundary `target_end` should
/// really end: the break closest below the boundary inside the search
/// window, or the boundary itself when the window holds no break.  The end
/// never passes the boundary, so a chunk never exceeds the target size.
pub open spec fn spec_natural_end(lines: Seq<Seq<char>>, start: int, target_end: int) -> int {
    let lo = if target_end - (BREAK_WINDOW as int) > start {
        target_end - BREAK_WINDOW as int
    } else {
        start
    };
    let b = spec_break_search(lines, lo, target_end - 1);
    if b >= 0 {
        b + 1
    } else {
        target_end
    }
}

proof fn lemma_natural_end_bounds(lines: Seq<Seq<char>>, start: int, target_end: int)
    requires
        0 <= start < target_end <= lines.len(),
    ensures
        start < spec_natural_end(lines, start, target_end) <= target_end,
{
    let lo = if target_end - (BREAK_WINDOW as int) > start {
        target_end - BREAK_WINDOW as int
    } else {
        start
    };
    lemma_break_search_bounds(lines, lo, target_end - 1);
}

/// Where the chunk starting at line `i` ends: a text that already fits in
/// one chunk is kept whole (no break is looked for), else the natural end
/// at or below the naive boundary.
pub open spec fn spec_chunk_end(lines: Seq<Seq<char>>, i: int) -> int {
    if i + (CHUNK_SIZE as int) >= lines.len() {
        lines.len() as int
    } else {
        spec_natural_end(lines, i, i + (CHUNK_SIZE as int))
    }
}

proof fn lemma_chunk_end_bounds(lines: Seq<Seq<char>>, i: int)
    requires
        0 <= i < lines.len(),
    ensures
        i < spec_chunk_end(lines, i) <= lines.len(),
        spec_chunk_end(lines, i) - i <= CHUNK_SIZE as int,
{
    if i + (CHUNK_SIZE as int) < lines.len() {
        lemma_natural_end_bounds(lines, i, i + (CHUNK_SIZE as int));
    }
}

fn is_break_line(line: &Vec<char>) -> (r: bool)
    ensures
        r == spec_is_break(line@),
{
    let t = chars_trim(line);
    t.len() == 0 || chars_eq_str(&t, "}") || chars_eq_str(&t, "};") || chars_starts_with_str(
        &t,
        "// ",
    )
}

proof fn lemma_deep_view_index(v: &Vec<Vec<char>>, i: int)
    requires
        0 <= i < v@.len(),
    ensures
        v.deep_view()[i] == v@[i]@,
{
    assert(v.deep_view()[i] =~= v@[i]@);
}

/// Find the natural end of the chunk `[start, target_end)`: the break
/// closest below the boundary inside the search window, or the boundary.
pub fn find_natural_break(lines: &Vec<Vec<char>>, start: usize, target_end: usize) -> (r: usize)
    requires
        start < target_end <= lines@.len(),
    ensures
        r as int == spec_natural_end(lines.deep_view(), start as int, target_end as int),
        start < r <= target_end,
{
    proof {
        assert(lines.deep_view().len() == lines@.len());
        lemma_natural_end_bounds(lines.deep_view(), start as int, target_end as int);
    }
    let lo = if target_end - start > BREAK_WINDOW {
        target_end - BREAK_WINDOW
    } else {
        start
    };
    let ghost gl = lines.deep_view();
    let mut i: usize = target_end;
    while i > lo
        invariant
            lo <= i <= target_end,
            start < target_end <= lines@.len(),
            gl == lines.deep_view(),
            gl.len() == lines@.len(),
            lo as int == if target_end - (BREAK_WINDOW as int) > start {
                target_end - (BREAK_WINDOW as int)
            } else {
                start as int
            },
            spec_break_search(gl, lo as int, target_end - 1) == spec_break_search(
                gl,
                lo as int,
                i - 1,
            ),
        decreases i,
    {
        proof {
            lemma_deep_view_index(lines, i - 1);
        }
        if is_break_line(&lines[i - 1]) {
            proof {
                assert(spec_is_break(gl[i - 1]));
                assert(spec_break_search(gl, lo as int, i - 1) == i - 1);
                assert(lo as int == if target_end - (BREAK_WINDOW as int) > start {
                    target_end - (BREAK_WINDOW as int)
                } else {
                    start as int
                });
                assert(spec_natural_end(gl, start as int, target_end as int) == i);
            }
            return i;
        }
        i = i - 1;
    }
    proof {
        assert(spec_break_search(gl, lo as int, lo - 1) == -1);
    }
    target_end
}

// ---------------------------------------------------------------------------
// Chunk boundaries
// ---------------------------------------------------------------------------

/// The `(start, end)` line ranges of the chunks kept from `lines`, walking
/// from line `i` with `count` chunks already kept.  Ranges whose joined text
/// trims to at most `MIN_CHUNK_CHARS` characters are skipped.
pub open spec fn spec_chunk_bounds(lines: Seq<Seq<char>>, i: int, count: int) -> Seq<(int, int)>
    decreases lines.len() - i,
    via spec_chunk_bounds_dec
{
    if i < 0 || i >= lines.len() || count >= MAX_CHUNKS_PER_FILE as int {
        Seq::empty()
    } else {
        let ae = spec_chunk_end(lines, i);
        if spec_trim(spec_join_nl(lines.subrange(i, ae))).len() > MIN_CHUNK_CHARS as int {
            seq![(i, ae)] + spec_chunk_bounds(lines, ae, count + 1)
        } else {
            spec_chunk_bounds(lines, ae, count)
        }
    }
}

#[via_fn]
proof fn spec_chunk_bounds_dec(lines: Seq<Seq<char>>, i: int, count: int) {
    if 0 <= i < lines.len() && count < MAX_CHUNKS_PER_FILE as int {
        lemma_chunk_end_bounds(lines, i);
    }
}

/// The chunk boundaries of a whole text: the published chunking function of
/// line ranges, fixed by the text and the chunking constants alone.
pub open spec fn spec_chunk_ranges(content: Seq<char>) -> Seq<(int, int)> {
    spec_chunk_bounds(spec_lines(content), 0, 0)
}

/// Chunking is deterministic: identical text always yields identical chunk
/// boundaries.
pub proof fn lemma_chunking_deterministic(a: Seq<char>, b: Seq<char>)
    requires
        a == b,
    ensures
        spec_chunk_ranges(a) == spec_chunk_ranges(b),
{
}

proof fn lemma_chunk_bounds_monotone(lines: Seq<Seq<char>>, i: int, count: int)
    requires
        0 <= i,
    ensures
        forall|j: int|
            0 <= j < spec_chunk_bounds(lines, i, count).len() ==> {
                let p = #[trigger] spec_chunk_bounds(lines, i, count)[j];
                i <= p.0 < p.1 <= lines.len() && p.1 - p.0 <= CHUNK_SIZE as int
            },
        forall|j: int|
            0 <= j && j + 1 < spec_chunk_bounds(lines, i, count).len()
                ==> (#[trigger] spec_chunk_bounds(lines, i, count)[j]).1 <= spec_chunk_bounds(
                lines,
                i,
                count,
            )[j + 1].0,
    decreases lines.len() - i,
{
    if i >= lines.len() || count >= MAX_CHUNKS_PER_FILE as int {
    } else {
        lemma_chunk_end_bounds(lines, i);
        let ae = spec_chunk_end(lines, i);
        let s = spec_chunk_bounds(lines, i, count);
        if spec_trim(spec_join_nl(lines.subrange(i, ae))).len() > MIN_CHUNK_CHARS as int {
            lemma_chunk_bounds_monotone(lines, ae, count + 1);
            let t = spec_chunk_bounds(lines, ae, count + 1);
            assert(s == seq![(i, ae)] + t);
            assert forall|j: int| 0 <= j < s.len() implies {
                let p = #[trigger] s[j];
                i <= p.0 < p.1 <= lines.len() && p.1 - p.0 <= CHUNK_SIZE as int
            } by {
                if j > 0 {
                    assert(s[j] == t[j - 1]);
                } else {
                    assert(s[0] == (i, ae));
                }
            }
            assert forall|j: int| 0 <= j && j + 1 < s.len() implies (#[trigger] s[j]).1 <= s[j + 1].0 by {
                if j > 0 {
                    assert(s[j] == t[j - 1]);
                    assert(s[j + 1] == t[j]);
                } else {
                    assert(s[0] == (i, ae));
                    assert(s[1] == t[0]);
                }
            }
        } else {
            lemma_chunk_bounds_monotone(lines, ae, count);
            let t = spec_chunk_bounds(lines, ae, count);
            assert(s == t);
            assert forall|j: int| 0 <= j < s.len() implies {
                let p = #[trigger] s[j];
                i <= p.0 < p.1 <= lines.len() && p.1 - p.0 <= CHUNK_SIZE as int
            } by {
                assert(s[j] == t[j]);
                assert(ae <= t[j].0 < t[j].1 <= lines.len() && t[j].1 - t[j].0 <= CHUNK_SIZE as int);
            }
            assert forall|j: int| 0 <= j && j + 1 < s.len() implies (#[trigger] s[j]).1 <= s[j + 1].0 by {
                assert(s[j] == t[j]);
                assert(s[j + 1] == t[j + 1]);
            }
        }
    }
}

/// Chunk coverage: the kept ranges are in strictly increasing line order and
/// never overlap, every range lies inside the file, and no range spans more
/// than the target size.
pub proof fn lemma_chunk_coverage(content: Seq<char>)
    ensures
        forall|j: int|
            0 <= j < spec_chunk_ranges(content).len() ==> {
                let p = #[trigger] spec_chunk_ranges(content)[j];
                0 <= p.0 < p.1 <= spec_lines(content).len() && p.1 - p.0 <= CHUNK_SIZE as int
            },
        forall|j: int|
            0 <= j && j + 1 < spec_chunk_ranges(content).len()
                ==> (#[trigger] spec_chunk_ranges(content)[j]).1 <= spec_chunk_ranges(
                content,
            )[j + 1].0,
{
    lemma_chunk_bounds_monotone(spec_lines(content), 0, 0);
}

/// A text never splits into more lines than it has characters.
pub proof fn lemma_lines_count(s: Seq<char>)
    ensures
        spec_lines(s).len() <= s.len(),
    decreases s.len(),
{
    if s.len() > 0 {
        crate::text::lemma_first_nl_bounds(s);
        let i = crate::text::spec_first_nl(s);
        if i >= 0 {
            lemma_lines_count(s.subrange(i + 1, s.len() as int));
        }
    }
}

// ---------------------------------------------------------------------------
// Chunking
// ---------------------------------------------------------------------------

/// A produced chunk matches its line range: 1-based start line, exclusive
/// end line, and exactly the joined text of those lines.
pub open spec fn spec_chunk_matches(
    c: CodeChunk,
    p: (int, int),
    lines: Seq<Seq<char>>,
    repo_name: Seq<char>,
    file_path: Seq<char>,
    language: Option<&str>,
) -> bool {
    &&& c.line_start == p.0 + 1
    &&& c.line_end == p.1
    &&& c.content@ == spec_join_nl(lines.subrange(p.0, p.1))
    &&& c.repo_name@ == repo_name
    &&& c.file_path@ == file_path
    &&& match language {
        Some(l) => c.language matches Some(m) && m@ == l@,
        None => c.language is None,
    }
}

/// Split `content` into chunks of at most `CHUNK_SIZE` lines, each ending
/// at a natural break where the window holds one, discarding chunks that
/// trim to at most `MIN_CHUNK_CHARS` characters, and keeping at most
/// `MAX_CHUNKS_PER_FILE` chunks.  A text that fits in one chunk is kept
/// whole: no break is looked for.
pub fn chunk_code(content: &str, repo_name: &str, file_path: &str, language: Option<&str>) -> (r:
    Vec<CodeChunk>)
    requires
        content@.len() < 0x7fff_ffff,
    ensures
        r@.len() == spec_chunk_ranges(content@).len(),
        forall|j: int|
            0 <= j < r@.len() ==> spec_chunk_matches(
                #[trigger] r@[j],
                spec_chunk_ranges(content@)[j],
                spec_lines(content@),
                repo_name@,
                file_path@,
                language,
            ),
{
    let cv = to_chars(content);
    let lines = split_lines(&cv);
    let ghost gl = lines.deep_view();
    proof {
        assert(gl == spec_lines(content@));
        lemma_lines_count(content@);
        assert(gl.len() == lines@.len());
    }
    let mut r: Vec<CodeChunk> = Vec::new();
    let ghost mut emitted: Seq<(int, int)> = Seq::empty();
    let mut i: usize = 0;
    let mut count: usize = 0;
    proof {
        assert(emitted + spec_chunk_bounds(gl, 0, 0) =~= spec_chunk_bounds(gl, 0, 0));
    }
    while i < lines.len() && count < MAX_CHUNKS_PER_FILE
        invariant
            i <= lines@.len(),
            count <= MAX_CHUNKS_PER_FILE,
            lines@.len() < 0x7fff_ffff,
            gl == lines.deep_view(),
            gl.len() == lines@.len(),
            gl == spec_lines(content@),
            spec_chunk_ranges(content@) == emitted + spec_chunk_bounds(gl, i as int, count as int),
            r@.len() == emitted.len(),
            forall|j: int|
                0 <= j < r@.len() ==> spec_chunk_matches(
                    #[trigger] r@[j],
                    emitted[j],
                    gl,
                    repo_name@,
                    file_path@,
                    language,
                ),
        decreases lines.len() - i,
    {
        let ae = if lines.len() - i <= CHUNK_SIZE {
            lines.len()
        } else {
            find_natural_break(&lines, i, i + CHUNK_SIZE)
        };
        let chunk_text = join_nl_range(&lines, i, ae);
        let trimmed = chars_trim(&chunk_text);
        proof {
            assert(ae as int == spec_chunk_end(gl, i as int));
        }
        if trimmed.len() > MIN_CHUNK_CHARS {
            let lang_owned: Option<String> = match language {
                Some(l) => Some(l.to_owned()),
                None => None,
            };
            let chunk = CodeChunk {
                repo_name: repo_name.to_owned(),
                file_path: file_path.to_owned(),
                line_start: (i + 1) as i32,
                line_end: ae as i32,
                language: lang_owned,
                content: chars_to_string(&chunk_text),
            };
            let ghost old_emitted = emitted;
            r.push(chunk);
            proof {
                emitted = emitted.push((i as int, ae as int));
                assert(spec_chunk_bounds(gl, i as int, count as int) == seq![(i as int, ae as int)]
                    + spec_chunk_bounds(gl, ae as int, count + 1));
                assert(old_emitted + (seq![(i as int, ae as int)] + spec_chunk_bounds(
                    gl,
                    ae as int,
                    count + 1,
                )) =~= emitted + spec_chunk_bounds(gl, ae as int, count + 1));
                assert(emitted[emitted.len() - 1] == (i as int, ae as int));
            }
            count = count + 1;
        } else {
            proof {
                assert(spec_chunk_bounds(gl, i as int, count as int) == spec_chunk_bounds(
                    gl,
                    ae as int,
                    count as int,
                ));
            }
        }
        i = ae;
    }
    proof {
        if i >= lines@.len() {
            assert(spec_chunk_bounds(gl, i as int, count as int) =~= Seq::<(int, int)>::empty());
        } else {
            assert(count >= MAX_CHUNKS_PER_FILE);
            assert(spec_chunk_bounds(gl, i as int, count as int) =~= Seq::<(int, int)>::empty());
        }
        assert(emitted + Seq::<(int, int)>::empty() =~= emitted);
    }
    r
}

// ---------------------------------------------------------------------------
// Language detection
// ---------------------------------------------------------------------------

/// Index of the last '.' in `s`, or -1 if there is none.
pub open spec fn spec_last_dot(s: Seq<char>) -> int
    decreases s.len(),
{
    if s.len() == 0 {
        -1
    } else if s.last() == '.' {
        s.len() - 1
    } else {
        spec_last_dot(s.drop_last())
    }
}

/// The extension of a path: what follows the last '.', or the whole path
/// when there is no dot.
pub open spec fn spec_ext_of(s: Seq<char>) -> Seq<char> {
    if spec_last_dot(s) >= 0 {
        s.subrange(spec_last_dot(s) + 1, s.len() as int)
    } else {
        s
    }
}

/// The display name of the language a file extension stands for.
pub open spec fn spec_language_of(ext: Seq<char>) -> Option<Seq<char>> {
    if ext == "rs"@ {
        Some("Rust"@)
    } else if ext == "ts"@ || ext == "tsx"@ {
        Some("TypeScript"@)
    } else if ext == "js"@ || ext == "jsx"@ {
        Some("JavaScript"@)
    } else if ext == "py"@ {
        Some("Python"@)
    } else if ext == "go"@ {
        Some("Go"@)
    } else if ext == "java"@ {
        Some("Java"@)
    } else if ext == "cpp"@ || ext == "cc"@ || ext == "cxx"@ {
        Some("C++"@)
    } else if ext == "c"@ || ext == "h"@ {
        Some("C"@)
    } else if ext == "rb"@ {
        Some("Ruby"@)
    } else if ext == "swift"@ {
        Some("Swift"@)
    } else if ext == "kt"@ {
        Some("Kotlin"@)
    } else if ext == "cs"@ {
        Some("C#"@)
    } else if ext == "scala"@ {
        Some("Scala"@)
    } else if ext == "ex"@ || ext == "exs"@ {
        Some("Elixir"@)
    } else if ext == "hs"@ {
        Some("Haskell"@)
    } else if ext == "ml"@ {
        Some("OCaml"@)
    } else if ext == "php"@ {
        Some("PHP"@)
    } else if ext == "vue"@ {
        Some("Vue"@)
    } else if ext == "svelte"@ {
        Some("Svelte"@)
    } else {
        None
    }
}

proof fn lemma_last_dot_bounds(s: Seq<char>)
    ensures
        -1 <= spec_last_dot(s) < s.len(),
    decreases s.len(),
{
    if s.len() > 0 && s.last() != '.' {
        lemma_last_dot_bounds(s.drop_last());
    }
}

/// Find the extension of a path as the text after its last dot.
fn ext_chars(v: &Vec<char>) -> (r: Vec<char>)
    ensures
        r@ == spec_ext_of(v@),
{
    proof {
        lemma_last_dot_bounds(v@);
    }
    let mut i: usize = v.len();
    proof {
        assert(v@.subrange(0, v@.len() as int) =~= v@);
    }
    while i > 0
        invariant
            i <= v@.len(),
            spec_last_dot(v@) == spec_last_dot(v@.subrange(0, i as int)),
        decreases i,
    {
        if v[i - 1] == '.' {
            proof {
                assert(v@.subrange(0, i as int).last() == v@[i - 1]);
                assert(spec_last_dot(v@) == i - 1);
            }
            let mut r: Vec<char> = Vec::new();
            let mut j: usize = i;
            while j < v.len()
                invariant
                    i <= j <= v@.len(),
                    r@ == v@.subrange(i as int, j as int),
                decreases v.len() - j,
            {
                r.push(v[j]);
                proof {
                    assert(v@.subrange(i as int, j + 1) =~= v@.subrange(i as int, j as int).push(
                        v@[j as int],
                    ));
                }
                j = j + 1;
            }
            return r;
        }
        proof {
            let sub = v@.subrange(0, i as int);
            assert(sub.last() == v@[i - 1]);
            assert(sub.drop_last() =~= v@.subrange(0, i - 1));
        }
        i = i - 1;
    }
    proof {
        assert(v@.subrange(0, 0) =~= Seq::<char>::empty());
        assert(spec_last_dot(v@) == -1);
    }
    let mut r: Vec<char> = Vec::new();
    let mut j: usize = 0;
    while j < v.len()
        invariant
            j <= v@.len(),
            r@ == v@.subrange(0, j as int),
        decreases v.len() - j,
    {
        r.push(v[j]);
        proof {
            assert(v@.subrange(0, j + 1) =~= v@.subrange(0, j as int).push(v@[j as int]));
        }
        j = j + 1;
    }
    proof {
        assert(v@.subrange(0, v@.len() as int) =~= v@);
    }
    r
}

/// A file's raw language tag: its extension (or, with no dot, the whole
/// path), lower-cased.
pub fn get_language(path: &str) -> (r: Option<String>)
    ensures
        r matches Some(x) && x@ == crate::text::spec_lower(spec_ext_of(path@)),
{
    let v = to_chars(path);
    let ext = ext_chars(&v);
    let low = crate::text::lower_chars(&ext);
    Some(chars_to_string(&low))
}

/// Detect the programming language of a file from its path's extension.
pub fn detect_language(file_path: &str) -> (r: Option<String>)
    ensures
        match spec_language_of(spec_ext_of(file_path@)) {
            Some(l) => r matches Some(x) && x@ == l,
            None => r is None,
        },
{
    let v = to_chars(file_path);
    let ext = ext_chars(&v);
    if chars_eq_str(&ext, "rs") {
        Some("Rust".to_owned())
    } else if chars_eq_str(&ext, "ts") || chars_eq_str(&ext, "tsx") {
        Some("TypeScript".to_owned())
    } else if chars_eq_str(&ext, "js") || chars_eq_str(&ext, "jsx") {
        Some("JavaScript".to_owned())
    } else if chars_eq_str(&ext, "py") {
        Some("Python".to_owned())
    } else if chars_eq_str(&ext, "go") {
        Some("Go".to_owned())
    } else if chars_eq_str(&ext, "java") {
        Some("Java".to_owned())
    } else if chars_eq_str(&ext, "cpp") || chars_eq_str(&ext, "cc") || chars_eq_str(&ext, "cxx") {
        Some("C++".to_owned())
    } else if chars_eq_str(&ext, "c") || chars_eq_str(&ext, "h") {
        Some("C".to_owned())
    } else if chars_eq_str(&ext, "rb") {
        Some("Ruby".to_owned())
    } else if chars_eq_str(&ext, "swift") {
        Some("Swift".to_owned())
    } else if chars_eq_str(&ext, "kt") {
        Some("Kotlin".to_owned())
    } else if chars_eq_str(&ext, "cs") {
        Some("C#".to_owned())
    } else if chars_eq_str(&ext, "scala") {
        Some("Scala".to_owned())
    } else if chars_eq_str(&ext, "ex") || chars_eq_str(&ext, "exs") {
        Some("Elixir".to_owned())
    } else if chars_eq_str(&ext, "hs") {
        Some("Haskell".to_owned())
    } else if chars_eq_str(&ext, "ml") {
        Some("OCaml".to_owned())
    } else if chars_eq_str(&ext, "php") {
        Some("PHP".to_owned())
    } else if chars_eq_str(&ext, "vue") {
        Some("Vue".to_owned())
    } else if chars_eq_str(&ext, "svelte") {
        Some("Svelte".to_owned())
    } else {
        None
    }
}

} // verus!
