//! Profile statistics: harvested metadata, per-language repository shares,
//! the accumulated keyword-mode harvest, and the condensed excerpt summary
//! handed to downstream narrative generation.

use vstd::prelude::*;
use crate::categories::{
    SearchCategory, CodeExcerpt, SearchResults, spec_field_for, spec_all_categories,
    spec_category_name, spec_excerpt_like,
};
use crate::chunker::{spec_language_of, spec_ext_of, detect_language};
use crate::errors::HarvestError;
use crate::fallback::{spec_keyword_hit, spec_bucketed, add_fallback_excerpt};
use crate::index::{SessionId, StoredChunk, VectorIndex};
use crate::selector::{MAX_TOTAL_FILES, min_int};
use crate::text::{
    spec_lines, spec_join_nl, spec_lower, spec_upper, spec_decimal, to_chars, lower_chars,
    split_lines, join_nl_range, chars_to_string, str_eq,
};

verus! {

/// In keyword mode a file contributes at most this many leading lines.
pub const FALLBACK_MAX_LINES: usize = 300;

/// A harvested profile snapshot of the analyzed account.
pub struct GitHubProfile {
    pub name: Option<String>,
    pub bio: Option<String>,
    pub avatar_url: String,
    pub public_repos: u32,
    pub followers: u32,
    pub following: u32,
    pub created_at: String,
}

/// One repository's harvested metadata.
pub struct RepositoryInfo {
    pub name: String,
    pub description: Option<String>,
    pub language: Option<String>,
    pub is_fork: bool,
    pub size: u32,
    pub created_at: String,
    pub updated_at: String,
}

/// Read-only summary of what one completed run analyzed.
pub struct AnalysisMetadata {
    pub chunks_analyzed: u32,
    pub total_lines: u32,
    pub repos_analyzed: u32,
    pub languages_detected: Vec<String>,
}

impl Default for AnalysisMetadata {
    /// Metadata of a run that analyzed nothing.
    fn default() -> (r: AnalysisMetadata)
        ensures
            r.chunks_analyzed == 0,
            r.total_lines == 0,
            r.repos_analyzed == 0,
            r.languages_detected@.len() == 0,
    {
        AnalysisMetadata {
            chunks_analyzed: 0,
            total_lines: 0,
            repos_analyzed: 0,
            languages_detected: Vec::new(),
        }
    }
}

/// Counts describing what one session holds in the vector index.
pub struct EmbeddingStats {
    pub chunk_count: u64,
    pub total_lines: u64,
    pub repo_count: u64,
    pub languages: Vec<String>,
}

/// A language is already listed.
pub open spec fn spec_listed(list: Seq<String>, l: Seq<char>) -> bool {
    exists|i: int| 0 <= i < list.len() && list[i]@ == l
}

/// Whether `l` occurs among the views of `list`.
pub fn lang_listed(list: &Vec<String>, l: &str) -> (r: bool)
    ensures
        r == spec_listed(list@, l@),
{
    let mut i: usize = 0;
    while i < list.len()
        invariant
            i <= list@.len(),
            forall|k: int| 0 <= k < i ==> list@[k]@ != l@,
        decreases list.len() - i,
    {
        if str_eq(list[i].as_str(), l) {
            return true;
        }
        i = i + 1;
    }
    false
}

/// What the keyword-mode excerpt of a file looks like: the file's first
/// `FALLBACK_MAX_LINES` lines, 1-based line range, detected language, and
/// the fixed non-ranked similarity.
pub open spec fn spec_is_fallback_excerpt(
    e: CodeExcerpt,
    repo: Seq<char>,
    path: Seq<char>,
    content: Seq<char>,
) -> bool {
    let lines = spec_lines(content);
    let take = min_int(lines.len() as int, FALLBACK_MAX_LINES as int);
    &&& e.repo_name@ == repo
    &&& e.file_path@ == path
    &&& e.line_start == 1
    &&& e.line_end == take
    &&& match spec_language_of(spec_ext_of(path)) {
        Some(l) => e.language matches Some(m) && m@ == l,
        None => e.language is None,
    }
    &&& e.content@ == spec_join_nl(lines.subrange(0, take))
    &&& e.similarity_milli == 1000
}

/// The file header written into the harvested corpus.
pub open spec fn spec_corpus_entry(path: Seq<char>, repo: Seq<char>, text: Seq<char>) -> Seq<char> {
    "\n// FILE: "@ + path + " ("@ + repo + ")\n"@ + text + "\n"@
}

/// The per-run accumulator of the keyword-mode harvest: categorized
/// excerpts, hard-bounded counters, detected languages, and the corpus of
/// harvested text kept for downstream analysis.
pub struct HarvestAccumulator {
    pub results: SearchResults,
    pub files_analyzed: u32,
    pub total_lines: u32,
    pub languages: Vec<String>,
    pub corpus: String,
}

impl HarvestAccumulator {
    /// The counters respect the run budgets.
    pub open spec fn wf(&self) -> bool {
        &&& self.files_analyzed <= MAX_TOTAL_FILES
        &&& self.total_lines as int <= self.files_analyzed as int * FALLBACK_MAX_LINES as int
    }

    /// A fresh accumulator: nothing analyzed yet.
    pub fn new() -> (r: HarvestAccumulator)
        ensures
            r.wf(),
            r.files_analyzed == 0,
            r.total_lines == 0,
            r.languages@.len() == 0,
            r.corpus@.len() == 0,
            forall|c: SearchCategory| (#[trigger] spec_field_for(r.results, c)).len() == 0,
    {
        HarvestAccumulator {
            results: Default::default(),
            files_analyzed: 0,
            total_lines: 0,
            languages: Vec::new(),
            corpus: String::new(),
        }
    }

    /// Record one fetched file: discard it when it is near-empty or the
    /// whole-run file budget is spent; otherwise truncate it to its leading
    /// lines, file it under its keyword categories and as a naming-style
    /// sample, note its language, extend the corpus, and count it.
    pub fn record_file(&mut self, repo_name: &str, file_path: &str, content: &str) -> (recorded:
        bool)
        requires
            old(self).wf(),
        ensures
            final(self).wf(),
            recorded == ((old(self).files_analyzed as int) < MAX_TOTAL_FILES as int
                && content@.len() >= crate::selector::MIN_CONTENT_CHARS),
            !recorded ==> *final(self) == *old(self),
            recorded ==> {
                let lines = spec_lines(content@);
                let take = min_int(lines.len() as int, FALLBACK_MAX_LINES as int);
                let text = spec_join_nl(lines.subrange(0, take));
                &&& final(self).files_analyzed == old(self).files_analyzed + 1
                &&& final(self).total_lines == old(self).total_lines + take
                &&& forall|c: SearchCategory|
                    spec_bucketed(
                        spec_field_for(old(self).results, c),
                        spec_field_for(final(self).results, c),
                        spec_keyword_hit(c, spec_lower(content@)),
                        (|x: CodeExcerpt| spec_is_fallback_excerpt(
                            x,
                            repo_name@,
                            file_path@,
                            content@,
                        )),
                    )
                &&& final(self).corpus@ == old(self).corpus@ + spec_corpus_entry(
                    file_path@,
                    repo_name@,
                    text,
                )
                &&& match spec_language_of(spec_ext_of(file_path@)) {
                    Some(l) => if spec_listed(old(self).languages@, l) {
                        final(self).languages@ == old(self).languages@
                    } else {
                        &&& final(self).languages@.len() == old(self).languages@.len() + 1
                        &&& final(self).languages@.subrange(0, old(self).languages@.len() as int)
                            == old(self).languages@
                        &&& final(self).languages@.last()@ == l
                    },
                    None => final(self).languages@ == old(self).languages@,
                }
            },
    {
        let cv = to_chars(content);
        if self.files_analyzed as usize >= MAX_TOTAL_FILES || cv.len() < crate::selector::MIN_CONTENT_CHARS {
            return false;
        }
        let lines = split_lines(&cv);
        let take = if lines.len() < FALLBACK_MAX_LINES {
            lines.len()
        } else {
            FALLBACK_MAX_LINES
        };
        let excerpt_text = join_nl_range(&lines, 0, take);
        let language = detect_language(file_path);
        match &language {
            Some(l) => {
                if !lang_listed(&self.languages, l.as_str()) {
                    let ghost old_langs = self.languages@;
                    self.languages.push(l.clone());
                    proof {
                        assert(self.languages@.subrange(0, old_langs.len() as int) =~= old_langs);
                    }
                }
            },
            None => {},
        }
        let text_str = chars_to_string(&excerpt_text);
        let excerpt = CodeExcerpt {
            repo_name: repo_name.to_owned(),
            file_path: file_path.to_owned(),
            line_start: 1,
            line_end: take as i32,
            language,
            content: text_str,
            similarity_milli: 1000,
        };
        proof {
            crate::chunker::lemma_lines_count(content@);
            assert(spec_is_fallback_excerpt(excerpt, repo_name@, file_path@, content@));
        }
        let low = lower_chars(&cv);
        add_fallback_excerpt(&mut self.results, &excerpt, &low);
        proof {
            assert forall|c: SearchCategory|
                spec_bucketed(
                    spec_field_for(old(self).results, c),
                    spec_field_for(self.results, c),
                    spec_keyword_hit(c, spec_lower(content@)),
                    (|x: CodeExcerpt| spec_is_fallback_excerpt(
                        x,
                        repo_name@,
                        file_path@,
                        content@,
                    )),
                ) by {
                let before = spec_field_for(old(self).results, c);
                let after = spec_field_for(self.results, c);
                let hit = spec_keyword_hit(c, spec_lower(content@));
                assert(spec_bucketed(
                    before,
                    after,
                    hit,
                    (|x: CodeExcerpt| spec_excerpt_like(x, excerpt)),
                ));
                if hit && before.len() < crate::categories::EXCERPTS_PER_CATEGORY {
                    assert(spec_excerpt_like(after[after.len() - 1], excerpt));
                    assert(spec_is_fallback_excerpt(
                        after[after.len() - 1],
                        repo_name@,
                        file_path@,
                        content@,
                    ));
                }
            }
        }
        let ghost corpus0 = self.corpus@;
        self.corpus.append("\n// FILE: ");
        self.corpus.append(file_path);
        self.corpus.append(" (");
        self.corpus.append(repo_name);
        self.corpus.append(")\n");
        self.corpus.append(excerpt.content.as_str());
        self.corpus.append("\n");
        proof {
            assert(self.corpus@ =~= corpus0 + spec_corpus_entry(
                file_path@,
                repo_name@,
                excerpt.content@,
            ));
        }
        self.files_analyzed = self.files_analyzed + 1;
        self.total_lines = self.total_lines + (take as u32);
        true
    }

    /// Close the harvest: with not one usable file the run has failed
    /// terminally; otherwise hand out the categorized excerpts, the run's
    /// metadata, and the harvested corpus.
    pub fn finalize(self, repos_analyzed: u32) -> (r: Result<
        (SearchResults, AnalysisMetadata, String),
        HarvestError,
    >)
        ensures
            self.files_analyzed == 0 ==> (r matches Err(e) && e == HarvestError::NoUsableInput),
            self.files_analyzed > 0 ==> (r matches Ok(t) && {
                &&& t.0 == self.results
                &&& t.1.chunks_analyzed == self.files_analyzed
                &&& t.1.total_lines == self.total_lines
                &&& t.1.repos_analyzed == repos_analyzed
                &&& t.1.languages_detected == self.languages
                &&& t.2 == self.corpus
            }),
    {
        if self.files_analyzed == 0 {
            return Err(HarvestError::NoUsableInput);
        }
        let metadata = AnalysisMetadata {
            chunks_analyzed: self.files_analyzed,
            total_lines: self.total_lines,
            repos_analyzed,
            languages_detected: self.languages,
        };
        Ok((self.results, metadata, self.corpus))
    }
}


// ---------------------------------------------------------------------------
// Per-language repository shares
// ---------------------------------------------------------------------------

/// The languages of the repositories from position `i` on, in order, one
/// entry per repository that has a language.
pub open spec fn spec_lang_list(repos: Seq<RepositoryInfo>, i: int) -> Seq<Seq<char>>
    decreases repos.len() - i,
{
    if i < 0 || i >= repos.len() {
        Seq::empty()
    } else {
        (match repos[i].language {
            Some(l) => seq![l@],
            None => Seq::empty(),
        }) + spec_lang_list(repos, i + 1)
    }
}

/// The first `i` entries of `s` with later duplicates dropped.
pub open spec fn spec_dedup_upto(s: Seq<Seq<char>>, i: int) -> Seq<Seq<char>>
    decreases i,
{
    if i <= 0 {
        Seq::empty()
    } else if s.subrange(0, i - 1).contains(s[i - 1]) {
        spec_dedup_upto(s, i - 1)
    } else {
        spec_dedup_upto(s, i - 1).push(s[i - 1])
    }
}

/// Occurrences of `x` in `s` from position `i` on.
pub open spec fn spec_count_eq(s: Seq<Seq<char>>, x: Seq<char>, i: int) -> int
    decreases s.len() - i,
{
    if i < 0 || i >= s.len() {
        0
    } else {
        (if s[i] == x {
            1int
        } else {
            0int
        }) + spec_count_eq(s, x, i + 1)
    }
}

proof fn lemma_dedup_membership(s: Seq<Seq<char>>, i: int, x: Seq<char>)
    requires
        0 <= i <= s.len(),
    ensures
        spec_dedup_upto(s, i).contains(x) <==> s.subrange(0, i).contains(x),
    decreases i,
{
    if i > 0 {
        lemma_dedup_membership(s, i - 1, x);
        let prev = spec_dedup_upto(s, i - 1);
        let prefix = s.subrange(0, i - 1);
        let here = s.subrange(0, i);
        assert(forall|k: int| 0 <= k < i - 1 ==> here[k] == prefix[k]);
        assert(here[i - 1] == s[i - 1]);
        if prefix.contains(s[i - 1]) {
            // dedup unchanged; membership in the longer prefix adds nothing new
            if here.contains(x) {
                let w = choose|w: int| 0 <= w < here.len() && here[w] == x;
                if w < i - 1 {
                    assert(prefix[w] == x);
                    assert(prefix.contains(x));
                } else {
                    assert(x == s[i - 1]);
                    assert(prefix.contains(x));
                }
            }
            if prefix.contains(x) {
                let w = choose|w: int| 0 <= w < prefix.len() && prefix[w] == x;
                assert(here[w] == x);
                assert(here.contains(x));
            }
        } else {
            let cur = spec_dedup_upto(s, i);
            assert(cur == prev.push(s[i - 1]));
            if cur.contains(x) {
                let w = choose|w: int| 0 <= w < cur.len() && cur[w] == x;
                if w < prev.len() {
                    assert(prev[w] == x);
                    assert(prev.contains(x));
                    let u = choose|u: int| 0 <= u < prefix.len() && prefix[u] == x;
                    assert(here[u] == x);
                    assert(here.contains(x));
                } else {
                    assert(x == s[i - 1]);
                    assert(here[i - 1] == x);
                    assert(here.contains(x));
                }
            }
            if here.contains(x) {
                let w = choose|w: int| 0 <= w < here.len() && here[w] == x;
                if w < i - 1 {
                    assert(prefix[w] == x);
                    assert(prefix.contains(x));
                    assert(prev.contains(x));
                    let u = choose|u: int| 0 <= u < prev.len() && prev[u] == x;
                    assert(cur[u] == x);
                    assert(cur.contains(x));
                } else {
                    assert(x == s[i - 1]);
                    assert(cur[cur.len() - 1] == x);
                    assert(cur.contains(x));
                }
            }
        }
    }
}

proof fn lemma_count_eq_bound(s: Seq<Seq<char>>, x: Seq<char>, i: int)
    requires
        0 <= i <= s.len(),
    ensures
        0 <= spec_count_eq(s, x, i) <= s.len() - i,
    decreases s.len() - i,
{
    if i < s.len() {
        lemma_count_eq_bound(s, x, i + 1);
    }
}

proof fn lemma_lang_list_len(repos: Seq<RepositoryInfo>, i: int)
    requires
        0 <= i <= repos.len(),
    ensures
        spec_lang_list(repos, i).len() <= repos.len() - i,
    decreases repos.len() - i,
{
    if i < repos.len() {
        lemma_lang_list_len(repos, i + 1);
    }
}

/// The views of a list of strings.
pub open spec fn spec_views(list: Seq<String>) -> Seq<Seq<char>> {
    list.map_values(|s: String| s@)
}

/// The distinct entries of `list`, keeping the first occurrence of each,
/// in order.
fn dedup_strings(list: &Vec<String>) -> (r: Vec<String>)
    ensures
        spec_views(r@) == spec_dedup_upto(spec_views(list@), spec_views(list@).len() as int),
{
    let ghost lv = spec_views(list@);
    let mut keys: Vec<String> = Vec::new();
    let mut k: usize = 0;
    while k < list.len()
        invariant
            k <= list@.len(),
            lv == spec_views(list@),
            spec_views(keys@) == spec_dedup_upto(lv, k as int),
        decreases list.len() - k,
    {
        let ghost old_views = spec_views(keys@);
        let l = &list[k];
        proof {
            lemma_dedup_membership(lv, k as int, l@);
            assert(lv[k as int] == list@[k as int]@);
            assert(spec_listed(keys@, l@) <==> spec_views(keys@).contains(l@)) by {
                if spec_listed(keys@, l@) {
                    let w = choose|w: int| 0 <= w < keys@.len() && keys@[w]@ == l@;
                    assert(spec_views(keys@)[w] == l@);
                }
                if spec_views(keys@).contains(l@) {
                    let w = choose|w: int|
                        0 <= w < spec_views(keys@).len() && spec_views(keys@)[w] == l@;
                    assert(keys@[w]@ == l@);
                }
            }
        }
        if !lang_listed(&keys, l.as_str()) {
            keys.push(l.clone());
            proof {
                assert(spec_views(keys@) =~= old_views.push(l@));
            }
        }
        k = k + 1;
    }
    keys
}

/// Aggregate the repositories' primary languages into integer percentages:
/// for each distinct language, in order of first appearance, the number of
/// repositories with that language times 100, divided by the number of
/// repositories that have a language at all (at least 1).
pub fn language_percentages(repos: &Vec<RepositoryInfo>) -> (r: Vec<(String, u32)>)
    requires
        repos@.len() <= 0xffff_ffff,
    ensures
        ({
            let langs = spec_lang_list(repos@, 0);
            let keys = spec_dedup_upto(langs, langs.len() as int);
            let total = if langs.len() == 0 {
                1int
            } else {
                langs.len() as int
            };
            &&& r@.len() == keys.len()
            &&& forall|j: int|
                0 <= j < r@.len() ==> (#[trigger] r@[j]).0@ == keys[j] && r@[j].1 as int
                    == spec_count_eq(langs, keys[j], 0) * 100 / total
        }),
{
    let ghost glangs = spec_lang_list(repos@, 0);
    // Project the languages, in repository order.
    let mut lang_vec: Vec<String> = Vec::new();
    let mut i: usize = 0;
    proof {
        assert(spec_views(lang_vec@) + glangs =~= glangs);
    }
    while i < repos.len()
        invariant
            i <= repos@.len(),
            glangs == spec_lang_list(repos@, 0),
            glangs == spec_views(lang_vec@) + spec_lang_list(repos@, i as int),
        decreases repos.len() - i,
    {
        let ghost old_views = spec_views(lang_vec@);
        match &repos[i].language {
            Some(l) => {
                lang_vec.push(l.clone());
                proof {
                    assert(spec_views(lang_vec@) =~= old_views.push(l@));
                    assert(old_views + (seq![l@] + spec_lang_list(repos@, i + 1)) =~= spec_views(
                        lang_vec@,
                    ) + spec_lang_list(repos@, i + 1));
                }
            },
            None => {
                proof {
                    assert(Seq::<Seq<char>>::empty() + spec_lang_list(repos@, i + 1)
                        =~= spec_lang_list(repos@, i + 1));
                }
            },
        }
        i = i + 1;
    }
    proof {
        assert(spec_lang_list(repos@, repos@.len() as int) =~= Seq::<Seq<char>>::empty());
        assert(spec_views(lang_vec@) + Seq::<Seq<char>>::empty() =~= spec_views(lang_vec@));
        assert(spec_views(lang_vec@) == glangs);
        lemma_lang_list_len(repos@, 0);
    }
    // Distinct languages in order of first appearance.
    let keys = dedup_strings(&lang_vec);
    // Count and scale each language.
    let total: usize = if lang_vec.len() == 0 {
        1
    } else {
        lang_vec.len()
    };
    let mut r: Vec<(String, u32)> = Vec::new();
    let mut j: usize = 0;
    while j < keys.len()
        invariant
            j <= keys@.len(),
            glangs == spec_views(lang_vec@),
            spec_views(keys@) == spec_dedup_upto(glangs, glangs.len() as int),
            glangs.len() <= repos@.len(),
            repos@.len() <= 0xffff_ffff,
            total as int == if glangs.len() == 0 {
                1int
            } else {
                glangs.len() as int
            },
            r@.len() == j,
            forall|t: int|
                0 <= t < j ==> (#[trigger] r@[t]).0@ == spec_views(keys@)[t] && r@[t].1 as int
                    == spec_count_eq(glangs, spec_views(keys@)[t], 0) * 100 / (total as int),
        decreases keys.len() - j,
    {
        let key = &keys[j];
        // Count occurrences of this language.
        let mut cnt: usize = 0;
        let mut t: usize = lang_vec.len();
        while t > 0
            invariant
                t <= lang_vec@.len(),
                glangs == spec_views(lang_vec@),
                cnt as int == spec_count_eq(glangs, key@, t as int),
                cnt <= lang_vec@.len() - t,
            decreases t,
        {
            t = t - 1;
            proof {
                assert(glangs[t as int] == lang_vec@[t as int]@);
            }
            if str_eq(lang_vec[t].as_str(), key.as_str()) {
                proof {
                    assert(cnt < lang_vec.len());
                }
                cnt = cnt + 1;
            }
        }
        proof {
            lemma_count_eq_bound(glangs, key@, 0);
            lemma_lang_list_len(repos@, 0);
        }
        let pct64: u64 = (cnt as u64) * 100 / (total as u64);
        proof {
            assert(cnt as int * 100 <= total as int * 100);
            vstd::arithmetic::div_mod::lemma_div_is_ordered(
                cnt as int * 100,
                total as int * 100,
                total as int,
            );
            assert(total as int * 100 / (total as int) == 100) by (nonlinear_arith)
                requires
                    total as int >= 1,
            ;
        }
        let pct: u32 = pct64 as u32;
        r.push((key.clone(), pct));
        proof {
            assert(r@[j as int].0@ == spec_views(keys@)[j as int]);
        }
        j = j + 1;
    }
    r
}

// ---------------------------------------------------------------------------
// The assembled stats object
// ---------------------------------------------------------------------------

/// The one stats value a profiling run hands back to its caller: profile
/// metadata, repositories, per-language shares, and, for a deep run, the
/// categorized excerpts and run metadata.
pub struct GitHubStats {
    pub username: String,
    pub profile: GitHubProfile,
    pub repositories: Vec<RepositoryInfo>,
    pub languages: Vec<(String, u32)>,
    pub analyzed_at: String,
    pub code_excerpts: Option<SearchResults>,
    pub analysis_metadata: Option<AnalysisMetadata>,
}

/// Merge a run's harvest into one stats object; the language shares are
/// computed from the repositories.
pub fn assemble_github_stats(
    username: &str,
    profile: GitHubProfile,
    repositories: Vec<RepositoryInfo>,
    analyzed_at: String,
    code_excerpts: Option<SearchResults>,
    analysis_metadata: Option<AnalysisMetadata>,
) -> (r: GitHubStats)
    requires
        repositories@.len() <= 0xffff_ffff,
    ensures
        r.username@ == username@,
        r.profile == profile,
        r.repositories == repositories,
        r.analyzed_at == analyzed_at,
        r.code_excerpts == code_excerpts,
        r.analysis_metadata == analysis_metadata,
        ({
            let langs = spec_lang_list(r.repositories@, 0);
            let keys = spec_dedup_upto(langs, langs.len() as int);
            let total = if langs.len() == 0 {
                1int
            } else {
                langs.len() as int
            };
            &&& r.languages@.len() == keys.len()
            &&& forall|j: int|
                0 <= j < r.languages@.len() ==> (#[trigger] r.languages@[j]).0@ == keys[j]
                    && r.languages@[j].1 as int == spec_count_eq(langs, keys[j], 0) * 100 / total
        }),
{
    let languages = language_percentages(&repositories);
    GitHubStats {
        username: username.to_owned(),
        profile,
        repositories,
        languages,
        analyzed_at,
        code_excerpts,
        analysis_metadata,
    }
}


// ---------------------------------------------------------------------------
// Condensed excerpt summary
// ---------------------------------------------------------------------------

/// Characters one excerpt may contribute before truncation applies.
pub const EXCERPT_CHAR_CEILING: usize = 500;

/// Character budget per category used for the profile summary.
pub const SUMMARY_CHARS_PER_CATEGORY: usize = 2000;

/// An excerpt's text cut to the character ceiling, with an ellipsis when it
/// was cut.
pub open spec fn spec_trunc_excerpt(content: Seq<char>) -> Seq<char> {
    if content.len() > EXCERPT_CHAR_CEILING {
        content.subrange(0, EXCERPT_CHAR_CEILING as int) + "..."@
    } else {
        content
    }
}

/// The location line written above one excerpt.
pub open spec fn spec_excerpt_header(e: CodeExcerpt) -> Seq<char> {
    "\n// "@ + e.file_path@ + " ("@ + spec_decimal(e.line_start as nat) + ":"@ + spec_decimal(
        e.line_end as nat,
    ) + ")\n"@
}

/// One category's contribution: excerpts in order, each with its location
/// line and truncated text, until the category's character budget is spent.
pub open spec fn spec_category_block(excerpts: Seq<CodeExcerpt>, used: int, maxc: int) -> Seq<char>
    decreases excerpts.len(),
{
    if excerpts.len() == 0 || used >= maxc {
        Seq::empty()
    } else {
        let t = spec_trunc_excerpt(excerpts[0].content@);
        spec_excerpt_header(excerpts[0]) + t + "\n"@ + spec_category_block(
            excerpts.drop_first(),
            used + t.len(),
            maxc,
        )
    }
}

/// The whole summary: one upper-cased banner and block per category with
/// any excerpts, in the fixed category order; empty categories are skipped.
pub open spec fn spec_summary(results: SearchResults, cats: Seq<SearchCategory>, maxc: int) -> Seq<
    char,
>
    decreases cats.len(),
{
    if cats.len() == 0 {
        Seq::empty()
    } else {
        let f = spec_field_for(results, cats[0]);
        (if f.len() == 0 {
            Seq::<char>::empty()
        } else {
            "\n=== "@ + spec_upper(spec_category_name(cats[0])) + " ===\n"@ + spec_category_block(
                f,
                0,
                maxc,
            )
        }) + spec_summary(results, cats.drop_first(), maxc)
    }
}

/// Every excerpt of the aggregate carries a non-negative line range.
pub open spec fn spec_results_lines_ok(r: SearchResults) -> bool {
    forall|c: SearchCategory, j: int|
        0 <= j < spec_field_for(r, c).len() ==> 0 <= (#[trigger] spec_field_for(r, c)[j]).line_start
            && 0 <= spec_field_for(r, c)[j].line_end
}

/// Append the truncated text of one excerpt and report how long it was.
fn push_trunc(out: &mut Vec<char>, content: &str) -> (n: usize)
    ensures
        final(out)@ == old(out)@ + spec_trunc_excerpt(content@),
        n == spec_trunc_excerpt(content@).len(),
{
    let cv = to_chars(content);
    if cv.len() > EXCERPT_CHAR_CEILING {
        let ghost base = out@;
        let mut j: usize = 0;
        while j < EXCERPT_CHAR_CEILING
            invariant
                j <= EXCERPT_CHAR_CEILING,
                EXCERPT_CHAR_CEILING < cv@.len(),
                cv@ == content@,
                out@ == base + content@.subrange(0, j as int),
            decreases EXCERPT_CHAR_CEILING - j,
        {
            out.push(cv[j]);
            proof {
                assert(base + content@.subrange(0, j + 1) =~= (base + content@.subrange(
                    0,
                    j as int,
                )).push(content@[j as int]));
            }
            j = j + 1;
        }
        crate::text::push_str(out, "...");
        proof {
            reveal_strlit("...");
            assert(out@ =~= base + (content@.subrange(0, EXCERPT_CHAR_CEILING as int) + "..."@));
        }
        EXCERPT_CHAR_CEILING + 3
    } else {
        let ghost base = out@;
        crate::text::push_all(out, &cv);
        cv.len()
    }
}

/// Condense the retrieved excerpts into one text for the narrative
/// generator: per non-empty category a banner and its excerpts, each
/// truncated to the character ceiling, until the per-category budget is
/// spent.
pub fn summarize_excerpts(results: &SearchResults, max_chars_per_category: usize) -> (r: String)
    requires
        spec_results_lines_ok(*results),
        max_chars_per_category < 0x1000_0000,
    ensures
        r@ == spec_summary(*results, spec_all_categories(), max_chars_per_category as int),
{
    let cats = SearchCategory::all();
    let mut out: Vec<char> = Vec::new();
    let mut k: usize = 0;
    proof {
        assert(spec_all_categories().subrange(0, spec_all_categories().len() as int)
            =~= spec_all_categories());
        assert(out@ + spec_summary(*results, spec_all_categories(), max_chars_per_category as int)
            =~= spec_summary(*results, spec_all_categories(), max_chars_per_category as int));
    }
    while k < cats.len()
        invariant
            k <= cats@.len(),
            cats@ == spec_all_categories(),
            spec_results_lines_ok(*results),
            max_chars_per_category < 0x1000_0000,
            spec_summary(*results, spec_all_categories(), max_chars_per_category as int) == out@
                + spec_summary(
                *results,
                spec_all_categories().subrange(k as int, spec_all_categories().len() as int),
                max_chars_per_category as int,
            ),
        decreases cats.len() - k,
    {
        let ghost maxc = max_chars_per_category as int;
        let ghost rest = spec_all_categories().subrange(k as int, spec_all_categories().len() as int);
        let ghost rest1 = spec_all_categories().subrange(
            k + 1,
            spec_all_categories().len() as int,
        );
        proof {
            assert(rest.drop_first() =~= rest1);
            assert(rest[0] == spec_all_categories()[k as int]);
        }
        let cat = cats[k];
        proof {
            crate::categories::lemma_all_categories_present();
        }
        let field = match results.get(cat.name()) {
            Some(v) => v,
            None => {
                proof {
                    assert(false);
                }
                &results.error_handling
            },
        };
        let ghost f = spec_field_for(*results, cat);
        if field.len() > 0 {
            let ghost base0 = out@;
            crate::text::push_str(&mut out, "\n=== ");
            let name_chars = to_chars(cat.name());
            let upper = crate::text::upper_chars(&name_chars);
            crate::text::push_all(&mut out, &upper);
            crate::text::push_str(&mut out, " ===\n");
            proof {
                assert(out@ =~= base0 + ("\n=== "@ + spec_upper(spec_category_name(cat))
                    + " ===\n"@));
            }
            // The category's excerpts, within its character budget.
            let mut chars_used: usize = 0;
            let mut j: usize = 0;
            let ghost banner = out@;
            proof {
                assert(f.subrange(0, f.len() as int) =~= f);
                assert(spec_category_block(f, 0, maxc) == spec_category_block(
                    f.subrange(0, f.len() as int),
                    0,
                    maxc,
                ));
            }
            while j < field.len() && chars_used < max_chars_per_category
                invariant
                    j <= field@.len(),
                    field@ == f,
                    spec_results_lines_ok(*results),
                    f == spec_field_for(*results, cat),
                    max_chars_per_category < 0x1000_0000,
                    chars_used <= max_chars_per_category + EXCERPT_CHAR_CEILING + 3,
                    spec_category_block(f, 0, maxc) == out@.subrange(
                        banner.len() as int,
                        out@.len() as int,
                    ) + spec_category_block(
                        f.subrange(j as int, f.len() as int),
                        chars_used as int,
                        maxc,
                    ),
                    out@.subrange(0, banner.len() as int) == banner,
                    out@.len() >= banner.len(),
                    maxc == max_chars_per_category as int,
                decreases field.len() - j,
            {
                let e = &field[j];
                let ghost tail = f.subrange(j as int, f.len() as int);
                let ghost tail1 = f.subrange(j + 1, f.len() as int);
                proof {
                    assert(tail.drop_first() =~= tail1);
                    assert(tail[0] == f[j as int]);
                    assert(0 <= f[j as int].line_start && 0 <= f[j as int].line_end);
                }
                let ghost before = out@;
                crate::text::push_str(&mut out, "\n// ");
                let pv = to_chars(e.file_path.as_str());
                crate::text::push_all(&mut out, &pv);
                crate::text::push_str(&mut out, " (");
                let sd = crate::text::decimal_chars(e.line_start as u64);
                crate::text::push_all(&mut out, &sd);
                crate::text::push_str(&mut out, ":");
                let ed = crate::text::decimal_chars(e.line_end as u64);
                crate::text::push_all(&mut out, &ed);
                crate::text::push_str(&mut out, ")\n");
                proof {
                    assert((e.line_start as u64) as nat == e.line_start as nat);
                    assert((e.line_end as u64) as nat == e.line_end as nat);
                    assert(out@ =~= before + spec_excerpt_header(f[j as int]));
                }
                let ghost with_header = out@;
                let n = push_trunc(&mut out, e.content.as_str());
                crate::text::push_str(&mut out, "\n");
                proof {
                    let t = spec_trunc_excerpt(f[j as int].content@);
                    assert(out@ =~= before + (spec_excerpt_header(f[j as int]) + t + "\n"@));
                    assert(spec_category_block(tail, chars_used as int, maxc)
                        == spec_excerpt_header(tail[0]) + t + "\n"@ + spec_category_block(
                        tail1,
                        chars_used + t.len(),
                        maxc,
                    ));
                    assert(out@.subrange(banner.len() as int, out@.len() as int)
                        =~= before.subrange(banner.len() as int, before.len() as int) + (
                    spec_excerpt_header(f[j as int]) + t + "\n"@));
                    assert(out@.subrange(0, banner.len() as int) =~= banner);
                }
                proof {
                    reveal_strlit("...");
                    assert(n <= EXCERPT_CHAR_CEILING + 3);
                }
                chars_used = chars_used + n;
                j = j + 1;
            }
            proof {
                let tail = f.subrange(j as int, f.len() as int);
                assert(spec_category_block(tail, chars_used as int, maxc) =~= Seq::<char>::empty());
                assert(out@ =~= banner + out@.subrange(banner.len() as int, out@.len() as int));
                assert(out@ =~= base0 + (("\n=== "@ + spec_upper(spec_category_name(cat))
                    + " ===\n"@) + spec_category_block(f, 0, maxc)));
                assert(base0 + (("\n=== "@ + spec_upper(spec_category_name(cat)) + " ===\n"@)
                    + spec_category_block(f, 0, maxc)) + spec_summary(*results, rest1, maxc)
                    =~= base0 + ((("\n=== "@ + spec_upper(spec_category_name(cat)) + " ===\n"@)
                    + spec_category_block(f, 0, maxc)) + spec_summary(*results, rest1, maxc)));
            }
        } else {
            proof {
                assert(Seq::<char>::empty() + spec_summary(*results, rest1, maxc) =~= spec_summary(
                    *results,
                    rest1,
                    maxc,
                ));
            }
        }
        k = k + 1;
    }
    proof {
        let rest = spec_all_categories().subrange(
            spec_all_categories().len() as int,
            spec_all_categories().len() as int,
        );
        assert(spec_summary(*results, rest, max_chars_per_category as int) =~= Seq::<char>::empty());
        assert(out@ + Seq::<char>::empty() =~= out@);
    }
    chars_to_string(&out)
}

/// The condensed excerpt summary of a completed run, when the run gathered
/// excerpts at all: the sole artifact handed to narrative generation.
pub fn get_excerpts_for_profile(stats: &GitHubStats) -> (r: Option<String>)
    requires
        stats.code_excerpts matches Some(e) ==> spec_results_lines_ok(e),
    ensures
        match stats.code_excerpts {
            Some(e) => r matches Some(s) && s@ == spec_summary(
                e,
                spec_all_categories(),
                SUMMARY_CHARS_PER_CATEGORY as int,
            ),
            None => r is None,
        },
{
    match &stats.code_excerpts {
        Some(e) => Some(summarize_excerpts(e, SUMMARY_CHARS_PER_CATEGORY)),
        None => None,
    }
}


// ---------------------------------------------------------------------------
// Per-session index statistics
// ---------------------------------------------------------------------------

/// Sum of line spans over the session's rows from position `i` on.
pub open spec fn spec_session_lines(rows: Seq<StoredChunk>, s: SessionId, i: int) -> int
    decreases rows.len() - i,
{
    if i < 0 || i >= rows.len() {
        0
    } else {
        (if rows[i].session == s {
            rows[i].chunk.line_end - rows[i].chunk.line_start
        } else {
            0int
        }) + spec_session_lines(rows, s, i + 1)
    }
}

/// Repository names of the session's rows from position `i` on, in order.
pub open spec fn spec_session_repos(rows: Seq<StoredChunk>, s: SessionId, i: int) -> Seq<Seq<char>>
    decreases rows.len() - i,
{
    if i < 0 || i >= rows.len() {
        Seq::empty()
    } else {
        (if rows[i].session == s {
            seq![rows[i].chunk.repo_name@]
        } else {
            Seq::empty()
        }) + spec_session_repos(rows, s, i + 1)
    }
}

/// Languages of the session's rows from position `i` on, in order, one
/// entry per row whose chunk has a language.
pub open spec fn spec_session_langs(rows: Seq<StoredChunk>, s: SessionId, i: int) -> Seq<Seq<char>>
    decreases rows.len() - i,
{
    if i < 0 || i >= rows.len() {
        Seq::empty()
    } else {
        (match rows[i].chunk.language {
            Some(l) => if rows[i].session == s {
                seq![l@]
            } else {
                Seq::empty()
            },
            None => Seq::empty(),
        }) + spec_session_langs(rows, s, i + 1)
    }
}

/// Describe what one session holds in the vector index: how many chunks,
/// their total line span, and the distinct repositories and languages they
/// came from.
pub fn embedding_stats(index: &VectorIndex, session: SessionId) -> (r: EmbeddingStats)
    requires
        index.rows@.len() <= 0xffff_ffff,
        forall|i: int|
            0 <= i < index.rows@.len() && (#[trigger] index.rows@[i]).session == session ==> 0
                <= index.rows@[i].chunk.line_start <= index.rows@[i].chunk.line_end,
    ensures
        r.chunk_count as int == crate::index::spec_sess_count(index.rows@, session, 0),
        r.total_lines as int == spec_session_lines(index.rows@, session, 0),
        ({
            let names = spec_session_repos(index.rows@, session, 0);
            r.repo_count as int == spec_dedup_upto(names, names.len() as int).len()
        }),
        ({
            let langs = spec_session_langs(index.rows@, session, 0);
            spec_views(r.languages@) == spec_dedup_upto(langs, langs.len() as int)
        }),
{
    let ghost rows = index.rows@;
    let chunk_count = index.session_count(session) as u64;
    // Total line span of the session's rows.
    let mut total_lines: u64 = 0;
    let mut t: usize = index.rows.len();
    while t > 0
        invariant
            t <= rows.len(),
            rows == index.rows@,
            rows.len() <= 0xffff_ffff,
            forall|i: int|
                0 <= i < rows.len() && (#[trigger] rows[i]).session == session ==> 0
                    <= rows[i].chunk.line_start <= rows[i].chunk.line_end,
            total_lines as int == spec_session_lines(rows, session, t as int),
            total_lines <= ((rows.len() - t) as u64) * 0x8000_0000,
        decreases t,
    {
        t = t - 1;
        let row = &index.rows[t];
        if row.session == session {
            total_lines = total_lines + ((row.chunk.line_end - row.chunk.line_start) as u64);
        }
    }
    // Distinct repositories and languages, in order of first appearance.
    let mut repo_names: Vec<String> = Vec::new();
    let mut langs: Vec<String> = Vec::new();
    let mut i: usize = 0;
    proof {
        assert(spec_views(repo_names@) + spec_session_repos(rows, session, 0) =~= spec_session_repos(
            rows,
            session,
            0,
        ));
        assert(spec_views(langs@) + spec_session_langs(rows, session, 0) =~= spec_session_langs(
            rows,
            session,
            0,
        ));
    }
    while i < index.rows.len()
        invariant
            i <= rows.len(),
            rows == index.rows@,
            spec_session_repos(rows, session, 0) == spec_views(repo_names@) + spec_session_repos(
                rows,
                session,
                i as int,
            ),
            spec_session_langs(rows, session, 0) == spec_views(langs@) + spec_session_langs(
                rows,
                session,
                i as int,
            ),
        decreases index.rows.len() - i,
    {
        let row = &index.rows[i];
        let ghost old_repos = spec_views(repo_names@);
        let ghost old_langs = spec_views(langs@);
        if row.session == session {
            repo_names.push(row.chunk.repo_name.clone());
            proof {
                assert(spec_views(repo_names@) =~= old_repos.push(rows[i as int].chunk.repo_name@));
                assert(old_repos + (seq![rows[i as int].chunk.repo_name@] + spec_session_repos(
                    rows,
                    session,
                    i + 1,
                )) =~= spec_views(repo_names@) + spec_session_repos(rows, session, i + 1));
            }
            match &row.chunk.language {
                Some(l) => {
                    langs.push(l.clone());
                    proof {
                        assert(spec_views(langs@) =~= old_langs.push(l@));
                        assert(old_langs + (seq![l@] + spec_session_langs(rows, session, i + 1))
                            =~= spec_views(langs@) + spec_session_langs(rows, session, i + 1));
                    }
                },
                None => {
                    proof {
                        assert(Seq::<Seq<char>>::empty() + spec_session_langs(
                            rows,
                            session,
                            i + 1,
                        ) =~= spec_session_langs(rows, session, i + 1));
                    }
                },
            }
        } else {
            proof {
                assert(Seq::<Seq<char>>::empty() + spec_session_repos(rows, session, i + 1)
                    =~= spec_session_repos(rows, session, i + 1));
                match rows[i as int].chunk.language {
                    Some(l) => {
                        assert(Seq::<Seq<char>>::empty() + spec_session_langs(
                            rows,
                            session,
                            i + 1,
                        ) =~= spec_session_langs(rows, session, i + 1));
                    },
                    None => {
                        assert(Seq::<Seq<char>>::empty() + spec_session_langs(
                            rows,
                            session,
                            i + 1,
                        ) =~= spec_session_langs(rows, session, i + 1));
                    },
                }
            }
        }
        i = i + 1;
    }
    proof {
        assert(spec_session_repos(rows, session, rows.len() as int) =~= Seq::<Seq<char>>::empty());
        assert(spec_session_langs(rows, session, rows.len() as int) =~= Seq::<Seq<char>>::empty());
        assert(spec_views(repo_names@) + Seq::<Seq<char>>::empty() =~= spec_views(repo_names@));
        assert(spec_views(langs@) + Seq::<Seq<char>>::empty() =~= spec_views(langs@));
    }
    let distinct_repos = dedup_strings(&repo_names);
    let distinct_langs = dedup_strings(&langs);
    EmbeddingStats {
        chunk_count,
        total_lines,
        repo_count: distinct_repos.len() as u64,
        languages: distinct_langs,
    }
}

} // verus!
