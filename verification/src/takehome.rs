//! The data model of take-home project generation and its pure helpers:
//! simple skill matching, gap analysis, and prompt-side formatting of
//! skills.  The generation call itself is an outside text-model service.

use vstd::prelude::*;
use crate::text::{
    spec_lower, spec_contains, to_chars, lower_chars, chars_eq, chars_contains, chars_to_string,
    push_str,
};

verus! {

/// One analyzed repository, as input to project generation.
pub struct RepoAnalysis {
    pub name: String,
    pub description: Option<String>,
    pub readme_content: Option<String>,
    pub inferred_purpose: Option<String>,
    pub primary_language: Option<String>,
    pub size: u32,
    pub is_fork: bool,
}

/// A claimed skill in the candidate's context.
pub struct CandidateSkillContext {
    pub name: String,
    pub level: String,
}

/// The job a take-home project is generated for.
pub struct JobContext {
    pub title: String,
    pub description: Option<String>,
    pub required_skills: Vec<RequiredSkillContext>,
    pub experience_level: String,
}

/// One skill requirement of the job context.
pub struct RequiredSkillContext {
    pub name: String,
    pub level: Option<String>,
    pub mandatory: bool,
}

/// One weighted criterion a submission is judged by.
pub struct EvaluationCriterion {
    pub criterion: String,
    pub weight: i32,
    pub description: String,
}

/// One generated take-home project.
pub struct TakeHomeProject {
    pub id: String,
    pub title: String,
    pub description: String,
    pub skill_focus: Vec<String>,
    pub requirements: Vec<String>,
    pub deliverables: Vec<String>,
    pub evaluation_criteria: Vec<EvaluationCriterion>,
    pub time_estimate_hours: i32,
    pub difficulty: String,
    pub skill_gaps_addressed: Vec<String>,
    pub based_on_repos: Vec<String>,
}

/// What the generation run looked at, for transparency.
pub struct AnalysisSummary {
    pub repos_analyzed: i32,
    pub readmes_found: i32,
    pub primary_languages: Vec<String>,
    pub skill_match_percentage: i32,
    pub identified_gaps: Vec<String>,
}

/// The generated projects with their analysis summary.
pub struct TakeHomeProjects {
    pub projects: Vec<TakeHomeProject>,
    pub analysis_summary: AnalysisSummary,
}

// ---------------------------------------------------------------------------
// Simple skill matching and gap analysis
// ---------------------------------------------------------------------------

/// Two skill names stand for the same skill, loosely: equal when
/// lower-cased, a known synonym pair, or one containing the other.
pub open spec fn spec_skills_match_simple(a: Seq<char>, b: Seq<char>) -> bool {
    let c = spec_lower(a);
    let r = spec_lower(b);
    ||| c == r
    ||| spec_synonym_pair(c, r)
    ||| spec_synonym_pair(r, c)
    ||| spec_contains(c, r)
    ||| spec_contains(r, c)
}

/// The fixed long-form/short-form synonym pairs of `skills_match_simple`.
pub open spec fn spec_synonym_pair(a: Seq<char>, b: Seq<char>) -> bool {
    ||| (a == "javascript"@ && b == "js"@)
    ||| (a == "typescript"@ && b == "ts"@)
    ||| (a == "python"@ && b == "py"@)
    ||| (a == "postgresql"@ && b == "postgres"@)
    ||| (a == "kubernetes"@ && b == "k8s"@)
    ||| (a == "react"@ && b == "reactjs"@)
    ||| (a == "node"@ && b == "nodejs"@)
}

fn synonym_pair(a: &Vec<char>, b: &Vec<char>) -> (r: bool)
    ensures
        r == spec_synonym_pair(a@, b@),
{
    (crate::text::chars_eq_str(a, "javascript") && crate::text::chars_eq_str(b, "js"))
        || (crate::text::chars_eq_str(a, "typescript") && crate::text::chars_eq_str(b, "ts")) || (
    crate::text::chars_eq_str(a, "python") && crate::text::chars_eq_str(b, "py")) || (
    crate::text::chars_eq_str(a, "postgresql") && crate::text::chars_eq_str(b, "postgres")) || (
    crate::text::chars_eq_str(a, "kubernetes") && crate::text::chars_eq_str(b, "k8s")) || (
    crate::text::chars_eq_str(a, "react") && crate::text::chars_eq_str(b, "reactjs")) || (
    crate::text::chars_eq_str(a, "node") && crate::text::chars_eq_str(b, "nodejs"))
}

/// Loose equality of two skill names: case-insensitive, known synonym
/// pairs, and substring containment either way.
pub fn skills_match_simple(candidate_skill: &str, required_skill: &str) -> (r: bool)
    ensures
        r == spec_skills_match_simple(candidate_skill@, required_skill@),
{
    let cv = to_chars(candidate_skill);
    let rv = to_chars(required_skill);
    let c = lower_chars(&cv);
    let r = lower_chars(&rv);
    chars_eq(&c, &r) || synonym_pair(&c, &r) || synonym_pair(&r, &c) || chars_contains(&c, &r)
        || chars_contains(&r, &c)
}

/// Some claimed skill matches the required name.
pub open spec fn spec_any_match(cands: Seq<CandidateSkillContext>, name: Seq<char>) -> bool {
    exists|t: int|
        0 <= t < cands.len() && spec_skills_match_simple((#[trigger] cands[t]).name@, name)
}

/// The names of the required skills from `i` on that some claimed skill
/// matches.
pub open spec fn spec_matched_names(
    cands: Seq<CandidateSkillContext>,
    reqs: Seq<RequiredSkillContext>,
    i: int,
) -> Seq<Seq<char>>
    decreases reqs.len() - i,
{
    if i < 0 || i >= reqs.len() {
        Seq::empty()
    } else {
        (if spec_any_match(cands, reqs[i].name@) {
            seq![reqs[i].name@]
        } else {
            Seq::empty()
        }) + spec_matched_names(cands, reqs, i + 1)
    }
}

/// The names of the required skills from `i` on that no claimed skill
/// matches.
pub open spec fn spec_gap_names(
    cands: Seq<CandidateSkillContext>,
    reqs: Seq<RequiredSkillContext>,
    i: int,
) -> Seq<Seq<char>>
    decreases reqs.len() - i,
{
    if i < 0 || i >= reqs.len() {
        Seq::empty()
    } else {
        (if spec_any_match(cands, reqs[i].name@) {
            Seq::empty()
        } else {
            seq![reqs[i].name@]
        }) + spec_gap_names(cands, reqs, i + 1)
    }
}

fn any_match(cands: &Vec<CandidateSkillContext>, name: &str) -> (r: bool)
    ensures
        r == spec_any_match(cands@, name@),
{
    let mut t: usize = 0;
    while t < cands.len()
        invariant
            t <= cands@.len(),
            forall|k: int|
                0 <= k < t ==> !spec_skills_match_simple((#[trigger] cands@[k]).name@, name@),
        decreases cands.len() - t,
    {
        if skills_match_simple(cands[t].name.as_str(), name) {
            return true;
        }
        t = t + 1;
    }
    false
}

/// Partition the required skills into those the candidate's claimed skills
/// cover and those left as gaps, in requirement order.
pub fn analyze_skill_gaps(
    candidate_skills: &Vec<CandidateSkillContext>,
    required_skills: &Vec<RequiredSkillContext>,
) -> (r: (Vec<String>, Vec<String>))
    ensures
        r.0@.map_values(|s: String| s@) == spec_matched_names(
            candidate_skills@,
            required_skills@,
            0,
        ),
        r.1@.map_values(|s: String| s@) == spec_gap_names(candidate_skills@, required_skills@, 0),
{
    let mut matched: Vec<String> = Vec::new();
    let mut gaps: Vec<String> = Vec::new();
    let mut i: usize = 0;
    proof {
        assert(matched@.map_values(|s: String| s@) + spec_matched_names(
            candidate_skills@,
            required_skills@,
            0,
        ) =~= spec_matched_names(candidate_skills@, required_skills@, 0));
        assert(gaps@.map_values(|s: String| s@) + spec_gap_names(
            candidate_skills@,
            required_skills@,
            0,
        ) =~= spec_gap_names(candidate_skills@, required_skills@, 0));
    }
    while i < required_skills.len()
        invariant
            i <= required_skills@.len(),
            spec_matched_names(candidate_skills@, required_skills@, 0) == matched@.map_values(
                |s: String| s@,
            ) + spec_matched_names(candidate_skills@, required_skills@, i as int),
            spec_gap_names(candidate_skills@, required_skills@, 0) == gaps@.map_values(
                |s: String| s@,
            ) + spec_gap_names(candidate_skills@, required_skills@, i as int),
        decreases required_skills.len() - i,
    {
        let ghost old_matched = matched@.map_values(|s: String| s@);
        let ghost old_gaps = gaps@.map_values(|s: String| s@);
        let req = &required_skills[i];
        if any_match(candidate_skills, req.name.as_str()) {
            matched.push(req.name.clone());
            proof {
                assert(matched@.map_values(|s: String| s@) =~= old_matched.push(
                    required_skills@[i as int].name@,
                ));
                assert(old_matched + (seq![required_skills@[i as int].name@] + spec_matched_names(
                    candidate_skills@,
                    required_skills@,
                    i + 1,
                )) =~= matched@.map_values(|s: String| s@) + spec_matched_names(
                    candidate_skills@,
                    required_skills@,
                    i + 1,
                ));
                assert(Seq::<Seq<char>>::empty() + spec_gap_names(
                    candidate_skills@,
                    required_skills@,
                    i + 1,
                ) =~= spec_gap_names(candidate_skills@, required_skills@, i + 1));
            }
        } else {
            gaps.push(req.name.clone());
            proof {
                assert(gaps@.map_values(|s: String| s@) =~= old_gaps.push(
                    required_skills@[i as int].name@,
                ));
                assert(old_gaps + (seq![required_skills@[i as int].name@] + spec_gap_names(
                    candidate_skills@,
                    required_skills@,
                    i + 1,
                )) =~= gaps@.map_values(|s: String| s@) + spec_gap_names(
                    candidate_skills@,
                    required_skills@,
                    i + 1,
                ));
                assert(Seq::<Seq<char>>::empty() + spec_matched_names(
                    candidate_skills@,
                    required_skills@,
                    i + 1,
                ) =~= spec_matched_names(candidate_skills@, required_skills@, i + 1));
            }
        }
        i = i + 1;
    }
    proof {
        assert(spec_matched_names(candidate_skills@, required_skills@, required_skills@.len() as int)
            =~= Seq::<Seq<char>>::empty());
        assert(spec_gap_names(candidate_skills@, required_skills@, required_skills@.len() as int)
            =~= Seq::<Seq<char>>::empty());
        assert(matched@.map_values(|s: String| s@) + Seq::<Seq<char>>::empty() =~= matched@
            .map_values(|s: String| s@));
        assert(gaps@.map_values(|s: String| s@) + Seq::<Seq<char>>::empty() =~= gaps@.map_values(
            |s: String| s@,
        ));
    }
    (matched, gaps)
}

// ---------------------------------------------------------------------------
// Prompt-side formatting
// ---------------------------------------------------------------------------

/// One claimed skill rendered for a prompt.
pub open spec fn spec_skill_entry(s: CandidateSkillContext) -> Seq<char> {
    s.name@ + " ("@ + s.level@ + ")"@
}

/// The claimed skills joined with commas.
pub open spec fn spec_format_skills(skills: Seq<CandidateSkillContext>, i: int) -> Seq<char>
    decreases skills.len() - i,
{
    if i < 0 || i >= skills.len() {
        Seq::empty()
    } else if i == skills.len() - 1 {
        spec_skill_entry(skills[i])
    } else {
        spec_skill_entry(skills[i]) + ", "@ + spec_format_skills(skills, i + 1)
    }
}

/// Render the claimed skills as a comma-separated prompt line.
pub fn format_skills(skills: &Vec<CandidateSkillContext>) -> (r: String)
    ensures
        r@ == spec_format_skills(skills@, 0),
{
    let mut out: Vec<char> = Vec::new();
    let mut i: usize = 0;
    while i < skills.len()
        invariant
            i <= skills@.len(),
            spec_format_skills(skills@, 0) == out@ + spec_format_skills(skills@, i as int),
        decreases skills.len() - i,
    {
        let ghost before = out@;
        let s = &skills[i];
        push_str(&mut out, s.name.as_str());
        push_str(&mut out, " (");
        push_str(&mut out, s.level.as_str());
        push_str(&mut out, ")");
        if i + 1 < skills.len() {
            push_str(&mut out, ", ");
            proof {
                assert(out@ =~= before + (spec_skill_entry(skills@[i as int]) + ", "@));
                assert(before + ((spec_skill_entry(skills@[i as int]) + ", "@)
                    + spec_format_skills(skills@, i + 1)) =~= out@ + spec_format_skills(
                    skills@,
                    i + 1,
                ));
            }
        } else {
            proof {
                assert(out@ =~= before + spec_skill_entry(skills@[i as int]));
                assert(spec_format_skills(skills@, i + 1) =~= Seq::<char>::empty());
                assert(out@ + Seq::<char>::empty() =~= out@);
            }
        }
        i = i + 1;
    }
    proof {
        if skills@.len() == 0 {
        } else {
            assert(spec_format_skills(skills@, skills@.len() as int) =~= Seq::<char>::empty());
        }
        assert(out@ + Seq::<char>::empty() =~= out@);
    }
    chars_to_string(&out)
}

/// One required skill rendered for a prompt: its name with its level (or
/// `any`) and whether it is required or nice to have.
pub open spec fn spec_required_entry(s: RequiredSkillContext) -> Seq<char> {
    s.name@ + " ("@ + (match s.level {
        Some(l) => l@,
        None => "any"@,
    }) + ", "@ + (if s.mandatory {
        "required"@
    } else {
        "nice-to-have"@
    }) + ")"@
}

/// The required skills joined with commas.
pub open spec fn spec_format_required(skills: Seq<RequiredSkillContext>, i: int) -> Seq<char>
    decreases skills.len() - i,
{
    if i < 0 || i >= skills.len() {
        Seq::empty()
    } else if i == skills.len() - 1 {
        spec_required_entry(skills[i])
    } else {
        spec_required_entry(skills[i]) + ", "@ + spec_format_required(skills, i + 1)
    }
}

/// Render the required skills as a comma-separated prompt line.
pub fn format_required_skills(skills: &Vec<RequiredSkillContext>) -> (r: String)
    ensures
        r@ == spec_format_required(skills@, 0),
{
    let mut out: Vec<char> = Vec::new();
    let mut i: usize = 0;
    while i < skills.len()
        invariant
            i <= skills@.len(),
            spec_format_required(skills@, 0) == out@ + spec_format_required(skills@, i as int),
        decreases skills.len() - i,
    {
        let ghost before = out@;
        let s = &skills[i];
        push_str(&mut out, s.name.as_str());
        push_str(&mut out, " (");
        match &s.level {
            Some(l) => push_str(&mut out, l.as_str()),
            None => push_str(&mut out, "any"),
        }
        push_str(&mut out, ", ");
        if s.mandatory {
            push_str(&mut out, "required");
        } else {
            push_str(&mut out, "nice-to-have");
        }
        push_str(&mut out, ")");
        if i + 1 < skills.len() {
            push_str(&mut out, ", ");
            proof {
                assert(out@ =~= before + (spec_required_entry(skills@[i as int]) + ", "@));
                assert(before + ((spec_required_entry(skills@[i as int]) + ", "@)
                    + spec_format_required(skills@, i + 1)) =~= out@ + spec_format_required(
                    skills@,
                    i + 1,
                ));
            }
        } else {
            proof {
                assert(out@ =~= before + spec_required_entry(skills@[i as int]));
                assert(spec_format_required(skills@, i + 1) =~= Seq::<char>::empty());
                assert(out@ + Seq::<char>::empty() =~= out@);
            }
        }
        i = i + 1;
    }
    proof {
        if skills@.len() > 0 {
            assert(spec_format_required(skills@, skills@.len() as int) =~= Seq::<char>::empty());
        }
        assert(out@ + Seq::<char>::empty() =~= out@);
    }
    chars_to_string(&out)
}


/// Most repositories rendered into a generation prompt.
pub const PROMPT_REPO_CAP: usize = 30;

/// A readme excerpt cut to this many characters.
pub const README_EXCERPT_CHARS: usize = 500;

/// The first `README_EXCERPT_CHARS` characters of a readme.
pub open spec fn spec_readme_cut(c: Seq<char>) -> Seq<char> {
    if c.len() > README_EXCERPT_CHARS {
        c.subrange(0, README_EXCERPT_CHARS as int)
    } else {
        c
    }
}

/// What one repository says about itself in the prompt: its readme excerpt
/// when there is one, else an inferred purpose, else nothing.
pub open spec fn spec_repo_content(r: RepoAnalysis) -> Seq<char> {
    match r.readme_content {
        Some(c) => "README excerpt: "@ + spec_readme_cut(c@),
        None => match r.inferred_purpose {
            Some(p) => "Inferred purpose: "@ + p@,
            None => "No description available"@,
        },
    }
}

/// One repository's prompt line.
pub open spec fn spec_repo_entry(r: RepoAnalysis) -> Seq<char> {
    "- "@ + r.name@ + " ["@ + (match r.primary_language {
        Some(l) => l@,
        None => "Unknown"@,
    }) + "]: "@ + (match r.description {
        Some(d) => d@,
        None => "No description"@,
    }) + "\n  "@ + spec_repo_content(r)
}

/// The whole repository block of the prompt: the first repositories, one
/// line each, joined with newlines; without repositories a fixed note.
pub open spec fn spec_format_repos(repos: Seq<RepoAnalysis>) -> Seq<char> {
    if repos.len() == 0 {
        "No GitHub repositories available. Generate projects based on claimed skills and job requirements only."@
    } else {
        let n = if repos.len() > PROMPT_REPO_CAP {
            PROMPT_REPO_CAP as int
        } else {
            repos.len() as int
        };
        crate::text::spec_join_nl(Seq::new(n as nat, |j: int| spec_repo_entry(repos[j])))
    }
}

/// Append the first characters of a readme, up to the excerpt ceiling.
fn push_readme_cut(out: &mut Vec<char>, c: &str)
    ensures
        final(out)@ == old(out)@ + spec_readme_cut(c@),
{
    let cv = to_chars(c);
    if cv.len() > README_EXCERPT_CHARS {
        let ghost base = out@;
        let mut j: usize = 0;
        while j < README_EXCERPT_CHARS
            invariant
                j <= README_EXCERPT_CHARS,
                README_EXCERPT_CHARS < cv@.len(),
                cv@ == c@,
                out@ == base + c@.subrange(0, j as int),
            decreases README_EXCERPT_CHARS - j,
        {
            out.push(cv[j]);
            proof {
                assert(base + c@.subrange(0, j + 1) =~= (base + c@.subrange(0, j as int)).push(
                    c@[j as int],
                ));
            }
            j = j + 1;
        }
    } else {
        crate::text::push_all(out, &cv);
    }
}

/// Render one repository's prompt line.
fn push_repo_entry(out: &mut Vec<char>, r: &RepoAnalysis)
    ensures
        final(out)@ == old(out)@ + spec_repo_entry(*r),
{
    let ghost base = out@;
    push_str(out, "- ");
    push_str(out, r.name.as_str());
    push_str(out, " [");
    match &r.primary_language {
        Some(l) => push_str(out, l.as_str()),
        None => push_str(out, "Unknown"),
    }
    push_str(out, "]: ");
    match &r.description {
        Some(d) => push_str(out, d.as_str()),
        None => push_str(out, "No description"),
    }
    push_str(out, "\n  ");
    match &r.readme_content {
        Some(c) => {
            push_str(out, "README excerpt: ");
            push_readme_cut(out, c.as_str());
        },
        None => match &r.inferred_purpose {
            Some(p) => {
                push_str(out, "Inferred purpose: ");
                push_str(out, p.as_str());
            },
            None => push_str(out, "No description available"),
        },
    }
    proof {
        assert(out@ =~= base + spec_repo_entry(*r));
    }
}

/// Render the repositories for the generation prompt, one line per
/// repository up to the cap, with readme excerpts where they exist.
pub fn format_repos_for_prompt(repos: &Vec<RepoAnalysis>) -> (r: String)
    ensures
        r@ == spec_format_repos(repos@),
{
    if repos.len() == 0 {
        return "No GitHub repositories available. Generate projects based on claimed skills and job requirements only.".to_owned();
    }
    let n = if repos.len() > PROMPT_REPO_CAP {
        PROMPT_REPO_CAP
    } else {
        repos.len()
    };
    let ghost target = Seq::new(n as nat, |j: int| spec_repo_entry(repos@[j]));
    let mut entries: Vec<Vec<char>> = Vec::new();
    let mut i: usize = 0;
    while i < n
        invariant
            i <= n <= repos@.len(),
            n as int == if repos@.len() > PROMPT_REPO_CAP {
                PROMPT_REPO_CAP as int
            } else {
                repos@.len() as int
            },
            target == Seq::new(n as nat, |j: int| spec_repo_entry(repos@[j])),
            entries.deep_view() =~= target.subrange(0, i as int),
        decreases n - i,
    {
        let mut line: Vec<char> = Vec::new();
        push_repo_entry(&mut line, &repos[i]);
        let ghost before = entries.deep_view();
        entries.push(line);
        proof {
            assert(entries.deep_view() =~~= before.push(spec_repo_entry(repos@[i as int])));
            assert(entries.deep_view() =~= target.subrange(0, i + 1));
        }
        i = i + 1;
    }
    let joined = crate::text::join_nl_range(&entries, 0, n);
    proof {
        assert(entries.deep_view().subrange(0, n as int) =~= target);
    }
    chars_to_string(&joined)
}

} // verus!
