//! The candidate-matching data model and its pure skill-name helpers.
//! The weighted scoring formulas themselves are floating-point work and
//! live outside this library.

use vstd::prelude::*;
use crate::text::{
    spec_lower, spec_trim, to_chars, lower_chars, chars_trim, chars_to_string,
};

verus! {

/// A skill a job asks for.
pub struct RequiredSkill {
    pub name: String,
    pub level: Option<String>,
    pub mandatory: Option<bool>,
}

/// A skill a candidate claims, with a proficiency level.
pub struct CandidateSkill {
    pub name: String,
    pub level: String,
}

/// One entry of a candidate's work history.
pub struct CandidateExperience {
    pub title: String,
    pub company: String,
    pub duration: String,
    pub description: Option<String>,
}

/// A score together with what drove it.
pub struct ExplainableScore {
    pub score: i32,
    pub matched: Vec<String>,
    pub missing: Vec<String>,
    pub bonus: Vec<String>,
    pub reasoning: Option<String>,
}

/// The aggregate fit of a candidate, with its component scores.
pub struct TalentFitScore {
    pub total: i32,
    pub breakdown: ScoreBreakdown,
}

/// The component scores behind one aggregate fit.
pub struct ScoreBreakdown {
    pub skills: ExplainableScore,
    pub experience: ExplainableScore,
    pub team_fit: ExplainableScore,
    pub culture: ExplainableScore,
}

/// How a team member prefers to work.
pub struct WorkStyle {
    pub communication: String,
    pub collaboration: String,
    pub pace: String,
}

/// A separator character of a skill name turned into a space.
pub open spec fn spec_desep_char(c: char) -> char {
    if c == '-' || c == '_' {
        ' '
    } else {
        c
    }
}

/// The normal form of a skill name: lower-cased, separators turned into
/// spaces, surrounding whitespace trimmed.
pub open spec fn spec_normalize_skill(s: Seq<char>) -> Seq<char> {
    spec_trim(spec_lower(s).map_values(|c: char| spec_desep_char(c)))
}

/// Normalize a skill name so that spellings like `node-js`, `node_js` and
/// `Node JS` compare equal.
pub fn normalize_skill(name: &str) -> (r: String)
    ensures
        r@ == spec_normalize_skill(name@),
{
    let nv = to_chars(name);
    let low = lower_chars(&nv);
    let mut mapped: Vec<char> = Vec::new();
    let mut i: usize = 0;
    while i < low.len()
        invariant
            i <= low@.len(),
            mapped@ == low@.subrange(0, i as int).map_values(|c: char| spec_desep_char(c)),
        decreases low.len() - i,
    {
        let c = low[i];
        if c == '-' || c == '_' {
            mapped.push(' ');
        } else {
            mapped.push(c);
        }
        proof {
            assert(low@.subrange(0, i + 1).map_values(|c: char| spec_desep_char(c)) =~= low@
                .subrange(0, i as int).map_values(|c: char| spec_desep_char(c)).push(
                spec_desep_char(low@[i as int]),
            ));
        }
        i = i + 1;
    }
    proof {
        assert(low@.subrange(0, low@.len() as int) =~= low@);
    }
    let trimmed = chars_trim(&mapped);
    chars_to_string(&trimmed)
}

/// The canonical skill names and their accepted synonyms.
pub open spec fn spec_synonym_table() -> Seq<(Seq<char>, Seq<Seq<char>>)> {
    seq![
        ("javascript"@, seq!["js"@, "ecmascript"@, "es6"@]),
        ("typescript"@, seq!["ts"@]),
        ("python"@, seq!["py"@, "python3"@]),
        ("postgresql"@, seq!["postgres"@, "psql"@, "pgsql"@]),
        ("mongodb"@, seq!["mongo"@]),
        ("kubernetes"@, seq!["k8s"@]),
        ("react"@, seq!["reactjs"@, "react js"@]),
        ("node"@, seq!["nodejs"@, "node js"@]),
        ("graphql"@, seq!["gql"@]),
        ("machine learning"@, seq!["ml"@]),
        ("amazon web services"@, seq!["aws"@]),
        ("google cloud platform"@, seq!["gcp"@]),
    ]
}

/// The fixed synonym table: each canonical skill name with the spellings
/// treated as the same skill.
pub fn get_synonyms() -> (r: Vec<(String, Vec<String>)>)
    ensures
        r@.len() == spec_synonym_table().len(),
        forall|j: int|
            0 <= j < r@.len() ==> {
                let (canon, syns) = #[trigger] spec_synonym_table()[j];
                &&& r@[j].0@ == canon
                &&& r@[j].1@.len() == syns.len()
                &&& forall|k: int| 0 <= k < syns.len() ==> r@[j].1@[k]@ == #[trigger] syns[k]
            },
{
    let mut r: Vec<(String, Vec<String>)> = Vec::new();
    let mut syns: Vec<String> = Vec::new();
    syns.push("js".to_owned());
    syns.push("ecmascript".to_owned());
    syns.push("es6".to_owned());
    r.push(("javascript".to_owned(), syns));
    let mut syns: Vec<String> = Vec::new();
    syns.push("ts".to_owned());
    r.push(("typescript".to_owned(), syns));
    let mut syns: Vec<String> = Vec::new();
    syns.push("py".to_owned());
    syns.push("python3".to_owned());
    r.push(("python".to_owned(), syns));
    let mut syns: Vec<String> = Vec::new();
    syns.push("postgres".to_owned());
    syns.push("psql".to_owned());
    syns.push("pgsql".to_owned());
    r.push(("postgresql".to_owned(), syns));
    let mut syns: Vec<String> = Vec::new();
    syns.push("mongo".to_owned());
    r.push(("mongodb".to_owned(), syns));
    let mut syns: Vec<String> = Vec::new();
    syns.push("k8s".to_owned());
    r.push(("kubernetes".to_owned(), syns));
    let mut syns: Vec<String> = Vec::new();
    syns.push("reactjs".to_owned());
    syns.push("react js".to_owned());
    r.push(("react".to_owned(), syns));
    let mut syns: Vec<String> = Vec::new();
    syns.push("nodejs".to_owned());
    syns.push("node js".to_owned());
    r.push(("node".to_owned(), syns));
    let mut syns: Vec<String> = Vec::new();
    syns.push("gql".to_owned());
    r.push(("graphql".to_owned(), syns));
    let mut syns: Vec<String> = Vec::new();
    syns.push("ml".to_owned());
    r.push(("machine learning".to_owned(), syns));
    let mut syns: Vec<String> = Vec::new();
    syns.push("aws".to_owned());
    r.push(("amazon web services".to_owned(), syns));
    let mut syns: Vec<String> = Vec::new();
    syns.push("gcp".to_owned());
    r.push(("google cloud platform".to_owned(), syns));
    r
}


// ---------------------------------------------------------------------------
// Heuristic culture fit
// ---------------------------------------------------------------------------

/// Both texts mention the keyword.
pub open spec fn spec_culture_hit(k: Seq<char>, pl: Seq<char>, jl: Seq<char>) -> bool {
    crate::text::spec_contains(pl, k) && crate::text::spec_contains(jl, k)
}

/// The keyword-based culture score before clamping: 70, plus 5 for each
/// value both texts mention, minus small penalties for opposed work-style
/// signals.
pub open spec fn spec_culture_raw(pl: Seq<char>, jl: Seq<char>) -> int {
    70 + (if spec_culture_hit("collaborative"@, pl, jl) {
        5int
    } else {
        0int
    }) + (if spec_culture_hit("team player"@, pl, jl) {
        5int
    } else {
        0int
    }) + (if spec_culture_hit("communication"@, pl, jl) {
        5int
    } else {
        0int
    }) + (if spec_culture_hit("agile"@, pl, jl) {
        5int
    } else {
        0int
    }) + (if spec_culture_hit("mentor"@, pl, jl) {
        5int
    } else {
        0int
    }) + (if spec_culture_hit("leadership"@, pl, jl) {
        5int
    } else {
        0int
    }) - (if crate::text::spec_contains(pl, "independent"@) && crate::text::spec_contains(
        jl,
        "collaborative"@,
    ) {
        5int
    } else {
        0int
    }) - (if crate::text::spec_contains(pl, "fast-paced"@) && crate::text::spec_contains(
        jl,
        "steady"@,
    ) {
        3int
    } else {
        0int
    })
}

/// The matched-signal descriptions, in their fixed order.
pub open spec fn spec_culture_matched(pl: Seq<char>, jl: Seq<char>) -> Seq<Seq<char>> {
    (if spec_culture_hit("collaborative"@, pl, jl) {
        seq!["Values collaboration"@]
    } else {
        Seq::<Seq<char>>::empty()
    }) + (if spec_culture_hit("team player"@, pl, jl) {
        seq!["Team-oriented"@]
    } else {
        Seq::<Seq<char>>::empty()
    }) + (if spec_culture_hit("communication"@, pl, jl) {
        seq!["Strong communicator"@]
    } else {
        Seq::<Seq<char>>::empty()
    }) + (if spec_culture_hit("agile"@, pl, jl) {
        seq!["Familiar with agile"@]
    } else {
        Seq::<Seq<char>>::empty()
    }) + (if spec_culture_hit("mentor"@, pl, jl) {
        seq!["Mentorship experience"@]
    } else {
        Seq::<Seq<char>>::empty()
    }) + (if spec_culture_hit("leadership"@, pl, jl) {
        seq!["Leadership qualities"@]
    } else {
        Seq::<Seq<char>>::empty()
    })
}

/// The mismatch descriptions, in their fixed order.
pub open spec fn spec_culture_missing(pl: Seq<char>, jl: Seq<char>) -> Seq<Seq<char>> {
    (if crate::text::spec_contains(pl, "independent"@) && crate::text::spec_contains(
        jl,
        "collaborative"@,
    ) {
        seq!["Work style may differ (independent vs collaborative)"@]
    } else {
        Seq::<Seq<char>>::empty()
    }) + (if crate::text::spec_contains(pl, "fast-paced"@) && crate::text::spec_contains(
        jl,
        "steady"@,
    ) {
        seq!["Pace preference may differ"@]
    } else {
        Seq::<Seq<char>>::empty()
    })
}

fn culture_matched_list(pl: &Vec<char>, jl: &Vec<char>) -> (r: Vec<String>)
    ensures
        r@.map_values(|s: String| s@) == spec_culture_matched(pl@, jl@),
{
    let mut out: Vec<String> = Vec::new();
    let ghost p1 = if spec_culture_hit("collaborative"@, pl@, jl@) {
        seq!["Values collaboration"@]
    } else {
        Seq::<Seq<char>>::empty()
    };
    let ghost p2 = if spec_culture_hit("team player"@, pl@, jl@) {
        seq!["Team-oriented"@]
    } else {
        Seq::<Seq<char>>::empty()
    };
    let ghost p3 = if spec_culture_hit("communication"@, pl@, jl@) {
        seq!["Strong communicator"@]
    } else {
        Seq::<Seq<char>>::empty()
    };
    let ghost p4 = if spec_culture_hit("agile"@, pl@, jl@) {
        seq!["Familiar with agile"@]
    } else {
        Seq::<Seq<char>>::empty()
    };
    let ghost p5 = if spec_culture_hit("mentor"@, pl@, jl@) {
        seq!["Mentorship experience"@]
    } else {
        Seq::<Seq<char>>::empty()
    };
    let ghost p6 = if spec_culture_hit("leadership"@, pl@, jl@) {
        seq!["Leadership qualities"@]
    } else {
        Seq::<Seq<char>>::empty()
    };
    if crate::text::chars_contains_str(pl, "collaborative") && crate::text::chars_contains_str(
        jl,
        "collaborative",
    ) {
        out.push("Values collaboration".to_owned());
    }
    proof {
        assert(out@.map_values(|s: String| s@) =~= p1);
    }
    if crate::text::chars_contains_str(pl, "team player") && crate::text::chars_contains_str(
        jl,
        "team player",
    ) {
        out.push("Team-oriented".to_owned());
    }
    proof {
        assert(out@.map_values(|s: String| s@) =~= p1 + p2);
    }
    if crate::text::chars_contains_str(pl, "communication") && crate::text::chars_contains_str(
        jl,
        "communication",
    ) {
        out.push("Strong communicator".to_owned());
    }
    proof {
        assert(out@.map_values(|s: String| s@) =~= p1 + p2 + p3);
    }
    if crate::text::chars_contains_str(pl, "agile") && crate::text::chars_contains_str(
        jl,
        "agile",
    ) {
        out.push("Familiar with agile".to_owned());
    }
    proof {
        assert(out@.map_values(|s: String| s@) =~= p1 + p2 + p3 + p4);
    }
    if crate::text::chars_contains_str(pl, "mentor") && crate::text::chars_contains_str(
        jl,
        "mentor",
    ) {
        out.push("Mentorship experience".to_owned());
    }
    proof {
        assert(out@.map_values(|s: String| s@) =~= p1 + p2 + p3 + p4 + p5);
    }
    if crate::text::chars_contains_str(pl, "leadership") && crate::text::chars_contains_str(
        jl,
        "leadership",
    ) {
        out.push("Leadership qualities".to_owned());
    }
    proof {
        assert(out@.map_values(|s: String| s@) =~= p1 + p2 + p3 + p4 + p5 + p6);
        assert(spec_culture_matched(pl@, jl@) == p1 + p2 + p3 + p4 + p5 + p6);
    }
    out
}

fn culture_missing_list(pl: &Vec<char>, jl: &Vec<char>) -> (r: Vec<String>)
    ensures
        r@.map_values(|s: String| s@) == spec_culture_missing(pl@, jl@),
{
    let mut out: Vec<String> = Vec::new();
    let ghost q1 = if crate::text::spec_contains(pl@, "independent"@)
        && crate::text::spec_contains(jl@, "collaborative"@) {
        seq!["Work style may differ (independent vs collaborative)"@]
    } else {
        Seq::<Seq<char>>::empty()
    };
    let ghost q2 = if crate::text::spec_contains(pl@, "fast-paced"@)
        && crate::text::spec_contains(jl@, "steady"@) {
        seq!["Pace preference may differ"@]
    } else {
        Seq::<Seq<char>>::empty()
    };
    if crate::text::chars_contains_str(pl, "independent") && crate::text::chars_contains_str(
        jl,
        "collaborative",
    ) {
        out.push("Work style may differ (independent vs collaborative)".to_owned());
    }
    proof {
        assert(out@.map_values(|s: String| s@) =~= q1);
    }
    if crate::text::chars_contains_str(pl, "fast-paced") && crate::text::chars_contains_str(
        jl,
        "steady",
    ) {
        out.push("Pace preference may differ".to_owned());
    }
    proof {
        assert(out@.map_values(|s: String| s@) =~= q1 + q2);
        assert(spec_culture_missing(pl@, jl@) == q1 + q2);
    }
    out
}

fn culture_raw_score(pl: &Vec<char>, jl: &Vec<char>) -> (r: i32)
    ensures
        r as int == spec_culture_raw(pl@, jl@),
        62 <= r <= 100,
{
    let mut score: i32 = 70;
    if crate::text::chars_contains_str(pl, "collaborative") && crate::text::chars_contains_str(
        jl,
        "collaborative",
    ) {
        score = score + 5;
    }
    if crate::text::chars_contains_str(pl, "team player") && crate::text::chars_contains_str(
        jl,
        "team player",
    ) {
        score = score + 5;
    }
    if crate::text::chars_contains_str(pl, "communication") && crate::text::chars_contains_str(
        jl,
        "communication",
    ) {
        score = score + 5;
    }
    if crate::text::chars_contains_str(pl, "agile") && crate::text::chars_contains_str(
        jl,
        "agile",
    ) {
        score = score + 5;
    }
    if crate::text::chars_contains_str(pl, "mentor") && crate::text::chars_contains_str(
        jl,
        "mentor",
    ) {
        score = score + 5;
    }
    if crate::text::chars_contains_str(pl, "leadership") && crate::text::chars_contains_str(
        jl,
        "leadership",
    ) {
        score = score + 5;
    }
    if crate::text::chars_contains_str(pl, "independent") && crate::text::chars_contains_str(
        jl,
        "collaborative",
    ) {
        score = score - 5;
    }
    if crate::text::chars_contains_str(pl, "fast-paced") && crate::text::chars_contains_str(
        jl,
        "steady",
    ) {
        score = score - 3;
    }
    score
}

/// Keyword-based culture fit, used when no text model is reachable: a
/// neutral 70 when either text is missing, else the raw keyword score
/// clamped into 0..100, with the matched values and mismatches listed.
pub fn calculate_heuristic_culture_score(
    candidate_profile: Option<&str>,
    job_description: Option<&str>,
) -> (r: ExplainableScore)
    ensures
        r.bonus@.len() == 0,
        r.reasoning matches Some(m) && m@ == "Heuristic culture analysis (AI unavailable)"@,
        match (candidate_profile, job_description) {
            (Some(p), Some(j)) => {
                let pl = spec_lower(p@);
                let jl = spec_lower(j@);
                let raw = spec_culture_raw(pl, jl);
                &&& r.score as int == if raw > 100 {
                    100int
                } else if raw < 0 {
                    0int
                } else {
                    raw
                }
                &&& r.matched@.map_values(|s: String| s@) == spec_culture_matched(pl, jl)
                &&& r.missing@.map_values(|s: String| s@) == spec_culture_missing(pl, jl)
            },
            _ => r.score == 70 && r.matched@.len() == 0 && r.missing@.len() == 0,
        },
{
    match (candidate_profile, job_description) {
        (Some(p), Some(j)) => {
            let pv = to_chars(p);
            let jv = to_chars(j);
            let pl = lower_chars(&pv);
            let jl = lower_chars(&jv);
            let score = culture_raw_score(&pl, &jl);
            let matched = culture_matched_list(&pl, &jl);
            let missing = culture_missing_list(&pl, &jl);
            let clamped: i32 = if score > 100 {
                100
            } else if score < 0 {
                0
            } else {
                score
            };
            ExplainableScore {
                score: clamped,
                matched,
                missing,
                bonus: Vec::new(),
                reasoning: Some("Heuristic culture analysis (AI unavailable)".to_owned()),
            }
        },
        _ => {
            let empty_matched: Vec<String> = Vec::new();
            let empty_missing: Vec<String> = Vec::new();
            ExplainableScore {
                score: 70,
                matched: empty_matched,
                missing: empty_missing,
                bonus: Vec::new(),
                reasoning: Some("Heuristic culture analysis (AI unavailable)".to_owned()),
            }
        },
    }
}

} // verus!
