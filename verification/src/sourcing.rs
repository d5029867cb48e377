//! Pure helpers of candidate sourcing: parsing a profile search result's
//! title and expanding a job title into related search queries.  The search
//! calls themselves are outside I/O.

use vstd::prelude::*;
use crate::text::{
    spec_lower, spec_trim, spec_ends_with, spec_match_at, spec_contains, to_chars, lower_chars,
    chars_trim, chars_to_string, chars_ends_with_str, chars_contains_str, match_at,
};

verus! {

/// `s` with every trailing copy of `suf` removed.
pub open spec fn spec_strip_suffix_all(s: Seq<char>, suf: Seq<char>) -> Seq<char>
    decreases s.len(),
{
    if suf.len() > 0 && spec_ends_with(s, suf) {
        spec_strip_suffix_all(s.subrange(0, s.len() - suf.len()), suf)
    } else {
        s
    }
}

/// Index of the first occurrence of `pat` in `s` at or after `i`, or -1.
pub open spec fn spec_find_from(s: Seq<char>, pat: Seq<char>, i: int) -> int
    decreases s.len() + 1 - i,
{
    if i < 0 || i + pat.len() > s.len() {
        -1
    } else if spec_match_at(s, pat, i) {
        i
    } else {
        spec_find_from(s, pat, i + 1)
    }
}

proof fn lemma_find_from_bounds(s: Seq<char>, pat: Seq<char>, i: int)
    ensures
        spec_find_from(s, pat, i) == -1 || (i <= spec_find_from(s, pat, i) && spec_find_from(
            s,
            pat,
            i,
        ) + pat.len() <= s.len()),
    decreases s.len() + 1 - i,
{
    if !(i < 0 || i + pat.len() > s.len()) && !spec_match_at(s, pat, i) {
        lemma_find_from_bounds(s, pat, i + 1);
    }
}

/// The name and role a profile search result's title splits into: the
/// site-name suffixes are stripped, then the first " - " separates the
/// person's name from their role; without one the whole title is the name
/// and the role is unknown.
pub open spec fn spec_parse_title(t: Seq<char>) -> (Seq<char>, Seq<char>) {
    let cleaned = spec_strip_suffix_all(
        spec_strip_suffix_all(t, " | LinkedIn"@),
        " - LinkedIn"@,
    );
    let k = spec_find_from(cleaned, " - "@, 0);
    if k >= 0 {
        (spec_trim(cleaned.subrange(0, k)), spec_trim(cleaned.subrange(k + 3, cleaned.len() as int)))
    } else {
        (cleaned, "Unknown"@)
    }
}

/// Copy the first `n` characters.
fn chars_take(v: &Vec<char>, n: usize) -> (r: Vec<char>)
    requires
        n <= v@.len(),
    ensures
        r@ == v@.subrange(0, n as int),
{
    let mut r: Vec<char> = Vec::new();
    let mut i: usize = 0;
    while i < n
        invariant
            i <= n <= v@.len(),
            r@ == v@.subrange(0, i as int),
        decreases n - i,
    {
        r.push(v[i]);
        proof {
            assert(v@.subrange(0, i + 1) =~= v@.subrange(0, i as int).push(v@[i as int]));
        }
        i = i + 1;
    }
    r
}

/// Copy the characters from `n` on.
fn chars_skip(v: &Vec<char>, n: usize) -> (r: Vec<char>)
    requires
        n <= v@.len(),
    ensures
        r@ == v@.subrange(n as int, v@.len() as int),
{
    let mut r: Vec<char> = Vec::new();
    let mut i: usize = n;
    while i < v.len()
        invariant
            n <= i <= v@.len(),
            r@ == v@.subrange(n as int, i as int),
        decreases v.len() - i,
    {
        r.push(v[i]);
        proof {
            assert(v@.subrange(n as int, i + 1) =~= v@.subrange(n as int, i as int).push(
                v@[i as int],
            ));
        }
        i = i + 1;
    }
    r
}

/// Strip every trailing copy of `suf`.
fn strip_suffix_all(v: Vec<char>, suf: &str) -> (r: Vec<char>)
    requires
        suf@.len() > 0,
    ensures
        r@ == spec_strip_suffix_all(v@, suf@),
{
    let mut cur = v;
    let sufv = to_chars(suf);
    while cur.len() >= sufv.len() && chars_ends_with_str(&cur, suf)
        invariant
            sufv@ == suf@,
            suf@.len() > 0,
            spec_strip_suffix_all(v@, suf@) == spec_strip_suffix_all(cur@, suf@),
        decreases cur.len(),
    {
        let keep = cur.len() - sufv.len();
        let next = chars_take(&cur, keep);
        proof {
            assert(spec_strip_suffix_all(cur@, suf@) == spec_strip_suffix_all(
                cur@.subrange(0, cur@.len() - suf@.len()),
                suf@,
            ));
        }
        cur = next;
    }
    proof {
        if spec_ends_with(cur@, suf@) {
            assert(cur@.len() >= suf@.len());
            assert(false);
        }
    }
    cur
}

/// Find the first occurrence of `pat` at or after position 0.
fn find_sub(v: &Vec<char>, pat: &str) -> (r: Option<usize>)
    ensures
        match r {
            Some(i) => i as int == spec_find_from(v@, pat@, 0) && i + pat@.len() <= v@.len(),
            None => spec_find_from(v@, pat@, 0) == -1,
        },
{
    let pv = to_chars(pat);
    if pv.len() > v.len() {
        proof {
            lemma_find_none(v@, pat@, 0);
        }
        return None;
    }
    let last = v.len() - pv.len();
    let mut i: usize = 0;
    while i <= last
        invariant
            i <= last + 1,
            last == v@.len() - pv@.len(),
            pv@ == pat@,
            spec_find_from(v@, pat@, 0) == spec_find_from(v@, pat@, i as int),
        decreases last + 1 - i,
    {
        if match_at(v, &pv, i) {
            return Some(i);
        }
        proof {
            assert(last < v.len() || pv@.len() == 0);
            if pv@.len() == 0 {
                assert(spec_match_at(v@, pat@, i as int)) by {
                    assert(v@.subrange(i as int, i as int) =~= pat@);
                }
                assert(false);
            }
        }
        i = i + 1;
    }
    proof {
        assert(spec_find_from(v@, pat@, i as int) == -1);
    }
    None
}

proof fn lemma_find_none(s: Seq<char>, pat: Seq<char>, i: int)
    requires
        pat.len() > s.len(),
    ensures
        spec_find_from(s, pat, i) == -1,
{
}

/// Split a profile search result's title into the person's name and their
/// role.
pub fn parse_linkedin_title(title: &str) -> (r: (String, String))
    ensures
        r.0@ == spec_parse_title(title@).0,
        r.1@ == spec_parse_title(title@).1,
{
    let tv = to_chars(title);
    proof {
        reveal_strlit(" | LinkedIn");
        reveal_strlit(" - LinkedIn");
    }
    let cleaned = strip_suffix_all(strip_suffix_all(tv, " | LinkedIn"), " - LinkedIn");
    match find_sub(&cleaned, " - ") {
        Some(k) => {
            proof {
                reveal_strlit(" - ");
                assert(k + 3 <= cleaned.len());
            }
            let name_part = chars_take(&cleaned, k);
            let role_part = chars_skip(&cleaned, k + 3);
            let name = chars_trim(&name_part);
            let role = chars_trim(&role_part);
            (chars_to_string(&name), chars_to_string(&role))
        },
        None => (chars_to_string(&cleaned), "Unknown".to_owned()),
    }
}

// ---------------------------------------------------------------------------
// Search-query expansion
// ---------------------------------------------------------------------------

/// The fixed related-role suggestions for a job title, by keyword group,
/// over the lower-cased title.
pub open spec fn spec_fallback_variations(low: Seq<char>) -> Seq<Seq<char>> {
    (if spec_contains(low, "ai"@) || spec_contains(low, "artificial intelligence"@) {
        seq![
            "Machine Learning Engineer"@,
            "ML Engineer"@,
            "Deep Learning Engineer"@,
            "AI/ML Engineer"@,
        ]
    } else {
        Seq::<Seq<char>>::empty()
    }) + (if spec_contains(low, "machine learning"@) || spec_contains(low, "ml"@) {
        seq!["AI Engineer"@, "Data Scientist"@, "Applied Scientist"@]
    } else {
        Seq::<Seq<char>>::empty()
    }) + (if spec_contains(low, "data scientist"@) {
        seq!["ML Engineer"@, "Data Analyst"@, "Applied Scientist"@]
    } else {
        Seq::<Seq<char>>::empty()
    }) + (if spec_contains(low, "data engineer"@) {
        seq!["Analytics Engineer"@, "ETL Developer"@, "Data Platform Engineer"@]
    } else {
        Seq::<Seq<char>>::empty()
    }) + (if spec_contains(low, "software engineer"@) || spec_contains(low, "developer"@) {
        seq!["Software Developer"@, "SWE"@, "Programmer"@]
    } else {
        Seq::<Seq<char>>::empty()
    }) + (if spec_contains(low, "frontend"@) || spec_contains(low, "front-end"@) {
        seq!["UI Developer"@, "Frontend Developer"@, "React Developer"@]
    } else {
        Seq::<Seq<char>>::empty()
    }) + (if spec_contains(low, "backend"@) || spec_contains(low, "back-end"@) {
        seq!["Backend Developer"@, "Server Developer"@, "API Developer"@]
    } else {
        Seq::<Seq<char>>::empty()
    }) + (if spec_contains(low, "fullstack"@) || spec_contains(low, "full stack"@)
        || spec_contains(low, "full-stack"@) {
        seq!["Full Stack Developer"@, "Fullstack Developer"@, "Web Developer"@]
    } else {
        Seq::<Seq<char>>::empty()
    }) + (if spec_contains(low, "devops"@) {
        seq![
            "Site Reliability Engineer"@,
            "SRE"@,
            "Platform Engineer"@,
            "Infrastructure Engineer"@,
        ]
    } else {
        Seq::<Seq<char>>::empty()
    })
}

/// Append three fixed suggestions when `hit` holds.
fn push3(out: &mut Vec<String>, hit: bool, a: &str, b: &str, c: &str)
    ensures
        final(out)@.map_values(|s: String| s@) == old(out)@.map_values(|s: String| s@) + (if hit {
            seq![a@, b@, c@]
        } else {
            Seq::<Seq<char>>::empty()
        }),
{
    let ghost before = out@.map_values(|s: String| s@);
    if hit {
        out.push(a.to_owned());
        out.push(b.to_owned());
        out.push(c.to_owned());
        proof {
            assert(out@.map_values(|s: String| s@) =~= before + seq![a@, b@, c@]);
        }
    } else {
        proof {
            assert(out@.map_values(|s: String| s@) =~= before + Seq::<Seq<char>>::empty());
        }
    }
}

/// Append four fixed suggestions when `hit` holds.
fn push4(out: &mut Vec<String>, hit: bool, a: &str, b: &str, c: &str, d: &str)
    ensures
        final(out)@.map_values(|s: String| s@) == old(out)@.map_values(|s: String| s@) + (if hit {
            seq![a@, b@, c@, d@]
        } else {
            Seq::<Seq<char>>::empty()
        }),
{
    let ghost before = out@.map_values(|s: String| s@);
    if hit {
        out.push(a.to_owned());
        out.push(b.to_owned());
        out.push(c.to_owned());
        out.push(d.to_owned());
        proof {
            assert(out@.map_values(|s: String| s@) =~= before + seq![a@, b@, c@, d@]);
        }
    } else {
        proof {
            assert(out@.map_values(|s: String| s@) =~= before + Seq::<Seq<char>>::empty());
        }
    }
}

/// Related job titles to also search for, from the fixed keyword table;
/// used when no query-expansion model is reachable.
#[verifier::rlimit(50)]
pub fn get_fallback_variations(job_title: &str) -> (r: Vec<String>)
    ensures
        r@.map_values(|s: String| s@) == spec_fallback_variations(spec_lower(job_title@)),
{
    let tv = to_chars(job_title);
    let low = lower_chars(&tv);
    let ghost gl = spec_lower(job_title@);
    let mut out: Vec<String> = Vec::new();
    proof {
        assert(out@.map_values(|s: String| s@) =~= Seq::<Seq<char>>::empty());
    }
    let h1 = chars_contains_str(&low, "ai") || chars_contains_str(&low, "artificial intelligence");
    let h2 = chars_contains_str(&low, "machine learning") || chars_contains_str(&low, "ml");
    let h3 = chars_contains_str(&low, "data scientist");
    let h4 = chars_contains_str(&low, "data engineer");
    let h5 = chars_contains_str(&low, "software engineer") || chars_contains_str(
        &low,
        "developer",
    );
    let h6 = chars_contains_str(&low, "frontend") || chars_contains_str(&low, "front-end");
    let h7 = chars_contains_str(&low, "backend") || chars_contains_str(&low, "back-end");
    let h8 = chars_contains_str(&low, "fullstack") || chars_contains_str(&low, "full stack")
        || chars_contains_str(&low, "full-stack");
    let h9 = chars_contains_str(&low, "devops");
    push4(
        &mut out,
        h1,
        "Machine Learning Engineer",
        "ML Engineer",
        "Deep Learning Engineer",
        "AI/ML Engineer",
    );
    push3(&mut out, h2, "AI Engineer", "Data Scientist", "Applied Scientist");
    push3(&mut out, h3, "ML Engineer", "Data Analyst", "Applied Scientist");
    push3(&mut out, h4, "Analytics Engineer", "ETL Developer", "Data Platform Engineer");
    push3(&mut out, h5, "Software Developer", "SWE", "Programmer");
    push3(&mut out, h6, "UI Developer", "Frontend Developer", "React Developer");
    push3(&mut out, h7, "Backend Developer", "Server Developer", "API Developer");
    push3(&mut out, h8, "Full Stack Developer", "Fullstack Developer", "Web Developer");
    push4(
        &mut out,
        h9,
        "Site Reliability Engineer",
        "SRE",
        "Platform Engineer",
        "Infrastructure Engineer",
    );
    proof {
        assert(Seq::<Seq<char>>::empty() + (if h1 {
            seq![
                "Machine Learning Engineer"@,
                "ML Engineer"@,
                "Deep Learning Engineer"@,
                "AI/ML Engineer"@,
            ]
        } else {
            Seq::<Seq<char>>::empty()
        }) =~= (if h1 {
            seq![
                "Machine Learning Engineer"@,
                "ML Engineer"@,
                "Deep Learning Engineer"@,
                "AI/ML Engineer"@,
            ]
        } else {
            Seq::<Seq<char>>::empty()
        }));
        assert(out@.map_values(|s: String| s@) == spec_fallback_variations(gl));
    }
    out
}


// ---------------------------------------------------------------------------
// Skill extraction from free text
// ---------------------------------------------------------------------------

/// The fixed keyword-to-skill table used to read skills out of a profile
/// description.
pub open spec fn spec_skill_table() -> Seq<(Seq<char>, Seq<char>)> {
    seq![
        ("rust"@, "Rust"@),
        ("python"@, "Python"@),
        ("javascript"@, "JavaScript"@),
        ("typescript"@, "TypeScript"@),
        ("react"@, "React"@),
        ("node"@, "Node.js"@),
        ("java"@, "Java"@),
        ("go"@, "Go"@),
        ("golang"@, "Go"@),
        ("c++"@, "C++"@),
        ("aws"@, "AWS"@),
        ("docker"@, "Docker"@),
        ("kubernetes"@, "Kubernetes"@),
        ("k8s"@, "Kubernetes"@),
        ("postgresql"@, "PostgreSQL"@),
        ("postgres"@, "PostgreSQL"@),
        ("mongodb"@, "MongoDB"@),
        ("redis"@, "Redis"@),
        ("graphql"@, "GraphQL"@),
        ("machine learning"@, "Machine Learning"@),
        ("ml"@, "Machine Learning"@),
        ("ai"@, "AI"@),
        ("data science"@, "Data Science"@),
        ("devops"@, "DevOps"@),
        ("frontend"@, "Frontend"@),
        ("backend"@, "Backend"@),
        ("fullstack"@, "Full Stack"@),
        ("full stack"@, "Full Stack"@),
        ("sql"@, "SQL"@),
        ("nosql"@, "NoSQL"@),
        ("agile"@, "Agile"@),
        ("scrum"@, "Scrum"@),
        ("git"@, "Git"@),
    ]
}

/// The skill names the lower-cased text mentions, walking the table from
/// entry `i` with the names in `seen` already taken.
pub open spec fn spec_extracted(low: Seq<char>, i: int, seen: Seq<Seq<char>>) -> Seq<Seq<char>>
    decreases spec_skill_table().len() - i,
{
    if i < 0 || i >= spec_skill_table().len() {
        Seq::empty()
    } else {
        let (kw, nm) = spec_skill_table()[i];
        if spec_contains(low, kw) && !seen.contains(nm) {
            seq![nm] + spec_extracted(low, i + 1, seen.push(nm))
        } else {
            spec_extracted(low, i + 1, seen)
        }
    }
}

/// Whether a skill of that name was already taken.
fn skill_listed(out: &Vec<crate::matching::CandidateSkill>, name: &str) -> (r: bool)
    ensures
        r == out@.map_values(|c: crate::matching::CandidateSkill| c.name@).contains(name@),
{
    let mut i: usize = 0;
    while i < out.len()
        invariant
            i <= out@.len(),
            forall|k: int| 0 <= k < i ==> (#[trigger] out@[k]).name@ != name@,
        decreases out.len() - i,
    {
        if crate::text::str_eq(out[i].name.as_str(), name) {
            proof {
                let views = out@.map_values(|c: crate::matching::CandidateSkill| c.name@);
                assert(views[i as int] == name@);
            }
            return true;
        }
        i = i + 1;
    }
    proof {
        let views = out@.map_values(|c: crate::matching::CandidateSkill| c.name@);
        if views.contains(name@) {
            let w = choose|w: int| 0 <= w < views.len() && views[w] == name@;
            assert(out@[w].name@ == name@);
        }
    }
    false
}

/// Read likely skills out of a profile description by keyword, each noted
/// once, all at the default intermediate level (free text says nothing
/// about proficiency).
#[verifier::rlimit(100)]
pub fn extract_skills_from_description(description: &str) -> (r: Vec<
    crate::matching::CandidateSkill,
>)
    ensures
        r@.map_values(|c: crate::matching::CandidateSkill| c.name@) == spec_extracted(
            spec_lower(description@),
            0,
            Seq::empty(),
        ),
        forall|j: int| 0 <= j < r@.len() ==> (#[trigger] r@[j]).level@ == "intermediate"@,
{
    let dv = to_chars(description);
    let low = lower_chars(&dv);
    let ghost gl = spec_lower(description@);
    let mut table: Vec<(&str, &str)> = Vec::new();
    table.push(("rust", "Rust"));
    table.push(("python", "Python"));
    table.push(("javascript", "JavaScript"));
    table.push(("typescript", "TypeScript"));
    table.push(("react", "React"));
    table.push(("node", "Node.js"));
    table.push(("java", "Java"));
    table.push(("go", "Go"));
    table.push(("golang", "Go"));
    table.push(("c++", "C++"));
    table.push(("aws", "AWS"));
    table.push(("docker", "Docker"));
    table.push(("kubernetes", "Kubernetes"));
    table.push(("k8s", "Kubernetes"));
    table.push(("postgresql", "PostgreSQL"));
    table.push(("postgres", "PostgreSQL"));
    table.push(("mongodb", "MongoDB"));
    table.push(("redis", "Redis"));
    table.push(("graphql", "GraphQL"));
    table.push(("machine learning", "Machine Learning"));
    table.push(("ml", "Machine Learning"));
    table.push(("ai", "AI"));
    table.push(("data science", "Data Science"));
    table.push(("devops", "DevOps"));
    table.push(("frontend", "Frontend"));
    table.push(("backend", "Backend"));
    table.push(("fullstack", "Full Stack"));
    table.push(("full stack", "Full Stack"));
    table.push(("sql", "SQL"));
    table.push(("nosql", "NoSQL"));
    table.push(("agile", "Agile"));
    table.push(("scrum", "Scrum"));
    table.push(("git", "Git"));
    proof {
        assert forall|j: int| 0 <= j < spec_skill_table().len() implies {
            &&& (#[trigger] table@[j]).0@ == spec_skill_table()[j].0
            &&& table@[j].1@ == spec_skill_table()[j].1
        } by {}
        assert(table@.len() == spec_skill_table().len());
    }
    let mut out: Vec<crate::matching::CandidateSkill> = Vec::new();
    let mut i: usize = 0;
    proof {
        let names = out@.map_values(|c: crate::matching::CandidateSkill| c.name@);
        assert(names =~= Seq::<Seq<char>>::empty());
        assert(names + spec_extracted(gl, 0, names) =~= spec_extracted(gl, 0, Seq::empty()));
    }
    while i < table.len()
        invariant
            i <= table@.len(),
            gl == spec_lower(description@),
            low@ == gl,
            table@.len() == spec_skill_table().len(),
            forall|j: int|
                0 <= j < spec_skill_table().len() ==> (#[trigger] table@[j]).0@
                    == spec_skill_table()[j].0 && table@[j].1@ == spec_skill_table()[j].1,
            spec_extracted(gl, 0, Seq::empty()) == out@.map_values(
                |c: crate::matching::CandidateSkill| c.name@,
            ) + spec_extracted(
                gl,
                i as int,
                out@.map_values(|c: crate::matching::CandidateSkill| c.name@),
            ),
            forall|j: int| 0 <= j < out@.len() ==> (#[trigger] out@[j]).level@ == "intermediate"@,
        decreases table.len() - i,
    {
        let ghost old_names = out@.map_values(|c: crate::matching::CandidateSkill| c.name@);
        let kw = table[i].0;
        let nm = table[i].1;
        let hit = chars_contains_str(&low, kw);
        if hit && !skill_listed(&out, nm) {
            out.push(
                crate::matching::CandidateSkill {
                    name: nm.to_owned(),
                    level: "intermediate".to_owned(),
                },
            );
            proof {
                let names = out@.map_values(|c: crate::matching::CandidateSkill| c.name@);
                assert(names =~= old_names.push(spec_skill_table()[i as int].1));
                assert(spec_extracted(gl, i as int, old_names) == seq![
                    spec_skill_table()[i as int].1,
                ] + spec_extracted(gl, i + 1, names));
                assert(old_names + (seq![spec_skill_table()[i as int].1] + spec_extracted(
                    gl,
                    i + 1,
                    names,
                )) =~= names + spec_extracted(gl, i + 1, names));
            }
        } else {
            proof {
                assert(spec_extracted(gl, i as int, old_names) == spec_extracted(
                    gl,
                    i + 1,
                    old_names,
                ));
            }
        }
        i = i + 1;
    }
    proof {
        let names = out@.map_values(|c: crate::matching::CandidateSkill| c.name@);
        assert(spec_extracted(gl, table@.len() as int, names) =~= Seq::<Seq<char>>::empty());
        assert(names + Seq::<Seq<char>>::empty() =~= names);
    }
    out
}


// ---------------------------------------------------------------------------
// Relevance filtering of profile search results
// ---------------------------------------------------------------------------

/// One raw profile search result.
pub struct ProfileSearchResult {
    pub href: String,
    pub title: Option<String>,
    pub description: Option<String>,
    pub actual_role: Option<String>,
    pub actual_location: Option<String>,
}

/// Title and description lower-cased and joined with one space.
pub open spec fn spec_combined_text(r: ProfileSearchResult) -> Seq<char> {
    spec_lower(
        match r.title {
            Some(t) => t@,
            None => Seq::empty(),
        },
    ) + " "@ + spec_lower(
        match r.description {
            Some(d) => d@,
            None => Seq::empty(),
        },
    )
}

/// The text names an unmistakably non-technical occupation.
pub open spec fn spec_role_excluded(c: Seq<char>) -> bool {
    ||| spec_contains(c, "writer"@)
    ||| spec_contains(c, "writing"@)
    ||| spec_contains(c, "copywriter"@)
    ||| spec_contains(c, "content creator"@)
    ||| spec_contains(c, "journalist"@)
    ||| spec_contains(c, "marketing"@)
    ||| spec_contains(c, "marketer"@)
    ||| spec_contains(c, "sales"@)
    ||| spec_contains(c, "account executive"@)
    ||| spec_contains(c, "recruiter"@)
    ||| spec_contains(c, "hr"@)
    ||| spec_contains(c, "human resources"@)
    ||| spec_contains(c, "talent acquisition"@)
    ||| spec_contains(c, "photographer"@)
    ||| spec_contains(c, "designer"@)
    ||| spec_contains(c, "artist"@)
    ||| spec_contains(c, "musician"@)
    ||| spec_contains(c, "actor"@)
    ||| spec_contains(c, "teacher"@)
    ||| spec_contains(c, "professor"@)
    ||| spec_contains(c, "nurse"@)
    ||| spec_contains(c, "doctor"@)
    ||| spec_contains(c, "lawyer"@)
    ||| spec_contains(c, "attorney"@)
    ||| spec_contains(c, "accountant"@)
    ||| spec_contains(c, "financial advisor"@)
    ||| spec_contains(c, "real estate"@)
    ||| spec_contains(c, "realtor"@)
}

/// The role read from a result's title (or unknown without a title).
pub open spec fn spec_result_role(r: ProfileSearchResult) -> Seq<char> {
    spec_parse_title(
        match r.title {
            Some(t) => t@,
            None => "Unknown"@,
        },
    ).1
}

/// The indices and roles that survive filtering, from position `i` on: a
/// result is kept unless its text names an excluded occupation.
pub open spec fn spec_filtered(results: Seq<ProfileSearchResult>, i: int) -> Seq<(int, Seq<char>)>
    decreases results.len() - i,
{
    if i < 0 || i >= results.len() {
        Seq::empty()
    } else {
        (if spec_role_excluded(spec_combined_text(results[i])) {
            Seq::<(int, Seq<char>)>::empty()
        } else {
            seq![(i, spec_result_role(results[i]))]
        }) + spec_filtered(results, i + 1)
    }
}

fn role_excluded(c: &Vec<char>) -> (r: bool)
    ensures
        r == spec_role_excluded(c@),
{
    chars_contains_str(c, "writer") || chars_contains_str(c, "writing") || chars_contains_str(
        c,
        "copywriter",
    ) || chars_contains_str(c, "content creator") || chars_contains_str(c, "journalist")
        || chars_contains_str(c, "marketing") || chars_contains_str(c, "marketer")
        || chars_contains_str(c, "sales") || chars_contains_str(c, "account executive")
        || chars_contains_str(c, "recruiter") || chars_contains_str(c, "hr")
        || chars_contains_str(c, "human resources") || chars_contains_str(c, "talent acquisition")
        || chars_contains_str(c, "photographer") || chars_contains_str(c, "designer")
        || chars_contains_str(c, "artist") || chars_contains_str(c, "musician")
        || chars_contains_str(c, "actor") || chars_contains_str(c, "teacher")
        || chars_contains_str(c, "professor") || chars_contains_str(c, "nurse")
        || chars_contains_str(c, "doctor") || chars_contains_str(c, "lawyer")
        || chars_contains_str(c, "attorney") || chars_contains_str(c, "accountant")
        || chars_contains_str(c, "financial advisor") || chars_contains_str(c, "real estate")
        || chars_contains_str(c, "realtor")
}

/// Keep the results that do not name a non-technical occupation, handing
/// back each kept result's position, the role read from its title, and an
/// unknown location to be refined later.
pub fn fallback_filter(results: &Vec<ProfileSearchResult>) -> (r: Vec<(usize, String, String)>)
    ensures
        r@.map_values(|t: (usize, String, String)| (t.0 as int, t.1@)) == spec_filtered(
            results@,
            0,
        ),
        forall|j: int| 0 <= j < r@.len() ==> (#[trigger] r@[j]).2@ == "Unknown"@,
{
    let mut out: Vec<(usize, String, String)> = Vec::new();
    let mut i: usize = 0;
    proof {
        let pairs = out@.map_values(|t: (usize, String, String)| (t.0 as int, t.1@));
        assert(pairs =~= Seq::<(int, Seq<char>)>::empty());
        assert(pairs + spec_filtered(results@, 0) =~= spec_filtered(results@, 0));
    }
    while i < results.len()
        invariant
            i <= results@.len(),
            spec_filtered(results@, 0) == out@.map_values(
                |t: (usize, String, String)| (t.0 as int, t.1@),
            ) + spec_filtered(results@, i as int),
            forall|j: int| 0 <= j < out@.len() ==> (#[trigger] out@[j]).2@ == "Unknown"@,
        decreases results.len() - i,
    {
        let ghost old_pairs = out@.map_values(|t: (usize, String, String)| (t.0 as int, t.1@));
        let item = &results[i];
        let mut combined: Vec<char> = Vec::new();
        match &item.title {
            Some(t) => {
                let tv = to_chars(t.as_str());
                let tl = lower_chars(&tv);
                crate::text::push_all(&mut combined, &tl);
            },
            None => {},
        }
        crate::text::push_str(&mut combined, " ");
        match &item.description {
            Some(d) => {
                let dv = to_chars(d.as_str());
                let dl = lower_chars(&dv);
                crate::text::push_all(&mut combined, &dl);
            },
            None => {},
        }
        proof {
            assert(spec_lower(Seq::<char>::empty()) =~= Seq::<char>::empty());
            assert(combined@ =~= spec_combined_text(results@[i as int]));
        }
        if !role_excluded(&combined) {
            let role = match &item.title {
                Some(t) => parse_linkedin_title(t.as_str()).1,
                None => parse_linkedin_title("Unknown").1,
            };
            out.push((i, role, "Unknown".to_owned()));
            proof {
                let pairs = out@.map_values(|t: (usize, String, String)| (t.0 as int, t.1@));
                assert(pairs =~= old_pairs.push(
                    (i as int, spec_result_role(results@[i as int])),
                ));
                assert(old_pairs + (seq![(i as int, spec_result_role(results@[i as int]))]
                    + spec_filtered(results@, i + 1)) =~= pairs + spec_filtered(
                    results@,
                    i + 1,
                ));
            }
        } else {
            proof {
                assert(Seq::<(int, Seq<char>)>::empty() + spec_filtered(results@, i + 1)
                    =~= spec_filtered(results@, i + 1));
            }
        }
        i = i + 1;
    }
    proof {
        let pairs = out@.map_values(|t: (usize, String, String)| (t.0 as int, t.1@));
        assert(spec_filtered(results@, results@.len() as int) =~= Seq::<(int, Seq<char>)>::empty());
        assert(pairs + Seq::<(int, Seq<char>)>::empty() =~= pairs);
    }
    out
}

} // verus!
