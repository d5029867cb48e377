use devprofile::categories::{CodeExcerpt, SearchCategory, SearchResults};
use devprofile::index::{SessionId, VectorIndex};
use devprofile::chunker::CodeChunk;
use devprofile::retriever::search_all_categories;
use devprofile::matching::{normalize_skill, get_synonyms};
use devprofile::takehome::{
    skills_match_simple, analyze_skill_gaps, format_skills, format_required_skills,
    CandidateSkillContext, RequiredSkillContext,
};

#[test]
fn category_names_and_queries() {
    assert_eq!(SearchCategory::ErrorHandling.name(), "error_handling");
    assert_eq!(SearchCategory::NamingConventions.name(), "naming_style");
    assert_eq!(SearchCategory::FunctionalPatterns.name(), "functional_patterns");
    assert_eq!(
        SearchCategory::ErrorHandling.query(),
        "error handling try catch exception result unwrap"
    );
    assert_eq!(
        SearchCategory::Logging.query(),
        "logging debug print console log trace warn error"
    );
    let all = SearchCategory::all();
    assert_eq!(all.len(), 10);
}

#[test]
fn set_replaces_one_category_only() {
    let mut results = SearchResults::default();
    let excerpt = CodeExcerpt {
        repo_name: "r".to_string(),
        file_path: "f.rs".to_string(),
        line_start: 1,
        line_end: 2,
        language: None,
        content: "assert!(ok)".to_string(),
        similarity_milli: 800,
    };
    results.set("testing", vec![excerpt]);
    assert_eq!(results.get("testing").unwrap().len(), 1);
    assert_eq!(results.get("logging").unwrap().len(), 0);
    assert_eq!(results.total_count(), 1);
    // an unknown name changes nothing
    results.set("bogus", Vec::new());
    assert_eq!(results.total_count(), 1);
}

#[test]
fn vector_mode_serves_every_category() {
    let mut index = VectorIndex::new(2);
    let s = SessionId { value: 5 };
    index.store(
        s,
        "u",
        CodeChunk {
            repo_name: "r".to_string(),
            file_path: "f.rs".to_string(),
            line_start: 1,
            line_end: 4,
            language: None,
            content: "code".to_string(),
        },
        vec![10, 10],
    );
    // Nine queries embedded, one failed: its category is empty, the rest
    // are each served from the index.
    let mut queries: Vec<Option<Vec<i64>>> = Vec::new();
    for i in 0..10 {
        if i == 2 {
            queries.push(None);
        } else {
            queries.push(Some(vec![i as i64, 0]));
        }
    }
    let results = search_all_categories(&index, s, &queries, 3);
    let cats = SearchCategory::all();
    for (j, c) in cats.iter().enumerate() {
        let got = results.get(c.name()).unwrap().len();
        if j == 2 {
            assert_eq!(got, 0);
        } else {
            assert_eq!(got, 1);
        }
    }
}

#[test]
fn skill_name_normalization() {
    assert_eq!(normalize_skill("  Node-JS "), "node js");
    assert_eq!(normalize_skill("machine_learning"), "machine learning");
    assert_eq!(normalize_skill("Rust"), "rust");
}

#[test]
fn synonym_table_shape() {
    let syns = get_synonyms();
    assert_eq!(syns.len(), 12);
    assert_eq!(syns[0].0, "javascript");
    assert_eq!(syns[0].1, vec!["js", "ecmascript", "es6"]);
    assert_eq!(syns[5].0, "kubernetes");
    assert_eq!(syns[5].1, vec!["k8s"]);
}

#[test]
fn loose_skill_matching() {
    assert!(skills_match_simple("Rust", "rust"));
    assert!(skills_match_simple("JavaScript", "js"));
    assert!(skills_match_simple("k8s", "Kubernetes"));
    assert!(skills_match_simple("PostgreSQL", "SQL"));
    assert!(!skills_match_simple("Rust", "Go"));
}

#[test]
fn gap_analysis_partitions_requirements() {
    let cands = vec![
        CandidateSkillContext { name: "Rust".to_string(), level: "expert".to_string() },
        CandidateSkillContext { name: "Python".to_string(), level: "intermediate".to_string() },
    ];
    let reqs = vec![
        RequiredSkillContext { name: "rust".to_string(), level: None, mandatory: true },
        RequiredSkillContext { name: "Redis".to_string(), level: None, mandatory: false },
    ];
    let (matched, gaps) = analyze_skill_gaps(&cands, &reqs);
    assert_eq!(matched, vec!["rust"]);
    assert_eq!(gaps, vec!["Redis"]);
}

#[test]
fn prompt_formatting_of_skills() {
    let cands = vec![
        CandidateSkillContext { name: "Rust".to_string(), level: "expert".to_string() },
        CandidateSkillContext { name: "Go".to_string(), level: "familiar".to_string() },
    ];
    assert_eq!(format_skills(&cands), "Rust (expert), Go (familiar)");
    let reqs = vec![
        RequiredSkillContext {
            name: "Rust".to_string(),
            level: Some("senior".to_string()),
            mandatory: true,
        },
        RequiredSkillContext { name: "Redis".to_string(), level: None, mandatory: false },
    ];
    assert_eq!(
        format_required_skills(&reqs),
        "Rust (senior, required), Redis (any, nice-to-have)"
    );
}

#[test]
fn raw_language_tag_is_the_lowercased_extension() {
    assert_eq!(devprofile::chunker::get_language("src/Main.RS").as_deref(), Some("rs"));
    assert_eq!(devprofile::chunker::get_language("README").as_deref(), Some("readme"));
}

#[test]
fn heuristic_culture_score_without_data_is_neutral() {
    let r = devprofile::matching::calculate_heuristic_culture_score(None, None);
    assert_eq!(r.score, 70);
    assert!(r.matched.is_empty());
    assert!(r.missing.is_empty());
    assert_eq!(r.reasoning.as_deref(), Some("Heuristic culture analysis (AI unavailable)"));
}

#[test]
fn heuristic_culture_score_counts_shared_values() {
    let profile = "A collaborative engineer with strong communication, enjoys agile teams";
    let job = "We want a collaborative, communication-minded, agile team member";
    let r = devprofile::matching::calculate_heuristic_culture_score(Some(profile), Some(job));
    assert_eq!(r.score, 85);
    assert_eq!(
        r.matched,
        vec!["Values collaboration", "Strong communicator", "Familiar with agile"]
    );
    assert!(r.missing.is_empty());
}

#[test]
fn heuristic_culture_score_flags_mismatches() {
    let profile = "independent, fast-paced worker";
    let job = "collaborative and steady environment";
    let r = devprofile::matching::calculate_heuristic_culture_score(Some(profile), Some(job));
    assert_eq!(r.score, 62);
    assert_eq!(r.missing.len(), 2);
}

#[test]
fn linkedin_titles_split_into_name_and_role() {
    let (name, role) =
        devprofile::sourcing::parse_linkedin_title("Ada Lovelace - Engineer at ACME | LinkedIn");
    assert_eq!(name, "Ada Lovelace");
    assert_eq!(role, "Engineer at ACME");
    let (name2, role2) = devprofile::sourcing::parse_linkedin_title("Just A Name");
    assert_eq!(name2, "Just A Name");
    assert_eq!(role2, "Unknown");
}

#[test]
fn job_title_variations_from_keywords() {
    let v = devprofile::sourcing::get_fallback_variations("Senior Backend Developer");
    // "backend" and "developer" both fire; no other group does.
    assert_eq!(
        v,
        vec![
            "Software Developer",
            "SWE",
            "Programmer",
            "Backend Developer",
            "Server Developer",
            "API Developer",
        ]
    );
    assert!(devprofile::sourcing::get_fallback_variations("Accountant").is_empty());
}
