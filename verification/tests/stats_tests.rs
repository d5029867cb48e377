use devprofile::categories::{CodeExcerpt, SearchCategory, SearchResults};
use devprofile::errors::HarvestError;
use devprofile::stats::{
    language_percentages, summarize_excerpts, assemble_github_stats, HarvestAccumulator,
    GitHubProfile, RepositoryInfo,
};

fn repo(name: &str, language: Option<&str>, fork: bool) -> RepositoryInfo {
    RepositoryInfo {
        name: name.to_string(),
        description: None,
        language: language.map(|s| s.to_string()),
        is_fork: fork,
        size: 10,
        created_at: "2024-01-01T00:00:00Z".to_string(),
        updated_at: "2024-06-01T00:00:00Z".to_string(),
    }
}

fn profile() -> GitHubProfile {
    GitHubProfile {
        name: Some("Octo Cat".to_string()),
        bio: None,
        avatar_url: "https://example.invalid/a.png".to_string(),
        public_repos: 4,
        followers: 2,
        following: 1,
        created_at: "2020-01-01T00:00:00Z".to_string(),
    }
}

#[test]
fn language_shares_are_integer_percentages() {
    // Repositories without a language do not dilute the shares.
    let repos = vec![
        repo("a", Some("Rust"), false),
        repo("b", Some("Rust"), false),
        repo("c", Some("Python"), false),
        repo("d", None, true),
    ];
    let shares = language_percentages(&repos);
    assert_eq!(shares.len(), 2);
    assert_eq!(shares[0].0, "Rust");
    assert_eq!(shares[0].1, 66);
    assert_eq!(shares[1].0, "Python");
    assert_eq!(shares[1].1, 33);
}

#[test]
fn one_language_means_one_hundred_percent() {
    let repos = vec![repo("a", Some("Rust"), false), repo("b", None, false)];
    let shares = language_percentages(&repos);
    assert_eq!(shares.len(), 1);
    assert_eq!(shares[0].0, "Rust");
    assert_eq!(shares[0].1, 100);
}

#[test]
fn language_shares_of_no_repositories() {
    let shares = language_percentages(&Vec::new());
    assert_eq!(shares.len(), 0);
}

#[test]
fn empty_harvest_is_a_terminal_failure() {
    let acc = HarvestAccumulator::new();
    let r = acc.finalize(0);
    assert!(matches!(r, Err(HarvestError::NoUsableInput)));
}

#[test]
fn finalize_reports_the_run() {
    let mut acc = HarvestAccumulator::new();
    let mut content = String::new();
    for i in 0..60 {
        content.push_str(&format!("line_of_code_{}();\n", i));
    }
    assert!(acc.record_file("repo-one", "src/lib.rs", &content));
    let (results, meta, corpus) = acc.finalize(1).unwrap();
    assert_eq!(meta.chunks_analyzed, 1);
    assert_eq!(meta.total_lines, 60);
    assert_eq!(meta.repos_analyzed, 1);
    assert_eq!(meta.languages_detected, vec!["Rust".to_string()]);
    assert!(corpus.starts_with("\n// FILE: src/lib.rs (repo-one)\n"));
    assert_eq!(results.get("naming_style").unwrap().len(), 1);
}

#[test]
fn summary_lists_nonempty_categories_with_banners() {
    let mut results = SearchResults::default();
    results.error_handling.push(CodeExcerpt {
        repo_name: "r".to_string(),
        file_path: "src/err.rs".to_string(),
        line_start: 1,
        line_end: 3,
        language: None,
        content: "match v { Ok(x) => x }".to_string(),
        similarity_milli: 900,
    });
    let s = summarize_excerpts(&results, 2000);
    assert_eq!(
        s,
        "\n=== ERROR_HANDLING ===\n\n// src/err.rs (1:3)\nmatch v { Ok(x) => x }\n"
    );
}

#[test]
fn summary_truncates_long_excerpts() {
    let mut results = SearchResults::default();
    let long_content = "x".repeat(700);
    results.testing.push(CodeExcerpt {
        repo_name: "r".to_string(),
        file_path: "t.rs".to_string(),
        line_start: 2,
        line_end: 9,
        language: None,
        content: long_content,
        similarity_milli: 1000,
    });
    let s = summarize_excerpts(&results, 2000);
    let expected_body = format!("{}...", "x".repeat(500));
    assert_eq!(s, format!("\n=== TESTING ===\n\n// t.rs (2:9)\n{}\n", expected_body));
}

#[test]
fn summary_respects_the_category_budget() {
    let mut results = SearchResults::default();
    for i in 0..3 {
        results.logging.push(CodeExcerpt {
            repo_name: "r".to_string(),
            file_path: format!("l{}.rs", i),
            line_start: 1,
            line_end: 2,
            language: None,
            content: "y".repeat(400),
            similarity_milli: 1000,
        });
    }
    // Budget 500: the first excerpt uses 400, the second starts because the
    // budget is not yet spent, the third never runs.
    let s = summarize_excerpts(&results, 500);
    assert!(s.contains("l0.rs"));
    assert!(s.contains("l1.rs"));
    assert!(!s.contains("l2.rs"));
}

#[test]
fn assembled_stats_carry_everything() {
    let repos = vec![repo("a", Some("Go"), false)];
    let stats = assemble_github_stats(
        "octocat",
        profile(),
        repos,
        "2026-01-01T00:00:00Z".to_string(),
        None,
        None,
    );
    assert_eq!(stats.username, "octocat");
    assert_eq!(stats.languages.len(), 1);
    assert_eq!(stats.languages[0].0, "Go");
    assert_eq!(stats.languages[0].1, 100);
    assert!(stats.code_excerpts.is_none());
}

#[test]
fn all_ten_categories_are_always_present() {
    let results = SearchResults::default();
    let cats = SearchCategory::all();
    assert_eq!(cats.len(), 10);
    for c in &cats {
        assert!(results.get(c.name()).is_some());
    }
    assert!(results.get("not_a_category").is_none());
    assert_eq!(results.total_count(), 0);
}
