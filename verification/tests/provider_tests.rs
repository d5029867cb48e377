use devprofile::errors::FetchError;
use devprofile::provider::{
    decode_file_text, extract_github_username, should_fetch_next_page, to_repository_info,
    to_profile, FileContent, GitHubRepoFull, GitHubUser, RepoOwner,
};

fn raw(content: Option<&str>) -> FileContent {
    FileContent { content: content.map(|s| s.to_string()), encoding: Some("base64".to_string()) }
}

#[test]
fn decodes_base64_payloads() {
    let r = decode_file_text(&raw(Some("aGVsbG8gd29ybGQ="))).unwrap();
    assert_eq!(r, "hello world");
}

#[test]
fn decodes_base64_with_embedded_newlines() {
    let r = decode_file_text(&raw(Some("aGVsbG8g\nd29ybGQ="))).unwrap();
    assert_eq!(r, "hello world");
}

#[test]
fn absent_content_is_an_empty_file() {
    let r = decode_file_text(&raw(None)).unwrap();
    assert_eq!(r, "");
}

#[test]
fn invalid_base64_is_malformed() {
    let r = decode_file_text(&raw(Some("!!not base64!!")));
    assert!(matches!(r, Err(FetchError::MalformedResponse)));
}

#[test]
fn undecodable_bytes_are_replaced_not_fatal() {
    // 0xFF 0xFE is not valid UTF-8; "//4=" decodes to those bytes.
    let r = decode_file_text(&raw(Some("//4="))).unwrap();
    assert_eq!(r.chars().count(), 2);
    assert!(r.chars().all(|c| c == '\u{FFFD}'));
}

#[test]
fn pagination_stops_at_empty_page_or_cap() {
    assert!(should_fetch_next_page(2, 100));
    assert!(!should_fetch_next_page(2, 0));
    assert!(should_fetch_next_page(10, 100));
    assert!(!should_fetch_next_page(11, 100));
}

#[test]
fn github_usernames_from_profile_links() {
    assert_eq!(extract_github_username("https://github.com/octocat").as_deref(), Some("octocat"));
    assert_eq!(
        extract_github_username("https://github.com/octocat/repo").as_deref(),
        Some("octocat")
    );
    assert_eq!(extract_github_username("http://github.com/ada/").as_deref(), Some("ada"));
    assert_eq!(extract_github_username("github.com/grace").as_deref(), Some("grace"));
    assert_eq!(extract_github_username("  github.com/grace/  ").as_deref(), Some("grace"));
    assert_eq!(extract_github_username("https://gitlab.com/other"), None);
    assert_eq!(extract_github_username("just a name"), None);
}

#[test]
fn raw_records_convert_to_library_records() {
    let full = GitHubRepoFull {
        name: "tool".to_string(),
        owner: RepoOwner { login: "octocat".to_string() },
        fork: false,
        description: Some("a tool".to_string()),
        stargazers_count: 5,
        forks_count: 1,
        watchers_count: 5,
        language: Some("Rust".to_string()),
        size: 123,
        created_at: "2021-01-01T00:00:00Z".to_string(),
        updated_at: "2024-01-01T00:00:00Z".to_string(),
    };
    let info = to_repository_info(&full);
    assert_eq!(info.name, "tool");
    assert_eq!(info.language.as_deref(), Some("Rust"));
    assert!(!info.is_fork);
    assert_eq!(info.size, 123);

    let user = GitHubUser {
        login: "octocat".to_string(),
        name: None,
        bio: Some("likes code".to_string()),
        avatar_url: "https://example.invalid/a.png".to_string(),
        public_repos: 9,
        followers: 3,
        following: 4,
        created_at: "2019-01-01T00:00:00Z".to_string(),
    };
    let p = to_profile(&user);
    assert!(p.name.is_none());
    assert_eq!(p.bio.as_deref(), Some("likes code"));
    assert_eq!(p.public_repos, 9);
}

#[test]
fn skills_extracted_once_per_name() {
    let skills = devprofile::sourcing::extract_skills_from_description(
        "Go and Golang services on AWS, with ML and machine learning pipelines",
    );
    let names: Vec<&str> = skills.iter().map(|s| s.name.as_str()).collect();
    assert_eq!(names, vec!["Go", "AWS", "Machine Learning"]);
    assert!(skills.iter().all(|s| s.level == "intermediate"));
}

#[test]
fn profile_results_filtered_by_occupation() {
    let make = |title: &str, desc: &str| devprofile::sourcing::ProfileSearchResult {
        href: "https://example.invalid/p".to_string(),
        title: Some(title.to_string()),
        description: Some(desc.to_string()),
        actual_role: None,
        actual_location: None,
    };
    let results = vec![
        make("Ada - Software Engineer at ACME", "builds backend services"),
        make("Bob - Sales Lead", "drives marketing campaigns"),
        make("Eve - Platform Engineer", "kubernetes and terraform"),
    ];
    let kept = devprofile::sourcing::fallback_filter(&results);
    assert_eq!(kept.len(), 2);
    assert_eq!(kept[0].0, 0);
    assert_eq!(kept[0].1, "Software Engineer at ACME");
    assert_eq!(kept[0].2, "Unknown");
    assert_eq!(kept[1].0, 2);
    assert_eq!(kept[1].1, "Platform Engineer");
}

#[test]
fn repos_render_for_the_prompt() {
    let repos = vec![
        devprofile::takehome::RepoAnalysis {
            name: "toolbox".to_string(),
            description: Some("utility crate".to_string()),
            readme_content: Some("A toolbox of helpers".to_string()),
            inferred_purpose: None,
            primary_language: Some("Rust".to_string()),
            size: 10,
            is_fork: false,
        },
        devprofile::takehome::RepoAnalysis {
            name: "mystery".to_string(),
            description: None,
            readme_content: None,
            inferred_purpose: Some("likely a game".to_string()),
            primary_language: None,
            size: 5,
            is_fork: false,
        },
    ];
    let text = devprofile::takehome::format_repos_for_prompt(&repos);
    assert_eq!(
        text,
        "- toolbox [Rust]: utility crate\n  README excerpt: A toolbox of helpers\n- mystery [Unknown]: No description\n  Inferred purpose: likely a game"
    );
    let none = devprofile::takehome::format_repos_for_prompt(&Vec::new());
    assert!(none.starts_with("No GitHub repositories available."));
}
