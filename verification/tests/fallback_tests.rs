use devprofile::categories::{CodeExcerpt, SearchCategory, SearchResults};
use devprofile::fallback::add_fallback_excerpt;
use devprofile::retriever::{choose_mode, RetrievalMode};
use devprofile::stats::HarvestAccumulator;

fn sample_excerpt(content: &str) -> CodeExcerpt {
    CodeExcerpt {
        repo_name: "repo".to_string(),
        file_path: "src/lib.rs".to_string(),
        line_start: 1,
        line_end: 10,
        language: Some("Rust".to_string()),
        content: content.to_string(),
        similarity_milli: 1000,
    }
}

fn lower_chars_of(s: &str) -> Vec<char> {
    s.to_lowercase().chars().collect()
}

#[test]
fn keyword_bucketing_is_deterministic() {
    let content = "async fn run() { log(value).unwrap(); }";
    let mut a = SearchResults::default();
    let mut b = SearchResults::default();
    let e = sample_excerpt(content);
    add_fallback_excerpt(&mut a, &e, &lower_chars_of(content));
    add_fallback_excerpt(&mut b, &e, &lower_chars_of(content));
    for c in SearchCategory::all() {
        let la = a.get(c.name()).unwrap().len();
        let lb = b.get(c.name()).unwrap().len();
        assert_eq!(la, lb);
    }
}

#[test]
fn catch_text_lands_in_error_handling() {
    // The canonical keyword-mode behaviour when no embedding key exists.
    assert_eq!(choose_mode(false), RetrievalMode::Keyword);
    let content = "try { ... } catch";
    let mut results = SearchResults::default();
    let e = sample_excerpt(content);
    add_fallback_excerpt(&mut results, &e, &lower_chars_of(content));
    assert!(results.get("error_handling").unwrap().len() > 0);
}

#[test]
fn every_file_is_a_naming_style_sample() {
    let content = "nothing special here";
    let mut results = SearchResults::default();
    let e = sample_excerpt(content);
    add_fallback_excerpt(&mut results, &e, &lower_chars_of(content));
    assert_eq!(results.get("naming_style").unwrap().len(), 1);
    assert_eq!(results.get("comments").unwrap().len(), 0);
    assert_eq!(results.get("configuration").unwrap().len(), 0);
}

#[test]
fn category_lists_are_capped() {
    let content = "unwrap everything";
    let mut results = SearchResults::default();
    let e = sample_excerpt(content);
    let low = lower_chars_of(content);
    for _ in 0..7 {
        add_fallback_excerpt(&mut results, &e, &low);
    }
    assert_eq!(results.get("error_handling").unwrap().len(), 3);
    assert_eq!(results.get("naming_style").unwrap().len(), 3);
}

#[test]
fn harvested_main_rs_scenario() {
    // One 120-line source file under default budgets: exactly one file is
    // harvested and it shows up as a naming-style sample.
    let mut content = String::new();
    for i in 0..120 {
        content.push_str(&format!("fn item_{}() {{ run_job_{}(); }}\n", i, i));
    }
    let mut acc = HarvestAccumulator::new();
    let recorded = acc.record_file("demo-repo", "main.rs", &content);
    assert!(recorded);
    assert_eq!(acc.files_analyzed, 1);
    assert_eq!(acc.total_lines, 120);
    assert_eq!(acc.results.get("naming_style").unwrap().len(), 1);
    let chunks = devprofile::chunker::chunk_code(&content, "demo-repo", "main.rs", Some("Rust"));
    assert!(chunks.len() >= 1);
}

#[test]
fn near_empty_files_are_discarded_after_fetch() {
    let mut acc = HarvestAccumulator::new();
    let recorded = acc.record_file("demo-repo", "tiny.rs", "fn a() {}");
    assert!(!recorded);
    assert_eq!(acc.files_analyzed, 0);
}

#[test]
fn semantic_mode_needs_a_backend() {
    assert_eq!(choose_mode(true), RetrievalMode::Semantic);
}
