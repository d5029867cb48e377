use devprofile::chunker::CodeChunk;
use devprofile::embedding::{plan_batches, store_embedded_batch};
use devprofile::errors::EmbedError;
use devprofile::index::{SessionId, VectorIndex};

fn chunk(repo: &str, path: &str, start: i32, end: i32, content: &str) -> CodeChunk {
    CodeChunk {
        repo_name: repo.to_string(),
        file_path: path.to_string(),
        line_start: start,
        line_end: end,
        language: Some("Rust".to_string()),
        content: content.to_string(),
    }
}

#[test]
fn search_orders_by_closeness() {
    let mut index = VectorIndex::new(3);
    let s = SessionId { value: 7 };
    index.store(s, "octocat", chunk("r", "exact.rs", 1, 5, "exact"), vec![1000, 0, 0]);
    index.store(s, "octocat", chunk("r", "far.rs", 1, 5, "far"), vec![0, 1000, 0]);
    index.store(s, "octocat", chunk("r", "near.rs", 1, 5, "near"), vec![707, 707, 0]);
    let out = index.search(s, &vec![1000, 0, 0], 10);
    assert_eq!(out.len(), 3);
    assert_eq!(out[0].file_path, "exact.rs");
    assert_eq!(out[1].file_path, "near.rs");
    assert_eq!(out[2].file_path, "far.rs");
    assert_eq!(out[0].similarity_milli, 1000);
    // dist2(query, near) = 293^2 + 707^2 = 585698; 1000 - 585698/2000 = 708
    assert_eq!(out[1].similarity_milli, 708);
    // dist2(query, far) = 2_000_000 maps to the bottom of the scale
    assert_eq!(out[2].similarity_milli, 0);
    assert!(out[0].similarity_milli >= out[1].similarity_milli);
    assert!(out[1].similarity_milli >= out[2].similarity_milli);
}

#[test]
fn search_respects_limit_and_empty_sessions() {
    let mut index = VectorIndex::new(2);
    let s = SessionId { value: 1 };
    for i in 0..5 {
        index.store(s, "u", chunk("r", &format!("f{}.rs", i), 1, 2, "x"), vec![i as i64, 0]);
    }
    assert_eq!(index.search(s, &vec![0, 0], 2).len(), 2);
    assert_eq!(index.search(SessionId { value: 99 }, &vec![0, 0], 2).len(), 0);
}

#[test]
fn cleanup_removes_exactly_one_session() {
    let mut index = VectorIndex::new(2);
    let a = SessionId { value: 1 };
    let b = SessionId { value: 2 };
    index.store(a, "u", chunk("r", "a1.rs", 1, 2, "x"), vec![0, 0]);
    index.store(b, "u", chunk("r", "b1.rs", 1, 2, "x"), vec![0, 0]);
    index.store(a, "u", chunk("r", "a2.rs", 1, 2, "x"), vec![1, 1]);
    index.store(b, "u", chunk("r", "b2.rs", 1, 2, "x"), vec![1, 1]);
    let removed = index.cleanup(a);
    assert_eq!(removed, 2);
    assert_eq!(index.session_count(a), 0);
    assert_eq!(index.session_count(b), 2);
    assert_eq!(index.search(a, &vec![0, 0], 10).len(), 0);
    let kept = index.search(b, &vec![0, 0], 10);
    assert_eq!(kept.len(), 2);
    assert_eq!(kept[0].file_path, "b1.rs");
}

#[test]
fn batch_with_partial_failures_stores_the_rest() {
    // Two of five embeddings fail: exactly three chunks are stored, and the
    // batch reports the count instead of failing.
    let mut index = VectorIndex::new(2);
    let s = SessionId { value: 3 };
    let chunks = vec![
        chunk("r", "c0.rs", 1, 2, "a"),
        chunk("r", "c1.rs", 1, 2, "b"),
        chunk("r", "c2.rs", 1, 2, "c"),
        chunk("r", "c3.rs", 1, 2, "d"),
        chunk("r", "c4.rs", 1, 2, "e"),
    ];
    let outcomes: Vec<Result<Vec<i64>, EmbedError>> = vec![
        Ok(vec![1, 2]),
        Err(EmbedError::Transport),
        Ok(vec![3, 4]),
        Err(EmbedError::EmptyResponse),
        Ok(vec![5, 6]),
    ];
    let stored = store_embedded_batch(&mut index, s, "octocat", &chunks, &outcomes);
    assert_eq!(stored, 3);
    assert_eq!(index.session_count(s), 3);
    let out = index.search(s, &vec![1, 2], 10);
    assert_eq!(out.len(), 3);
    assert_eq!(out[0].file_path, "c0.rs");
}

#[test]
fn batches_cover_all_items_in_groups() {
    let spans = plan_batches(12, 5);
    assert_eq!(spans, vec![(0, 5), (5, 10), (10, 12)]);
    assert_eq!(plan_batches(0, 5).len(), 0);
    assert_eq!(plan_batches(5, 5), vec![(0, 5)]);
}

#[test]
fn session_statistics() {
    let mut index = VectorIndex::new(2);
    let s = SessionId { value: 9 };
    index.store(s, "u", chunk("alpha", "a.rs", 1, 11, "x"), vec![0, 0]);
    let mut python_chunk = chunk("alpha", "b.py", 1, 21, "y");
    python_chunk.language = Some("Python".to_string());
    index.store(s, "u", python_chunk, vec![1, 1]);
    index.store(s, "u", chunk("beta", "c.rs", 5, 10, "z"), vec![2, 2]);
    index.store(SessionId { value: 10 }, "u", chunk("other", "d.rs", 1, 2, "w"), vec![3, 3]);
    let stats = devprofile::stats::embedding_stats(&index, s);
    assert_eq!(stats.chunk_count, 3);
    assert_eq!(stats.total_lines, 10 + 20 + 5);
    assert_eq!(stats.repo_count, 2);
    assert_eq!(stats.languages, vec!["Rust".to_string(), "Python".to_string()]);
}
