use devprofile::chunker::{chunk_code, detect_language, CHUNK_SIZE, MAX_CHUNKS_PER_FILE};

fn many_lines(n: usize) -> String {
    let mut s = String::new();
    let mut i = 0;
    while i < n {
        if i % 10 == 9 {
            s.push_str("\n");
        } else {
            s.push_str(&format!("let binding_{} = compute_{}(input);\n", i, i));
        }
        i += 1;
    }
    s
}

#[test]
fn short_file_yields_one_chunk() {
    let mut content = String::new();
    for i in 0..120 {
        content.push_str(&format!("fn item_{}() {{ do_work_{}(); }}\n", i, i));
    }
    let chunks = chunk_code(&content, "demo-repo", "src/main.rs", Some("Rust"));
    assert_eq!(chunks.len(), 1);
    assert_eq!(chunks[0].line_start, 1);
    assert_eq!(chunks[0].line_end, 120);
    assert_eq!(chunks[0].repo_name, "demo-repo");
    assert_eq!(chunks[0].file_path, "src/main.rs");
    assert_eq!(chunks[0].language.as_deref(), Some("Rust"));
}

#[test]
fn chunking_is_deterministic() {
    let content = many_lines(700);
    let a = chunk_code(&content, "r", "f.rs", None);
    let b = chunk_code(&content, "r", "f.rs", None);
    assert_eq!(a.len(), b.len());
    for (x, y) in a.iter().zip(b.iter()) {
        assert_eq!(x.line_start, y.line_start);
        assert_eq!(x.line_end, y.line_end);
        assert_eq!(x.content, y.content);
    }
}

#[test]
fn chunk_ranges_are_monotone_and_disjoint() {
    let content = many_lines(1000);
    let chunks = chunk_code(&content, "r", "f.rs", None);
    assert!(chunks.len() >= 2);
    assert!(chunks.len() <= MAX_CHUNKS_PER_FILE);
    let mut prev_end = 0i32;
    for c in &chunks {
        assert!(c.line_start >= prev_end + 1);
        assert!(c.line_end >= c.line_start);
        // no chunk is larger than the target size
        assert!((c.line_end - c.line_start + 1) as usize <= CHUNK_SIZE);
        prev_end = c.line_end;
    }
}

#[test]
fn chunk_prefers_natural_break() {
    // 400 lines with a blank line at line 290: the first chunk should end
    // at the blank line rather than at the naive 300 boundary.
    let mut content = String::new();
    for i in 0..400 {
        if i == 289 {
            content.push_str("\n");
        } else {
            content.push_str(&format!("call_site_{}(argument_{});\n", i, i));
        }
    }
    let chunks = chunk_code(&content, "r", "f.rs", None);
    assert_eq!(chunks[0].line_start, 1);
    assert_eq!(chunks[0].line_end, 290);
}

#[test]
fn short_file_with_break_still_yields_one_chunk() {
    // A file that fits in one chunk is kept whole even when a natural-break
    // line sits inside the search window.
    let content = format!("{}\n\n{}", "a".repeat(51), "b".repeat(51));
    let chunks = chunk_code(&content, "r", "f.rs", None);
    assert_eq!(chunks.len(), 1);
    assert_eq!(chunks[0].line_start, 1);
    assert_eq!(chunks[0].line_end, 3);
}

#[test]
fn empty_content_yields_no_chunks() {
    let chunks = chunk_code("", "r", "f.rs", None);
    assert_eq!(chunks.len(), 0);
}

#[test]
fn tiny_chunks_are_discarded() {
    let chunks = chunk_code("x\n", "r", "f.rs", None);
    assert_eq!(chunks.len(), 0);
}

#[test]
fn detect_language_by_extension() {
    assert_eq!(detect_language("src/main.rs").as_deref(), Some("Rust"));
    assert_eq!(detect_language("app/page.tsx").as_deref(), Some("TypeScript"));
    assert_eq!(detect_language("lib/util.py").as_deref(), Some("Python"));
    assert_eq!(detect_language("pkg/server.go").as_deref(), Some("Go"));
    assert_eq!(detect_language("native/impl.cc").as_deref(), Some("C++"));
    assert_eq!(detect_language("README"), None);
    assert_eq!(detect_language("notes.unknownext"), None);
}

#[test]
fn carriage_returns_are_line_endings_too() {
    let mut content = String::new();
    for i in 0..80 {
        content.push_str(&format!("windows_line_{}();\r\n", i));
    }
    let chunks = chunk_code(&content, "r", "f.rs", None);
    assert_eq!(chunks.len(), 1);
    assert_eq!(chunks[0].line_end, 80);
    assert!(!chunks[0].content.contains('\r'));
}
