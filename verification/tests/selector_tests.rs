use devprofile::selector::{
    is_code_file, should_skip_path, select_files, select_repos, qualifies, TreeItem,
    MAX_FILES_PER_REPO, MAX_REPOS, MAX_TOTAL_FILES,
};

fn blob(path: &str, size: u64) -> TreeItem {
    TreeItem { path: path.to_string(), item_type: "blob".to_string(), size: Some(size) }
}

#[test]
fn extension_allow_list() {
    assert!(is_code_file("src/main.rs"));
    assert!(is_code_file("web/app.tsx"));
    assert!(is_code_file("scripts/tool.py"));
    assert!(!is_code_file("README.md"));
    assert!(!is_code_file("image.png"));
}

#[test]
fn exclusion_rules() {
    assert!(should_skip_path("node_modules/foo.js"));
    assert!(should_skip_path("package-lock.json"));
    assert!(should_skip_path("dist/bundle.js"));
    assert!(should_skip_path("tests/helper.rs"));
    assert!(should_skip_path("app.min.js"));
    assert!(should_skip_path("Cargo.toml"));
    assert!(!should_skip_path("src/main.rs"));
    assert!(!should_skip_path("lib/worker.go"));
}

#[test]
fn per_repo_budget_is_never_exceeded() {
    // Far more qualifying files than the per-repository budget allows.
    let mut entries = Vec::new();
    for i in 0..50 {
        entries.push(blob(&format!("src/module_{}.rs", i), 1000));
    }
    let picked = select_files(&entries, MAX_TOTAL_FILES);
    assert_eq!(picked.len(), MAX_FILES_PER_REPO);
    // The first qualifying entries are taken, in order.
    for (k, idx) in picked.iter().enumerate() {
        assert_eq!(*idx, k);
    }
}

#[test]
fn remaining_total_budget_caps_selection() {
    let mut entries = Vec::new();
    for i in 0..50 {
        entries.push(blob(&format!("src/module_{}.rs", i), 1000));
    }
    let picked = select_files(&entries, 4);
    assert_eq!(picked.len(), 4);
    let picked_none = select_files(&entries, 0);
    assert_eq!(picked_none.len(), 0);
}

#[test]
fn excluded_paths_are_never_selected() {
    let entries = vec![
        blob("node_modules/foo.js", 100),
        blob("src/ok.rs", 100),
        blob("dist/bundle.js", 100),
        blob("src/also_ok.py", 100),
    ];
    let picked = select_files(&entries, MAX_TOTAL_FILES);
    assert_eq!(picked, vec![1usize, 3usize]);
    for idx in &picked {
        assert!(qualifies(&entries[*idx]));
    }
}

#[test]
fn tree_of_only_excluded_files_selects_nothing() {
    let entries = vec![blob("node_modules/foo.js", 100), blob("package-lock.json", 100)];
    let picked = select_files(&entries, MAX_TOTAL_FILES);
    assert_eq!(picked.len(), 0);
}

#[test]
fn size_ceiling_and_directories_are_filtered() {
    let entries = vec![
        blob("src/big.rs", 50000),
        TreeItem { path: "src".to_string(), item_type: "tree".to_string(), size: None },
        blob("src/fine.rs", 49999),
    ];
    let picked = select_files(&entries, MAX_TOTAL_FILES);
    assert_eq!(picked, vec![2usize]);
}

#[test]
fn fork_repositories_never_count() {
    let forks = vec![true, false, true, false, false, false, false, false, false];
    let picked = select_repos(&forks);
    assert_eq!(picked.len(), MAX_REPOS);
    assert_eq!(picked, vec![1usize, 3, 4, 5, 6]);
}
