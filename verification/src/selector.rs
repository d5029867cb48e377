//! File selection for harvesting: extension allow-list, size ceiling,
//! path exclusion rules, and the hard budgets on how much is fetched.

use vstd::prelude::*;
use crate::text::{
    spec_lower, spec_contains, spec_ends_with, lower_chars, to_chars, chars_contains_str,
    chars_ends_with_str,
};

verus! {

/// Most repositories considered in one run (forks never count).
pub const MAX_REPOS: usize = 5;

/// Most files fetched from one repository.
pub const MAX_FILES_PER_REPO: usize = 10;

/// Most files fetched across a whole run.
pub const MAX_TOTAL_FILES: usize = 30;

/// Files at or above this byte size are never fetched.
pub const MAX_FILE_SIZE: u64 = 50000;

/// Fetched files with fewer characters than this are discarded: content
/// length is only known after the download.
pub const MIN_CONTENT_CHARS: usize = 50;

/// One entry of a repository's recursive file tree.
pub struct TreeItem {
    pub path: String,
    pub item_type: String,
    pub size: Option<u64>,
}

/// A repository's recursive file tree.
pub struct RepoTree {
    pub tree: Vec<TreeItem>,
}

// ---------------------------------------------------------------------------
// Extension allow-list
// ---------------------------------------------------------------------------

/// The path ends in one of the recognised source-code extensions.
pub open spec fn spec_is_code_file(path: Seq<char>) -> bool {
    ||| spec_ends_with(path, ".rs"@)
    ||| spec_ends_with(path, ".ts"@)
    ||| spec_ends_with(path, ".tsx"@)
    ||| spec_ends_with(path, ".js"@)
    ||| spec_ends_with(path, ".jsx"@)
    ||| spec_ends_with(path, ".py"@)
    ||| spec_ends_with(path, ".go"@)
    ||| spec_ends_with(path, ".java"@)
    ||| spec_ends_with(path, ".cpp"@)
    ||| spec_ends_with(path, ".c"@)
    ||| spec_ends_with(path, ".h"@)
    ||| spec_ends_with(path, ".hpp"@)
    ||| spec_ends_with(path, ".rb"@)
    ||| spec_ends_with(path, ".swift"@)
    ||| spec_ends_with(path, ".kt"@)
    ||| spec_ends_with(path, ".cs"@)
    ||| spec_ends_with(path, ".scala"@)
    ||| spec_ends_with(path, ".clj"@)
    ||| spec_ends_with(path, ".ex"@)
    ||| spec_ends_with(path, ".exs"@)
    ||| spec_ends_with(path, ".hs"@)
    ||| spec_ends_with(path, ".ml"@)
    ||| spec_ends_with(path, ".php"@)
    ||| spec_ends_with(path, ".vue"@)
    ||| spec_ends_with(path, ".svelte"@)
}

pub fn is_code_file(path: &str) -> (r: bool)
    ensures
        r == spec_is_code_file(path@),
{
    let v = to_chars(path);
    is_code_path(&v)
}

pub fn is_code_path(v: &Vec<char>) -> (r: bool)
    ensures
        r == spec_is_code_file(v@),
{
    chars_ends_with_str(v, ".rs") || chars_ends_with_str(v, ".ts") || chars_ends_with_str(v, ".tsx")
        || chars_ends_with_str(v, ".js") || chars_ends_with_str(v, ".jsx")
        || chars_ends_with_str(v, ".py") || chars_ends_with_str(v, ".go")
        || chars_ends_with_str(v, ".java") || chars_ends_with_str(v, ".cpp")
        || chars_ends_with_str(v, ".c") || chars_ends_with_str(v, ".h")
        || chars_ends_with_str(v, ".hpp") || chars_ends_with_str(v, ".rb")
        || chars_ends_with_str(v, ".swift") || chars_ends_with_str(v, ".kt")
        || chars_ends_with_str(v, ".cs") || chars_ends_with_str(v, ".scala")
        || chars_ends_with_str(v, ".clj") || chars_ends_with_str(v, ".ex")
        || chars_ends_with_str(v, ".exs") || chars_ends_with_str(v, ".hs")
        || chars_ends_with_str(v, ".ml") || chars_ends_with_str(v, ".php")
        || chars_ends_with_str(v, ".vue") || chars_ends_with_str(v, ".svelte")
}

// ---------------------------------------------------------------------------
// Path exclusion rules
// ---------------------------------------------------------------------------

/// The path lies in a build, vendor, dependency or test directory, or names a
/// configuration, lock, minified, markdown or plain-text file.
pub open spec fn spec_should_skip(path: Seq<char>) -> bool {
    let low = spec_lower(path);
    ||| spec_contains(path, "node_modules/"@)
    ||| spec_contains(path, "vendor/"@)
    ||| spec_contains(path, "dist/"@)
    ||| spec_contains(path, "build/"@)
    ||| spec_contains(path, "target/"@)
    ||| spec_contains(path, ".git/"@)
    ||| spec_contains(path, "__pycache__/"@)
    ||| spec_contains(path, ".next/"@)
    ||| spec_contains(path, "coverage/"@)
    ||| spec_contains(path, "test/"@)
    ||| spec_contains(path, "tests/"@)
    ||| spec_contains(path, "__tests__/"@)
    ||| spec_contains(path, "spec/"@)
    ||| spec_contains(low, ".env"@)
    ||| spec_contains(low, "config."@)
    ||| spec_contains(low, ".config."@)
    ||| spec_contains(low, "eslint"@)
    ||| spec_contains(low, "prettier"@)
    ||| spec_contains(low, "tsconfig"@)
    ||| spec_contains(low, "package.json"@)
    ||| spec_contains(low, "package-lock"@)
    ||| spec_contains(low, "cargo.toml"@)
    ||| spec_contains(low, "cargo.lock"@)
    ||| spec_contains(low, "yarn.lock"@)
    ||| spec_contains(low, "pnpm-lock"@)
    ||| spec_contains(low, "dockerfile"@)
    ||| spec_contains(low, "docker-compose"@)
    ||| spec_contains(low, "makefile"@)
    ||| spec_contains(low, ".min."@)
    ||| spec_ends_with(low, ".json"@)
    ||| spec_ends_with(low, ".yaml"@)
    ||| spec_ends_with(low, ".yml"@)
    ||| spec_ends_with(low, ".toml"@)
    ||| spec_ends_with(low, ".lock"@)
    ||| spec_ends_with(low, ".md"@)
    ||| spec_ends_with(low, ".txt"@)
}

pub fn should_skip_path(path: &str) -> (r: bool)
    ensures
        r == spec_should_skip(path@),
{
    let v = to_chars(path);
    should_skip_chars(&v)
}

pub fn should_skip_chars(v: &Vec<char>) -> (r: bool)
    ensures
        r == spec_should_skip(v@),
{
    let low = lower_chars(v);
    chars_contains_str(v, "node_modules/") || chars_contains_str(v, "vendor/")
        || chars_contains_str(v, "dist/") || chars_contains_str(v, "build/")
        || chars_contains_str(v, "target/") || chars_contains_str(v, ".git/")
        || chars_contains_str(v, "__pycache__/") || chars_contains_str(v, ".next/")
        || chars_contains_str(v, "coverage/") || chars_contains_str(v, "test/")
        || chars_contains_str(v, "tests/") || chars_contains_str(v, "__tests__/")
        || chars_contains_str(v, "spec/") || chars_contains_str(&low, ".env")
        || chars_contains_str(&low, "config.") || chars_contains_str(&low, ".config.")
        || chars_contains_str(&low, "eslint") || chars_contains_str(&low, "prettier")
        || chars_contains_str(&low, "tsconfig") || chars_contains_str(&low, "package.json")
        || chars_contains_str(&low, "package-lock") || chars_contains_str(&low, "cargo.toml")
        || chars_contains_str(&low, "cargo.lock") || chars_contains_str(&low, "yarn.lock")
        || chars_contains_str(&low, "pnpm-lock") || chars_contains_str(&low, "dockerfile")
        || chars_contains_str(&low, "docker-compose") || chars_contains_str(&low, "makefile")
        || chars_contains_str(&low, ".min.") || chars_ends_with_str(&low, ".json")
        || chars_ends_with_str(&low, ".yaml") || chars_ends_with_str(&low, ".yml")
        || chars_ends_with_str(&low, ".toml") || chars_ends_with_str(&low, ".lock")
        || chars_ends_with_str(&low, ".md") || chars_ends_with_str(&low, ".txt")
}

// ---------------------------------------------------------------------------
// Selection under budgets
// ---------------------------------------------------------------------------

/// A tree entry is worth fetching: a file, with a source extension, under the
/// size ceiling, outside every excluded path.
pub open spec fn spec_qualifies(t: &TreeItem) -> bool {
    &&& t.item_type@ == "blob"@
    &&& spec_is_code_file(t.path@)
    &&& (t.size matches Some(n) ==> n < MAX_FILE_SIZE)
    &&& !spec_should_skip(t.path@)
}

/// The indices of the first qualifying entries, at most `cap` of them,
/// scanning the tree in order from position `i`.
pub open spec fn spec_selected(entries: Seq<TreeItem>, i: int, cap: int) -> Seq<int>
    decreases entries.len() - i,
{
    if i < 0 || i >= entries.len() || cap <= 0 {
        Seq::empty()
    } else if spec_qualifies(&entries[i]) {
        seq![i] + spec_selected(entries, i + 1, cap - 1)
    } else {
        spec_selected(entries, i + 1, cap)
    }
}

pub fn qualifies(t: &TreeItem) -> (r: bool)
    ensures
        r == spec_qualifies(t),
{
    let type_ok = crate::text::str_eq(t.item_type.as_str(), "blob");
    if !type_ok {
        return false;
    }
    let p = to_chars(t.path.as_str());
    let size_ok = match t.size {
        Some(n) => n < MAX_FILE_SIZE,
        None => true,
    };
    size_ok && is_code_path(&p) && !should_skip_chars(&p)
}

/// Pick the files to fetch from one repository tree: the qualifying entries
/// in tree order, cut off at the per-repository budget and at whatever part
/// of the whole-run budget is still open.
pub fn select_files(entries: &Vec<TreeItem>, remaining_total: usize) -> (r: Vec<usize>)
    ensures
        r@.map_values(|x: usize| x as int) == spec_selected(
            entries@,
            0,
            min_int(MAX_FILES_PER_REPO as int, remaining_total as int),
        ),
        r@.len() <= MAX_FILES_PER_REPO,
        r@.len() <= remaining_total,
        forall|j: int| 0 <= j < r@.len() ==> 0 <= #[trigger] r@[j] < entries@.len(),
        forall|j: int| 0 <= j < r@.len() ==> spec_qualifies(&entries@[r@[j] as int]),
        forall|j: int, k: int| 0 <= j < k < r@.len() ==> r@[j] < r@[k],
{
    let cap = if MAX_FILES_PER_REPO < remaining_total {
        MAX_FILES_PER_REPO
    } else {
        remaining_total
    };
    let ghost cap0 = cap as int;
    let mut r: Vec<usize> = Vec::new();
    let mut i: usize = 0;
    let mut left: usize = cap;
    proof {
        assert(r@.map_values(|x: usize| x as int) =~= Seq::<int>::empty());
    }
    while i < entries.len() && left > 0
        invariant
            i <= entries@.len(),
            left <= cap,
            r@.len() + left == cap,
            spec_selected(entries@, 0, cap0) == r@.map_values(|x: usize| x as int)
                + spec_selected(entries@, i as int, left as int),
            forall|j: int| 0 <= j < r@.len() ==> 0 <= #[trigger] r@[j] < i,
            forall|j: int| 0 <= j < r@.len() ==> spec_qualifies(&entries@[r@[j] as int]),
            forall|j: int, k: int| 0 <= j < k < r@.len() ==> r@[j] < r@[k],
        decreases entries.len() - i,
    {
        let ghost old_r = r@;
        if qualifies(&entries[i]) {
            r.push(i);
            left = left - 1;
            proof {
                assert(r@.map_values(|x: usize| x as int) =~= old_r.map_values(
                    |x: usize| x as int,
                ).push(i as int));
                assert(spec_selected(entries@, i as int, (left + 1) as int) == seq![i as int]
                    + spec_selected(entries@, i + 1, left as int));
                assert(old_r.map_values(|x: usize| x as int) + (seq![i as int] + spec_selected(
                    entries@,
                    i + 1,
                    left as int,
                )) =~= r@.map_values(|x: usize| x as int) + spec_selected(
                    entries@,
                    i + 1,
                    left as int,
                ));
            }
        }
        i = i + 1;
    }
    proof {
        if left > 0 {
            assert(i == entries@.len());
            assert(spec_selected(entries@, i as int, left as int) =~= Seq::<int>::empty());
        } else {
            assert(spec_selected(entries@, i as int, 0) =~= Seq::<int>::empty());
        }
        assert(r@.map_values(|x: usize| x as int) + Seq::<int>::empty() =~= r@.map_values(
            |x: usize| x as int,
        ));
        assert(forall|j: int| 0 <= j < r@.len() ==> r@.map_values(|x: usize| x as int)[j] == (
        #[trigger] r@[j]) as int);
    }
    r
}

pub open spec fn min_int(a: int, b: int) -> int {
    if a <= b {
        a
    } else {
        b
    }
}

/// Every selected index qualifies: exclusion rules are applied before any
/// fetch is issued, so an excluded path is never fetched.
pub proof fn lemma_selected_qualify(entries: Seq<TreeItem>, i: int, cap: int)
    ensures
        forall|j: int|
            0 <= j < spec_selected(entries, i, cap).len() ==> {
                let x = #[trigger] spec_selected(entries, i, cap)[j];
                0 <= x < entries.len() && spec_qualifies(&entries[x])
            },
    decreases entries.len() - i,
{
    if i < 0 || i >= entries.len() || cap <= 0 {
    } else if spec_qualifies(&entries[i]) {
        lemma_selected_qualify(entries, i + 1, cap - 1);
        let t = spec_selected(entries, i + 1, cap - 1);
        let s = spec_selected(entries, i, cap);
        assert(s == seq![i] + t);
        assert forall|j: int| 0 <= j < s.len() implies {
            let x = #[trigger] s[j];
            0 <= x < entries.len() && spec_qualifies(&entries[x])
        } by {
            if j > 0 {
                assert(s[j] == t[j - 1]);
            } else {
                assert(s[0] == i);
            }
        }
    } else {
        lemma_selected_qualify(entries, i + 1, cap);
        let t = spec_selected(entries, i + 1, cap);
        let s = spec_selected(entries, i, cap);
        assert(s == t);
        assert forall|j: int| 0 <= j < s.len() implies {
            let x = #[trigger] s[j];
            0 <= x < entries.len() && spec_qualifies(&entries[x])
        } by {
            assert(t[j] == s[j]);
            assert(0 <= t[j] < entries.len() && spec_qualifies(&entries[t[j]]));
        }
    }
}

/// The selection never exceeds the cap it was given: with the per-repository
/// budget in force, no more than `MAX_FILES_PER_REPO` files are ever chosen
/// from one tree.
pub proof fn lemma_selected_bounded(entries: Seq<TreeItem>, i: int, cap: int)
    ensures
        spec_selected(entries, i, cap).len() <= if cap >= 0 {
            cap
        } else {
            0
        },
    decreases entries.len() - i,
{
    if i < 0 || i >= entries.len() || cap <= 0 {
    } else {
        lemma_selected_bounded(entries, i + 1, cap - 1);
        lemma_selected_bounded(entries, i + 1, cap);
    }
}

/// The harvesting budgets are hard bounds: whatever the tree holds, one
/// repository contributes at most `MAX_FILES_PER_REPO` files, and never
/// more than the part of the whole-run budget (`MAX_TOTAL_FILES`) that is
/// still open.
pub proof fn lemma_budgets_hold(entries: Seq<TreeItem>, remaining_total: int)
    requires
        0 <= remaining_total <= MAX_TOTAL_FILES,
    ensures
        spec_selected(entries, 0, min_int(MAX_FILES_PER_REPO as int, remaining_total)).len()
            <= MAX_FILES_PER_REPO,
        spec_selected(entries, 0, min_int(MAX_FILES_PER_REPO as int, remaining_total)).len()
            <= remaining_total,
        spec_selected(entries, 0, min_int(MAX_FILES_PER_REPO as int, remaining_total)).len()
            <= MAX_TOTAL_FILES,
{
    lemma_selected_bounded(entries, 0, min_int(MAX_FILES_PER_REPO as int, remaining_total));
}

// ---------------------------------------------------------------------------
// Repository selection
// ---------------------------------------------------------------------------

/// Indices of the first `MAX_REPOS` non-fork repositories, where `forks`
/// records for each repository whether it is a fork.
pub open spec fn spec_selected_repos(forks: Seq<bool>, i: int, cap: int) -> Seq<int>
    decreases forks.len() - i,
{
    if i < 0 || i >= forks.len() || cap <= 0 {
        Seq::empty()
    } else if !forks[i] {
        seq![i] + spec_selected_repos(forks, i + 1, cap - 1)
    } else {
        spec_selected_repos(forks, i + 1, cap)
    }
}

/// Pick the repositories a run will consider: the first `MAX_REPOS` non-fork
/// entries, in order.
pub fn select_repos(forks: &Vec<bool>) -> (r: Vec<usize>)
    ensures
        r@.map_values(|x: usize| x as int) == spec_selected_repos(
            forks@,
            0,
            MAX_REPOS as int,
        ),
        r@.len() <= MAX_REPOS,
        forall|j: int| 0 <= j < r@.len() ==> 0 <= #[trigger] r@[j] < forks@.len(),
        forall|j: int| 0 <= j < r@.len() ==> !forks@[#[trigger] r@[j] as int],
        forall|j: int, k: int| 0 <= j < k < r@.len() ==> r@[j] < r@[k],
{
    let mut r: Vec<usize> = Vec::new();
    let mut i: usize = 0;
    let mut left: usize = MAX_REPOS;
    proof {
        assert(r@.map_values(|x: usize| x as int) =~= Seq::<int>::empty());
    }
    while i < forks.len() && left > 0
        invariant
            i <= forks@.len(),
            left <= MAX_REPOS,
            r@.len() + left == MAX_REPOS,
            spec_selected_repos(forks@, 0, MAX_REPOS as int) == r@.map_values(|x: usize| x as int)
                + spec_selected_repos(forks@, i as int, left as int),
            forall|j: int| 0 <= j < r@.len() ==> 0 <= #[trigger] r@[j] < i,
            forall|j: int| 0 <= j < r@.len() ==> !forks@[#[trigger] r@[j] as int],
            forall|j: int, k: int| 0 <= j < k < r@.len() ==> r@[j] < r@[k],
        decreases forks.len() - i,
    {
        let ghost old_r = r@;
        if !forks[i] {
            r.push(i);
            left = left - 1;
            proof {
                assert(r@.map_values(|x: usize| x as int) =~= old_r.map_values(
                    |x: usize| x as int,
                ).push(i as int));
                assert(old_r.map_values(|x: usize| x as int) + (seq![i as int]
                    + spec_selected_repos(forks@, i + 1, left as int)) =~= r@.map_values(
                    |x: usize| x as int,
                ) + spec_selected_repos(forks@, i + 1, left as int));
            }
        }
        i = i + 1;
    }
    proof {
        if left > 0 {
            assert(spec_selected_repos(forks@, i as int, left as int) =~= Seq::<int>::empty());
        } else {
            assert(spec_selected_repos(forks@, i as int, 0) =~= Seq::<int>::empty());
        }
        assert(r@.map_values(|x: usize| x as int) + Seq::<int>::empty() =~= r@.map_values(
            |x: usize| x as int,
        ));
        assert(forall|j: int| 0 <= j < r@.len() ==> r@.map_values(|x: usize| x as int)[j] == (
        #[trigger] r@[j]) as int);
    }
    r
}

} // verus!
