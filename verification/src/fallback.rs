//! Keyword-mode categorization: when no vector backend is available, a
//! file's text is bucketed into style categories by a fixed keyword table,
//! and every processed file also serves as a general naming-style sample.

use vstd::prelude::*;
use crate::categories::{
    SearchCategory, CodeExcerpt, SearchResults, spec_field_for, spec_excerpt_like,
    EXCERPTS_PER_CATEGORY,
};
use crate::text::{spec_lower, spec_contains, chars_contains_str};

verus! {

/// Whether lowercased text `low` carries one of the keywords that file it
/// under category `c` in keyword mode.  Every file counts as a naming-style
/// sample; comments and configuration are never filled by keywords.
pub open spec fn spec_keyword_hit(c: SearchCategory, low: Seq<char>) -> bool {
    match c {
        SearchCategory::ErrorHandling => spec_contains(low, "error"@) || spec_contains(
            low,
            "catch"@,
        ) || spec_contains(low, "exception"@) || spec_contains(low, "result"@) || spec_contains(
            low,
            "unwrap"@,
        ),
        SearchCategory::NamingConventions => true,
        SearchCategory::CodeComments => false,
        SearchCategory::TestingPatterns => spec_contains(low, "test"@) || spec_contains(
            low,
            "assert"@,
        ) || spec_contains(low, "expect"@),
        SearchCategory::AsyncPatterns => spec_contains(low, "async"@) || spec_contains(
            low,
            "await"@,
        ) || spec_contains(low, "promise"@) || spec_contains(low, "future"@),
        SearchCategory::DataValidation => spec_contains(low, "valid"@) || spec_contains(
            low,
            "check"@,
        ) || spec_contains(low, "parse"@),
        SearchCategory::Logging => spec_contains(low, "log"@) || spec_contains(low, "debug"@)
            || spec_contains(low, "print"@) || spec_contains(low, "console"@),
        SearchCategory::Configuration => false,
        SearchCategory::ClassStructure => spec_contains(low, "class"@) || spec_contains(
            low,
            "struct"@,
        ) || spec_contains(low, "impl"@) || spec_contains(low, "interface"@),
        SearchCategory::FunctionalPatterns => spec_contains(low, "map"@) || spec_contains(
            low,
            "filter"@,
        ) || spec_contains(low, "reduce"@) || spec_contains(low, "lambda"@) || spec_contains(
            low,
            "closure"@,
        ),
    }
}

/// Keyword categorization is deterministic: equal text is always filed under
/// exactly the same categories.
pub proof fn lemma_keyword_deterministic(a: Seq<char>, b: Seq<char>)
    requires
        a == b,
    ensures
        forall|c: SearchCategory|
            #[trigger] spec_keyword_hit(c, spec_lower(a)) == spec_keyword_hit(c, spec_lower(b)),
{
}

/// One category list after a bucketing step: when the category was hit and
/// its list was not yet full, an excerpt satisfying `like` was appended;
/// otherwise the list is unchanged.
pub open spec fn spec_bucketed(
    before: Seq<CodeExcerpt>,
    after: Seq<CodeExcerpt>,
    hit: bool,
    like: spec_fn(CodeExcerpt) -> bool,
) -> bool {
    if hit && before.len() < EXCERPTS_PER_CATEGORY {
        &&& after.len() == before.len() + 1
        &&& after.subrange(0, before.len() as int) == before
        &&& like(after[after.len() - 1])
    } else {
        after == before
    }
}

/// Append a copy of `e` to `list` when `hit` holds and the list is not yet
/// full.
fn bucket_one(list: &mut Vec<CodeExcerpt>, hit: bool, e: &CodeExcerpt)
    ensures
        spec_bucketed(old(list)@, final(list)@, hit, (|x: CodeExcerpt| spec_excerpt_like(x, *e))),
{
    if hit && list.len() < EXCERPTS_PER_CATEGORY {
        let ghost before = list@;
        list.push(e.duplicate());
        proof {
            assert(list@.subrange(0, before.len() as int) =~= before);
        }
    }
}

/// Decide which categories the lowercased text `low` belongs to, and file a
/// copy of `excerpt` under each of them, capped per category; the file is
/// always filed as a naming-style sample while that list has room.
pub fn add_fallback_excerpt(results: &mut SearchResults, excerpt: &CodeExcerpt, low: &Vec<char>)
    ensures
        forall|c: SearchCategory|
            spec_bucketed(
                spec_field_for(*old(results), c),
                spec_field_for(*final(results), c),
                spec_keyword_hit(c, low@),
                (|x: CodeExcerpt| spec_excerpt_like(x, *excerpt)),
            ),
{
    let hit_error = chars_contains_str(low, "error") || chars_contains_str(low, "catch")
        || chars_contains_str(low, "exception") || chars_contains_str(low, "result")
        || chars_contains_str(low, "unwrap");
    let hit_async = chars_contains_str(low, "async") || chars_contains_str(low, "await")
        || chars_contains_str(low, "promise") || chars_contains_str(low, "future");
    let hit_testing = chars_contains_str(low, "test") || chars_contains_str(low, "assert")
        || chars_contains_str(low, "expect");
    let hit_logging = chars_contains_str(low, "log") || chars_contains_str(low, "debug")
        || chars_contains_str(low, "print") || chars_contains_str(low, "console");
    let hit_class = chars_contains_str(low, "class") || chars_contains_str(low, "struct")
        || chars_contains_str(low, "impl") || chars_contains_str(low, "interface");
    let hit_functional = chars_contains_str(low, "map") || chars_contains_str(low, "filter")
        || chars_contains_str(low, "reduce") || chars_contains_str(low, "lambda")
        || chars_contains_str(low, "closure");
    let hit_validation = chars_contains_str(low, "valid") || chars_contains_str(low, "check")
        || chars_contains_str(low, "parse");
    bucket_one(&mut results.error_handling, hit_error, excerpt);
    bucket_one(&mut results.async_patterns, hit_async, excerpt);
    bucket_one(&mut results.testing, hit_testing, excerpt);
    bucket_one(&mut results.logging, hit_logging, excerpt);
    bucket_one(&mut results.class_structure, hit_class, excerpt);
    bucket_one(&mut results.functional_patterns, hit_functional, excerpt);
    bucket_one(&mut results.validation, hit_validation, excerpt);
    bucket_one(&mut results.naming_style, true, excerpt);
    proof {
        assert forall|c: SearchCategory|
            spec_bucketed(
                spec_field_for(*old(results), c),
                spec_field_for(*results, c),
                spec_keyword_hit(c, low@),
                (|x: CodeExcerpt| spec_excerpt_like(x, *excerpt)),
            ) by {
            match c {
                SearchCategory::ErrorHandling => {}
                SearchCategory::NamingConventions => {}
                SearchCategory::CodeComments => {}
                SearchCategory::TestingPatterns => {}
                SearchCategory::AsyncPatterns => {}
                SearchCategory::DataValidation => {}
                SearchCategory::Logging => {}
                SearchCategory::Configuration => {}
                SearchCategory::ClassStructure => {}
                SearchCategory::FunctionalPatterns => {}
            }
        }
    }
}

} // verus!
