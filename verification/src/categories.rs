//! The ten fixed style categories, the excerpts retrieved for them, and the
//! aggregate that always carries all ten categories.

use vstd::prelude::*;

verus! {

/// How many excerpts one category holds at most.
pub const EXCERPTS_PER_CATEGORY: usize = 3;

/// The closed set of style dimensions an excerpt can be filed under.
#[derive(Clone, Copy, Debug, PartialEq, Eq, Structural)]
pub enum SearchCategory {
    ErrorHandling,
    NamingConventions,
    CodeComments,
    TestingPatterns,
    AsyncPatterns,
    DataValidation,
    Logging,
    Configuration,
    ClassStructure,
    FunctionalPatterns,
}

/// The canonical retrieval query of a category.
pub open spec fn spec_category_query(c: SearchCategory) -> Seq<char> {
    match c {
        SearchCategory::ErrorHandling => "error handling try catch exception result unwrap"@,
        SearchCategory::NamingConventions
            => "function variable naming conventions style camelCase snake_case"@,
        SearchCategory::CodeComments => "code comments documentation TODO FIXME notes explanations"@,
        SearchCategory::TestingPatterns => "test unit test integration test mock assert expect"@,
        SearchCategory::AsyncPatterns => "async await promise future concurrent parallel"@,
        SearchCategory::DataValidation => "validation input checking sanitize validate parse"@,
        SearchCategory::Logging => "logging debug print console log trace warn error"@,
        SearchCategory::Configuration => "config configuration environment setup settings"@,
        SearchCategory::ClassStructure => "class struct impl interface trait inheritance"@,
        SearchCategory::FunctionalPatterns => "map filter reduce lambda closure higher order function"@,
    }
}

/// The short name of a category.
pub open spec fn spec_category_name(c: SearchCategory) -> Seq<char> {
    match c {
        SearchCategory::ErrorHandling => "error_handling"@,
        SearchCategory::NamingConventions => "naming_style"@,
        SearchCategory::CodeComments => "comments"@,
        SearchCategory::TestingPatterns => "testing"@,
        SearchCategory::AsyncPatterns => "async_patterns"@,
        SearchCategory::DataValidation => "validation"@,
        SearchCategory::Logging => "logging"@,
        SearchCategory::Configuration => "configuration"@,
        SearchCategory::ClassStructure => "class_structure"@,
        SearchCategory::FunctionalPatterns => "functional_patterns"@,
    }
}

/// Every category, in its fixed order.
pub open spec fn spec_all_categories() -> Seq<SearchCategory> {
    seq![
        SearchCategory::ErrorHandling,
        SearchCategory::NamingConventions,
        SearchCategory::CodeComments,
        SearchCategory::TestingPatterns,
        SearchCategory::AsyncPatterns,
        SearchCategory::DataValidation,
        SearchCategory::Logging,
        SearchCategory::Configuration,
        SearchCategory::ClassStructure,
        SearchCategory::FunctionalPatterns,
    ]
}

impl SearchCategory {
    /// The natural-language query used to retrieve excerpts for this
    /// category.
    pub fn query(&self) -> (r: &'static str)
        ensures
            r@ == spec_category_query(*self),
    {
        match self {
            SearchCategory::ErrorHandling => "error handling try catch exception result unwrap",
            SearchCategory::NamingConventions
                => "function variable naming conventions style camelCase snake_case",
            SearchCategory::CodeComments
                => "code comments documentation TODO FIXME notes explanations",
            SearchCategory::TestingPatterns
                => "test unit test integration test mock assert expect",
            SearchCategory::AsyncPatterns => "async await promise future concurrent parallel",
            SearchCategory::DataValidation => "validation input checking sanitize validate parse",
            SearchCategory::Logging => "logging debug print console log trace warn error",
            SearchCategory::Configuration => "config configuration environment setup settings",
            SearchCategory::ClassStructure => "class struct impl interface trait inheritance",
            SearchCategory::FunctionalPatterns
                => "map filter reduce lambda closure higher order function",
        }
    }

    /// The category's short name, used as the key of `SearchResults`.
    pub fn name(&self) -> (r: &'static str)
        ensures
            r@ == spec_category_name(*self),
    {
        match self {
            SearchCategory::ErrorHandling => "error_handling",
            SearchCategory::NamingConventions => "naming_style",
            SearchCategory::CodeComments => "comments",
            SearchCategory::TestingPatterns => "testing",
            SearchCategory::AsyncPatterns => "async_patterns",
            SearchCategory::DataValidation => "validation",
            SearchCategory::Logging => "logging",
            SearchCategory::Configuration => "configuration",
            SearchCategory::ClassStructure => "class_structure",
            SearchCategory::FunctionalPatterns => "functional_patterns",
        }
    }

    /// All ten categories, in their fixed order.
    pub fn all() -> (r: Vec<SearchCategory>)
        ensures
            r@ == spec_all_categories(),
    {
        let mut r: Vec<SearchCategory> = Vec::new();
        r.push(SearchCategory::ErrorHandling);
        r.push(SearchCategory::NamingConventions);
        r.push(SearchCategory::CodeComments);
        r.push(SearchCategory::TestingPatterns);
        r.push(SearchCategory::AsyncPatterns);
        r.push(SearchCategory::DataValidation);
        r.push(SearchCategory::Logging);
        r.push(SearchCategory::Configuration);
        r.push(SearchCategory::ClassStructure);
        r.push(SearchCategory::FunctionalPatterns);
        proof {
            assert(r@ =~= spec_all_categories());
        }
        r
    }
}

/// One retrieved excerpt.  `similarity_milli` is the similarity score in
/// thousandths, between 0 and 1000; non-ranked (fallback) results carry 1000.
pub struct CodeExcerpt {
    pub repo_name: String,
    pub file_path: String,
    pub line_start: i32,
    pub line_end: i32,
    pub language: Option<String>,
    pub content: String,
    pub similarity_milli: u32,
}

/// Two excerpts carry the same data.
pub open spec fn spec_excerpt_like(a: CodeExcerpt, b: CodeExcerpt) -> bool {
    &&& a.repo_name@ == b.repo_name@
    &&& a.file_path@ == b.file_path@
    &&& a.line_start == b.line_start
    &&& a.line_end == b.line_end
    &&& match b.language {
        Some(l) => a.language matches Some(m) && m@ == l@,
        None => a.language is None,
    }
    &&& a.content@ == b.content@
    &&& a.similarity_milli == b.similarity_milli
}

impl CodeExcerpt {
    /// An owned copy of this excerpt.
    pub fn duplicate(&self) -> (r: CodeExcerpt)
        ensures
            spec_excerpt_like(r, *self),
    {
        CodeExcerpt {
            repo_name: self.repo_name.clone(),
            file_path: self.file_path.clone(),
            line_start: self.line_start,
            line_end: self.line_end,
            language: match &self.language {
                Some(l) => Some(l.clone()),
                None => None,
            },
            content: self.content.clone(),
            similarity_milli: self.similarity_milli,
        }
    }
}

/// The retrieval aggregate: one ordered excerpt list for each of the ten
/// categories.  Every category is always present; an empty list means that
/// nothing was retrieved for it, never that the category was dropped.
pub struct SearchResults {
    pub error_handling: Vec<CodeExcerpt>,
    pub naming_style: Vec<CodeExcerpt>,
    pub comments: Vec<CodeExcerpt>,
    pub testing: Vec<CodeExcerpt>,
    pub async_patterns: Vec<CodeExcerpt>,
    pub validation: Vec<CodeExcerpt>,
    pub logging: Vec<CodeExcerpt>,
    pub configuration: Vec<CodeExcerpt>,
    pub class_structure: Vec<CodeExcerpt>,
    pub functional_patterns: Vec<CodeExcerpt>,
}

/// The excerpt list a category maps to.
pub open spec fn spec_field_for(r: SearchResults, c: SearchCategory) -> Seq<CodeExcerpt> {
    match c {
        SearchCategory::ErrorHandling => r.error_handling@,
        SearchCategory::NamingConventions => r.naming_style@,
        SearchCategory::CodeComments => r.comments@,
        SearchCategory::TestingPatterns => r.testing@,
        SearchCategory::AsyncPatterns => r.async_patterns@,
        SearchCategory::DataValidation => r.validation@,
        SearchCategory::Logging => r.logging@,
        SearchCategory::Configuration => r.configuration@,
        SearchCategory::ClassStructure => r.class_structure@,
        SearchCategory::FunctionalPatterns => r.functional_patterns@,
    }
}

/// The category whose name is `n`, if `n` is one of the ten names.
pub open spec fn spec_category_of_name(n: Seq<char>) -> Option<SearchCategory> {
    if n == "error_handling"@ {
        Some(SearchCategory::ErrorHandling)
    } else if n == "naming_style"@ {
        Some(SearchCategory::NamingConventions)
    } else if n == "comments"@ {
        Some(SearchCategory::CodeComments)
    } else if n == "testing"@ {
        Some(SearchCategory::TestingPatterns)
    } else if n == "async_patterns"@ {
        Some(SearchCategory::AsyncPatterns)
    } else if n == "validation"@ {
        Some(SearchCategory::DataValidation)
    } else if n == "logging"@ {
        Some(SearchCategory::Logging)
    } else if n == "configuration"@ {
        Some(SearchCategory::Configuration)
    } else if n == "class_structure"@ {
        Some(SearchCategory::ClassStructure)
    } else if n == "functional_patterns"@ {
        Some(SearchCategory::FunctionalPatterns)
    } else {
        None
    }
}

/// Total number of excerpts over the ten categories.
pub open spec fn spec_total_count(r: SearchResults) -> int {
    r.error_handling@.len() as int + r.naming_style@.len() + r.comments@.len() + r.testing@.len()
        + r.async_patterns@.len() + r.validation@.len() + r.logging@.len() + r.configuration@.len()
        + r.class_structure@.len() + r.functional_patterns@.len()
}

impl SearchResults {
    /// Excerpts filed under the category named `category`; `None` when no
    /// category carries that name.
    pub fn get(&self, category: &str) -> (r: Option<&Vec<CodeExcerpt>>)
        ensures
            match spec_category_of_name(category@) {
                Some(c) => r matches Some(v) && v@ == spec_field_for(*self, c),
                None => r is None,
            },
    {
        if crate::text::str_eq(category, "error_handling") {
            Some(&self.error_handling)
        } else if crate::text::str_eq(category, "naming_style") {
            Some(&self.naming_style)
        } else if crate::text::str_eq(category, "comments") {
            Some(&self.comments)
        } else if crate::text::str_eq(category, "testing") {
            Some(&self.testing)
        } else if crate::text::str_eq(category, "async_patterns") {
            Some(&self.async_patterns)
        } else if crate::text::str_eq(category, "validation") {
            Some(&self.validation)
        } else if crate::text::str_eq(category, "logging") {
            Some(&self.logging)
        } else if crate::text::str_eq(category, "configuration") {
            Some(&self.configuration)
        } else if crate::text::str_eq(category, "class_structure") {
            Some(&self.class_structure)
        } else if crate::text::str_eq(category, "functional_patterns") {
            Some(&self.functional_patterns)
        } else {
            None
        }
    }

    /// How many excerpts the aggregate holds over all ten categories.
    pub fn total_count(&self) -> (r: usize)
        requires
            spec_total_count(*self) <= usize::MAX,
        ensures
            r == spec_total_count(*self),
    {
        self.error_handling.len() + self.naming_style.len() + self.comments.len()
            + self.testing.len() + self.async_patterns.len() + self.validation.len()
            + self.logging.len() + self.configuration.len() + self.class_structure.len()
            + self.functional_patterns.len()
    }

    /// Replace the excerpt list of the category named `category`; a name
    /// that belongs to no category changes nothing.
    pub fn set(&mut self, category: &str, excerpts: Vec<CodeExcerpt>)
        ensures
            match spec_category_of_name(category@) {
                Some(c) => {
                    &&& spec_field_for(*final(self), c) == excerpts@
                    &&& forall|d: SearchCategory|
                        d != c ==> spec_field_for(*final(self), d) == spec_field_for(*old(self), d)
                },
                None => *final(self) == *old(self),
            },
    {
        if crate::text::str_eq(category, "error_handling") {
            self.error_handling = excerpts;
        } else if crate::text::str_eq(category, "naming_style") {
            self.naming_style = excerpts;
        } else if crate::text::str_eq(category, "comments") {
            self.comments = excerpts;
        } else if crate::text::str_eq(category, "testing") {
            self.testing = excerpts;
        } else if crate::text::str_eq(category, "async_patterns") {
            self.async_patterns = excerpts;
        } else if crate::text::str_eq(category, "validation") {
            self.validation = excerpts;
        } else if crate::text::str_eq(category, "logging") {
            self.logging = excerpts;
        } else if crate::text::str_eq(category, "configuration") {
            self.configuration = excerpts;
        } else if crate::text::str_eq(category, "class_structure") {
            self.class_structure = excerpts;
        } else if crate::text::str_eq(category, "functional_patterns") {
            self.functional_patterns = excerpts;
        }
    }
}

impl Default for SearchResults {
    /// The empty aggregate: all ten categories present, each with no
    /// excerpts.
    fn default() -> (r: SearchResults)
        ensures
            forall|c: SearchCategory| (#[trigger] spec_field_for(r, c)).len() == 0,
    {
        SearchResults {
            error_handling: Vec::new(),
            naming_style: Vec::new(),
            comments: Vec::new(),
            testing: Vec::new(),
            async_patterns: Vec::new(),
            validation: Vec::new(),
            logging: Vec::new(),
            configuration: Vec::new(),
            class_structure: Vec::new(),
            functional_patterns: Vec::new(),
        }
    }
}

/// Every category is always a key of the aggregate: each category's name
/// maps back to it, so looking any of the ten names up in a `SearchResults`
/// yields a list (possibly empty), never nothing.
pub proof fn lemma_all_categories_present()
    ensures
        forall|c: SearchCategory|
            #[trigger] spec_category_of_name(spec_category_name(c)) == Some(c),
{
    reveal_strlit("error_handling");
    reveal_strlit("naming_style");
    reveal_strlit("comments");
    reveal_strlit("testing");
    reveal_strlit("async_patterns");
    reveal_strlit("validation");
    reveal_strlit("logging");
    reveal_strlit("configuration");
    reveal_strlit("class_structure");
    reveal_strlit("functional_patterns");
    assert("error_handling"@.len() == 14);
    assert("naming_style"@.len() == 12);
    assert("comments"@.len() == 8);
    assert("testing"@.len() == 7);
    assert("async_patterns"@.len() == 14);
    assert("validation"@.len() == 10);
    assert("logging"@.len() == 7);
    assert("configuration"@.len() == 13);
    assert("class_structure"@.len() == 15);
    assert("functional_patterns"@.len() == 19);
    assert("error_handling"@[0] == 'e');
    assert("async_patterns"@[0] == 'a');
    assert("testing"@[0] == 't');
    assert("logging"@[0] == 'l');
    assert(spec_category_of_name("error_handling"@) == Some(SearchCategory::ErrorHandling));
    assert(spec_category_of_name("naming_style"@) == Some(SearchCategory::NamingConventions));
    assert(spec_category_of_name("comments"@) == Some(SearchCategory::CodeComments));
    assert(spec_category_of_name("testing"@) == Some(SearchCategory::TestingPatterns));
    assert(spec_category_of_name("async_patterns"@) == Some(SearchCategory::AsyncPatterns));
    assert(spec_category_of_name("validation"@) == Some(SearchCategory::DataValidation));
    assert(spec_category_of_name("logging"@) == Some(SearchCategory::Logging));
    assert(spec_category_of_name("configuration"@) == Some(SearchCategory::Configuration));
    assert(spec_category_of_name("class_structure"@) == Some(SearchCategory::ClassStructure));
    assert(spec_category_of_name("functional_patterns"@) == Some(
        SearchCategory::FunctionalPatterns,
    ));
    assert forall|c: SearchCategory|
        #[trigger] spec_category_of_name(spec_category_name(c)) == Some(c) by {
        match c {
            SearchCategory::ErrorHandling => {}
            SearchCategory::NamingConventions => {}
            SearchCategory::CodeComments => {}
            SearchCategory::TestingPatterns => {}
            SearchCategory::AsyncPatterns => {}
            SearchCategory::DataValidation => {}
            SearchCategory::Logging => {}
            SearchCategory::Configuration => {}
            SearchCategory::ClassStructure => {}
            SearchCategory::FunctionalPatterns => {}
        }
    }
}

} // verus!
