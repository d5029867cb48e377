//! Category-scoped retrieval: one vector search per category when a vector
//! backend is available, and the keyword fallback otherwise.  A category
//! whose retrieval could not run gets an empty list, never an error.

use vstd::prelude::*;
use crate::categories::{
    SearchCategory, SearchResults, spec_field_for, spec_all_categories, spec_category_name,
    spec_category_of_name, lemma_all_categories_present,
};
use crate::index::{VectorIndex, SessionId, spec_vec_wf, spec_sess_count, spec_search_witness};
use crate::selector::min_int;

verus! {

/// The two retrieval strategies.
#[derive(Clone, Copy, Debug, PartialEq, Eq, Structural)]
pub enum RetrievalMode {
    /// Embedding-based nearest-neighbour search over the vector index.
    Semantic,
    /// Keyword bucketing straight over harvested file text.
    Keyword,
}

/// Pick the retrieval strategy for a run: semantic search needs a working
/// embedding backend; without one the run degrades to keyword mode instead
/// of failing.
pub fn choose_mode(embedding_available: bool) -> (r: RetrievalMode)
    ensures
        r == if embedding_available {
            RetrievalMode::Semantic
        } else {
            RetrievalMode::Keyword
        },
{
    if embedding_available {
        RetrievalMode::Semantic
    } else {
        RetrievalMode::Keyword
    }
}

/// What one category's list looks like after retrieval: empty when its
/// query could not be embedded, else the nearest stored chunks of the
/// session for its query vector.
pub open spec fn spec_category_retrieved(
    index: VectorIndex,
    session: SessionId,
    qv: Option<Vec<i64>>,
    field: Seq<crate::categories::CodeExcerpt>,
    limit: int,
) -> bool {
    match qv {
        Some(q) => {
            &&& field.len() == min_int(limit, spec_sess_count(index.rows@, session, 0))
            &&& exists|picked: Seq<int>|
                spec_search_witness(index.rows@, session, q@, field, picked)
        },
        None => field.len() == 0,
    }
}

/// Run one nearest-neighbour search per category, using the pre-embedded
/// query vectors (one per category, in the fixed category order; `None`
/// marks a query whose embedding failed).  A failed query yields an empty
/// list for its category; the other categories are still served.
pub fn search_all_categories(
    index: &VectorIndex,
    session: SessionId,
    query_vectors: &Vec<Option<Vec<i64>>>,
    limit: usize,
) -> (r: SearchResults)
    requires
        index.wf(),
        query_vectors@.len() == spec_all_categories().len(),
        forall|j: int|
            0 <= j < query_vectors@.len() ==> (#[trigger] query_vectors@[j] matches Some(q)
                ==> spec_vec_wf(q@, index.dim as int)),
    ensures
        forall|j: int|
            0 <= j < spec_all_categories().len() ==> spec_category_retrieved(
                *index,
                session,
                query_vectors@[j],
                spec_field_for(r, #[trigger] spec_all_categories()[j]),
                limit as int,
            ),
{
    let cats = SearchCategory::all();
    let mut results = SearchResults::default();
    proof {
        lemma_all_categories_present();
        lemma_categories_distinct();
    }
    let mut j: usize = 0;
    while j < cats.len()
        invariant
            j <= cats@.len(),
            cats@ == spec_all_categories(),
            index.wf(),
            query_vectors@.len() == spec_all_categories().len(),
            forall|t: int|
                0 <= t < query_vectors@.len() ==> (#[trigger] query_vectors@[t] matches Some(q)
                    ==> spec_vec_wf(q@, index.dim as int)),
            forall|t: int|
                0 <= t < j ==> spec_category_retrieved(
                    *index,
                    session,
                    query_vectors@[t],
                    spec_field_for(results, #[trigger] spec_all_categories()[t]),
                    limit as int,
                ),
            forall|t: int|
                j <= t < spec_all_categories().len() ==> spec_field_for(
                    results,
                    #[trigger] spec_all_categories()[t],
                ).len() == 0,
        decreases cats.len() - j,
    {
        let ghost old_results = results;
        let cat = cats[j];
        match &query_vectors[j] {
            Some(q) => {
                let excerpts = index.search(session, q, limit);
                results.set(cat.name(), excerpts);
                proof {
                    lemma_all_categories_present();
                    assert(spec_category_of_name(spec_category_name(cat)) == Some(cat));
                    lemma_categories_distinct();
                    assert forall|t: int|
                        0 <= t < j + 1 implies spec_category_retrieved(
                        *index,
                        session,
                        query_vectors@[t],
                        spec_field_for(results, #[trigger] spec_all_categories()[t]),
                        limit as int,
                    ) by {
                        if t < j {
                            assert(spec_all_categories()[t] != cat);
                            assert(spec_field_for(results, spec_all_categories()[t])
                                == spec_field_for(old_results, spec_all_categories()[t]));
                        } else {
                            assert(spec_all_categories()[t] == cat);
                        }
                    }
                }
            },
            None => {
                proof {
                    assert(spec_field_for(results, spec_all_categories()[j as int]).len() == 0);
                }
            },
        }
        j = j + 1;
    }
    results
}

/// The ten categories are pairwise distinct.
pub proof fn lemma_categories_distinct()
    ensures
        forall|j: int, k: int|
            0 <= j < k < spec_all_categories().len() ==> spec_all_categories()[j]
                != spec_all_categories()[k],
{
    assert forall|j: int, k: int|
        0 <= j < k < spec_all_categories().len() implies spec_all_categories()[j]
        != spec_all_categories()[k] by {
        let a = spec_all_categories();
        assert(a[0] == SearchCategory::ErrorHandling);
        assert(a[1] == SearchCategory::NamingConventions);
        assert(a[2] == SearchCategory::CodeComments);
        assert(a[3] == SearchCategory::TestingPatterns);
        assert(a[4] == SearchCategory::AsyncPatterns);
        assert(a[5] == SearchCategory::DataValidation);
        assert(a[6] == SearchCategory::Logging);
        assert(a[7] == SearchCategory::Configuration);
        assert(a[8] == SearchCategory::ClassStructure);
        assert(a[9] == SearchCategory::FunctionalPatterns);
    }
}

} // verus!
