//! Batched storage of embedded chunks: requests are planned in fixed-size
//! groups, a failed embedding drops only its own chunk, and the batch as a
//! whole reports how many chunks were embedded and stored.

use vstd::prelude::*;
use crate::chunker::{CodeChunk, spec_chunk_like};
use crate::errors::EmbedError;
use crate::index::{VectorIndex, SessionId, spec_vec_wf, clone_vector};

verus! {

/// How many embedding calls run concurrently in one group.
pub const EMBED_BATCH_SIZE: usize = 5;

/// Milliseconds waited between groups to bound the request rate.
pub const EMBED_BATCH_DELAY_MS: u64 = 100;

/// Positions of the outcomes, from `i` on, that carry a vector.
pub open spec fn spec_kept_idxs(outcomes: Seq<Result<Vec<i64>, EmbedError>>, i: int) -> Seq<int>
    decreases outcomes.len() - i,
{
    if i < 0 || i >= outcomes.len() {
        Seq::empty()
    } else if outcomes[i] is Ok {
        seq![i] + spec_kept_idxs(outcomes, i + 1)
    } else {
        spec_kept_idxs(outcomes, i + 1)
    }
}

/// Split `n` items into consecutive groups of at most `group` items: the
/// spans cover `0..n` in order, and each span is non-empty and bounded.
pub fn plan_batches(n: usize, group: usize) -> (r: Vec<(usize, usize)>)
    requires
        group >= 1,
    ensures
        n == 0 ==> r@.len() == 0,
        n > 0 ==> r@.len() >= 1 && r@[0].0 == 0 && r@[r@.len() - 1].1 == n,
        forall|j: int|
            0 <= j < r@.len() ==> (#[trigger] r@[j]).0 < r@[j].1 <= n && r@[j].1 - r@[j].0 <= group,
        forall|j: int|
            0 <= j && j + 1 < r@.len() ==> (#[trigger] r@[j]).1 - r@[j].0 == group,
        forall|j: int| 0 <= j && j + 1 < r@.len() ==> (#[trigger] r@[j]).1 == r@[j + 1].0,
{
    let mut r: Vec<(usize, usize)> = Vec::new();
    let mut start: usize = 0;
    while start < n
        invariant
            start <= n,
            group >= 1,
            start == 0 ==> r@.len() == 0,
            start > 0 ==> r@.len() >= 1 && r@[0].0 == 0 && r@[r@.len() - 1].1 == start,
            r@.len() >= 1 ==> (r@[r@.len() - 1].1 - r@[r@.len() - 1].0 == group || r@[r@.len()
                - 1].1 == n),
            forall|j: int|
                0 <= j < r@.len() ==> (#[trigger] r@[j]).0 < r@[j].1 <= n && r@[j].1 - r@[j].0
                    <= group,
            forall|j: int|
                0 <= j && j + 1 < r@.len() ==> (#[trigger] r@[j]).1 - r@[j].0 == group,
            forall|j: int| 0 <= j && j + 1 < r@.len() ==> (#[trigger] r@[j]).1 == r@[j + 1].0,
        decreases n - start,
    {
        let end = if n - start < group {
            n
        } else {
            start + group
        };
        r.push((start, end));
        start = end;
    }
    r
}

/// Store the chunks whose embedding calls succeeded, in their original
/// order, under `session`; a failed embedding drops its own chunk only, and
/// the call reports how many chunks were stored rather than failing.
pub fn store_embedded_batch(
    index: &mut VectorIndex,
    session: SessionId,
    username: &str,
    chunks: &Vec<CodeChunk>,
    outcomes: &Vec<Result<Vec<i64>, EmbedError>>,
) -> (stored: usize)
    requires
        old(index).wf(),
        outcomes@.len() == chunks@.len(),
        forall|j: int|
            0 <= j < outcomes@.len() ==> (#[trigger] outcomes@[j] matches Ok(v) ==> spec_vec_wf(
                v@,
                old(index).dim as int,
            )),
    ensures
        final(index).wf(),
        final(index).dim == old(index).dim,
        stored as int == spec_kept_idxs(outcomes@, 0).len(),
        final(index).rows@.len() == old(index).rows@.len() + stored,
        final(index).rows@.subrange(0, old(index).rows@.len() as int) == old(index).rows@,
        forall|t: int|
            0 <= t < spec_kept_idxs(outcomes@, 0).len() ==> {
                let ks = spec_kept_idxs(outcomes@, 0);
                let row = #[trigger] final(index).rows@[old(index).rows@.len() + t];
                &&& row.session == session
                &&& row.username@ == username@
                &&& spec_chunk_like(row.chunk, chunks@[ks[t]])
                &&& outcomes@[ks[t]] matches Ok(v) && row.vector@ == v@
            },
{
    let ghost rows0 = old(index).rows@;
    let ghost ks_all = spec_kept_idxs(outcomes@, 0);
    let mut stored: usize = 0;
    let mut j: usize = 0;
    let ghost mut done: Seq<int> = Seq::empty();
    proof {
        assert(done + spec_kept_idxs(outcomes@, 0) =~= spec_kept_idxs(outcomes@, 0));
    }
    while j < chunks.len()
        invariant
            j <= chunks@.len(),
            outcomes@.len() == chunks@.len(),
            index.wf(),
            index.dim == old(index).dim,
            forall|jj: int|
                0 <= jj < outcomes@.len() ==> (#[trigger] outcomes@[jj] matches Ok(v)
                    ==> spec_vec_wf(v@, old(index).dim as int)),
            ks_all == spec_kept_idxs(outcomes@, 0),
            ks_all == done + spec_kept_idxs(outcomes@, j as int),
            stored == done.len(),
            stored <= j,
            index.rows@.len() == rows0.len() + stored,
            rows0 == old(index).rows@,
            index.rows@.subrange(0, rows0.len() as int) == rows0,
            forall|t: int|
                0 <= t < done.len() ==> {
                    let row = #[trigger] index.rows@[rows0.len() + t];
                    &&& row.session == session
                    &&& row.username@ == username@
                    &&& spec_chunk_like(row.chunk, chunks@[done[t]])
                    &&& outcomes@[done[t]] matches Ok(v) && row.vector@ == v@
                },
            forall|t: int| 0 <= t < done.len() ==> 0 <= #[trigger] done[t] < chunks@.len(),
        decreases chunks.len() - j,
    {
        match &outcomes[j] {
            Ok(v) => {
                let ghost rows_before = index.rows@;
                let vec_copy = clone_vector(v);
                index.store(session, username, chunks[j].duplicate(), vec_copy);
                proof {
                    let old_done = done;
                    done = done.push(j as int);
                    assert(spec_kept_idxs(outcomes@, j as int) == seq![j as int]
                        + spec_kept_idxs(outcomes@, j + 1));
                    assert(old_done + (seq![j as int] + spec_kept_idxs(outcomes@, j + 1)) =~= done
                        + spec_kept_idxs(outcomes@, j + 1));
                    assert(index.rows@.subrange(0, rows0.len() as int) =~= rows_before.subrange(
                        0,
                        rows0.len() as int,
                    ));
                    assert forall|t: int| 0 <= t < done.len() implies {
                        let row = #[trigger] index.rows@[rows0.len() + t];
                        &&& row.session == session
                        &&& row.username@ == username@
                        &&& spec_chunk_like(row.chunk, chunks@[done[t]])
                        &&& outcomes@[done[t]] matches Ok(v2) && row.vector@ == v2@
                    } by {
                        if t < old_done.len() {
                            assert(index.rows@.subrange(0, rows_before.len() as int)
                                =~= rows_before);
                            assert(index.rows@[rows0.len() + t] == rows_before[rows0.len() + t]);
                            assert(done[t] == old_done[t]);
                        } else {
                            assert(done[t] == j as int);
                            assert(index.rows@[rows0.len() + t] == index.rows@.last());
                        }
                    }
                }
                proof {
                    assert(stored < chunks.len());
                }
                stored = stored + 1;
            },
            Err(_) => {
                proof {
                    assert(spec_kept_idxs(outcomes@, j as int) == spec_kept_idxs(
                        outcomes@,
                        j + 1,
                    ));
                }
            },
        }
        j = j + 1;
    }
    proof {
        assert(spec_kept_idxs(outcomes@, chunks@.len() as int) =~= Seq::<int>::empty());
        assert(done + Seq::<int>::empty() =~= done);
    }
    stored
}

} // verus!
