//! The vector index: chunks and their quantized embedding vectors, keyed by
//! an analysis session, with nearest-neighbour search scoped to one session
//! and whole-session cleanup.
//!
//! Vector components are thousandths of unit-vector coordinates, so every
//! component lies in [-1000, 1000]; squared distances then fit comfortably
//! in a `u64` and similarity is reported in thousandths.

use vstd::prelude::*;
use crate::chunker::CodeChunk;
use crate::categories::CodeExcerpt;

verus! {

/// Largest embedding dimension the index accepts.
pub const EMBEDDING_MAX_DIM: usize = 4096;

/// Bound of one vector component (a thousandth of a unit coordinate).
pub const COMPONENT_BOUND: i64 = 1000;

/// The identifier scoping one profiling run's stored data.
#[derive(Clone, Copy, Debug, PartialEq, Eq, Structural)]
pub struct SessionId {
    pub value: u128,
}

/// One persisted chunk with its vector.
pub struct StoredChunk {
    pub session: SessionId,
    pub username: String,
    pub chunk: CodeChunk,
    pub vector: Vec<i64>,
}

/// A well-formed quantized vector of dimension `dim`.
pub open spec fn spec_vec_wf(v: Seq<i64>, dim: int) -> bool {
    &&& v.len() == dim
    &&& forall|i: int| 0 <= i < v.len() ==> -1000 <= #[trigger] v[i] <= 1000
}

/// Squared Euclidean distance between two equal-length vectors.
pub open spec fn spec_dist2(a: Seq<i64>, b: Seq<i64>) -> int
    decreases a.len(),
{
    if a.len() == 0 || b.len() == 0 {
        0
    } else {
        spec_dist2(a.drop_last(), b.drop_last()) + (a.last() - b.last()) * (a.last() - b.last())
    }
}

proof fn lemma_dist2_bounds(a: Seq<i64>, b: Seq<i64>)
    requires
        a.len() == b.len(),
        forall|i: int| 0 <= i < a.len() ==> -1000 <= #[trigger] a[i] <= 1000,
        forall|i: int| 0 <= i < b.len() ==> -1000 <= #[trigger] b[i] <= 1000,
    ensures
        0 <= spec_dist2(a, b) <= a.len() * 4_000_000,
    decreases a.len(),
{
    if a.len() == 0 {
    } else {
        lemma_dist2_bounds(a.drop_last(), b.drop_last());
        let x = a.last();
        let y = b.last();
        assert(0 <= (x - y) * (x - y) <= 4_000_000) by (nonlinear_arith)
            requires
                -1000 <= x <= 1000,
                -1000 <= y <= 1000,
        ;
        assert((a.len() - 1) * 4_000_000 + 4_000_000 == a.len() * 4_000_000) by (nonlinear_arith);
    }
}

/// Similarity, in thousandths, that a squared distance converts to:
/// 1000 stands for identical direction, 0 for the far end of the scale.
pub open spec fn spec_sim_milli(d: int) -> int {
    if d >= 2_000_000 {
        0
    } else {
        1000 - d / 2000
    }
}

proof fn lemma_sim_antitone(d1: int, d2: int)
    requires
        0 <= d1 <= d2,
    ensures
        spec_sim_milli(d1) >= spec_sim_milli(d2),
        0 <= spec_sim_milli(d1) <= 1000,
        0 <= spec_sim_milli(d2) <= 1000,
{
    vstd::arithmetic::div_mod::lemma_div_is_ordered(d1, d2, 2000);
    vstd::arithmetic::div_mod::lemma_div_is_ordered(0, d1, 2000);
    vstd::arithmetic::div_mod::lemma_div_is_ordered(0, d2, 2000);
    if d1 < 2_000_000 {
        vstd::arithmetic::div_mod::lemma_div_is_ordered(d1, 2_000_000, 2000);
    }
    if d2 < 2_000_000 {
        vstd::arithmetic::div_mod::lemma_div_is_ordered(d2, 2_000_000, 2000);
    }
}

/// Squared distance between two well-formed vectors.
fn dist2(a: &Vec<i64>, b: &Vec<i64>) -> (r: u64)
    requires
        a@.len() == b@.len(),
        a@.len() <= EMBEDDING_MAX_DIM,
        forall|i: int| 0 <= i < a@.len() ==> -1000 <= #[trigger] a@[i] <= 1000,
        forall|i: int| 0 <= i < b@.len() ==> -1000 <= #[trigger] b@[i] <= 1000,
    ensures
        r as int == spec_dist2(a@, b@),
{
    let mut acc: u64 = 0;
    let mut i: usize = 0;
    proof {
        assert(a@.subrange(0, 0) =~= Seq::<i64>::empty());
        assert(b@.subrange(0, 0) =~= Seq::<i64>::empty());
    }
    while i < a.len()
        invariant
            i <= a@.len(),
            a@.len() == b@.len(),
            a@.len() <= EMBEDDING_MAX_DIM,
            forall|k: int| 0 <= k < a@.len() ==> -1000 <= #[trigger] a@[k] <= 1000,
            forall|k: int| 0 <= k < b@.len() ==> -1000 <= #[trigger] b@[k] <= 1000,
            acc as int == spec_dist2(a@.subrange(0, i as int), b@.subrange(0, i as int)),
            acc <= (i as u64) * 4_000_000,
        decreases a.len() - i,
    {
        let d = a[i] - b[i];
        proof {
            assert(0 <= d * d <= 4_000_000) by (nonlinear_arith)
                requires
                    -2000 <= d <= 2000,
            ;
            assert((i as u64) * 4_000_000 + 4_000_000 == ((i + 1) as u64) * 4_000_000)
                by (nonlinear_arith)
                requires
                    i < 4096,
            ;
            assert(((i + 1) as u64) * 4_000_000 <= 4096u64 * 4_000_000) by (nonlinear_arith)
                requires
                    i + 1 <= 4096,
            ;
            let ap = a@.subrange(0, i + 1);
            let bp = b@.subrange(0, i + 1);
            assert(ap.drop_last() =~= a@.subrange(0, i as int));
            assert(bp.drop_last() =~= b@.subrange(0, i as int));
            assert(ap.last() == a@[i as int]);
            assert(bp.last() == b@[i as int]);
        }
        let sq = d * d;
        acc = acc + (sq as u64);
        i = i + 1;
    }
    proof {
        assert(a@.subrange(0, a@.len() as int) =~= a@);
        assert(b@.subrange(0, b@.len() as int) =~= b@);
    }
    acc
}

/// Similarity in thousandths for a squared distance.
fn sim_milli(d: u64) -> (r: u32)
    ensures
        r as int == spec_sim_milli(d as int),
        r <= 1000,
{
    if d >= 2_000_000 {
        0
    } else {
        proof {
            vstd::arithmetic::div_mod::lemma_div_is_ordered(0, d as int, 2000);
            vstd::arithmetic::div_mod::lemma_div_is_ordered(d as int, 2_000_000, 2000);
        }
        (1000 - d / 2000) as u32
    }
}

/// How many rows from position `i` on belong to session `s`.
pub open spec fn spec_sess_count(rows: Seq<StoredChunk>, s: SessionId, i: int) -> int
    decreases rows.len() - i,
{
    if i < 0 || i >= rows.len() {
        0
    } else {
        (if rows[i].session == s {
            1int
        } else {
            0int
        }) + spec_sess_count(rows, s, i + 1)
    }
}

proof fn lemma_sess_count_nonneg(rows: Seq<StoredChunk>, s: SessionId, i: int)
    ensures
        0 <= spec_sess_count(rows, s, i) <= if i < 0 {
            rows.len() as int
        } else if i > rows.len() {
            0
        } else {
            rows.len() - i
        },
    decreases rows.len() - i,
{
    if 0 <= i < rows.len() {
        lemma_sess_count_nonneg(rows, s, i + 1);
    } else if i < 0 && rows.len() > 0 {
        lemma_sess_count_nonneg(rows, s, i + 1);
    }
}

/// How many rows from position `i` on belong to session `s` and are not yet
/// marked used.
pub open spec fn spec_cand_count(
    rows: Seq<StoredChunk>,
    used: Seq<bool>,
    s: SessionId,
    i: int,
) -> int
    decreases rows.len() - i,
{
    if i < 0 || i >= rows.len() {
        0
    } else {
        (if rows[i].session == s && !used[i] {
            1int
        } else {
            0int
        }) + spec_cand_count(rows, used, s, i + 1)
    }
}

proof fn lemma_cand_count_zero(rows: Seq<StoredChunk>, used: Seq<bool>, s: SessionId, i: int)
    requires
        0 <= i,
        spec_cand_count(rows, used, s, i) == 0,
    ensures
        forall|t: int| i <= t < rows.len() ==> !(rows[t].session == s && !used[t]),
    decreases rows.len() - i,
{
    if i < rows.len() {
        lemma_cand_count_nonneg(rows, used, s, i + 1);
        lemma_cand_count_zero(rows, used, s, i + 1);
    }
}

proof fn lemma_cand_count_nonneg(rows: Seq<StoredChunk>, used: Seq<bool>, s: SessionId, i: int)
    ensures
        0 <= spec_cand_count(rows, used, s, i),
    decreases rows.len() - i,
{
    if 0 <= i < rows.len() {
        lemma_cand_count_nonneg(rows, used, s, i + 1);
    }
}

proof fn lemma_cand_count_update(
    rows: Seq<StoredChunk>,
    used: Seq<bool>,
    s: SessionId,
    i: int,
    t: int,
)
    requires
        used.len() == rows.len(),
        0 <= t < rows.len(),
        rows[t].session == s,
        !used[t],
    ensures
        spec_cand_count(rows, used.update(t, true), s, i) == if 0 <= i <= t {
            spec_cand_count(rows, used, s, i) - 1
        } else {
            spec_cand_count(rows, used, s, i)
        },
    decreases rows.len() - i,
{
    if 0 <= i < rows.len() {
        lemma_cand_count_update(rows, used, s, i + 1, t);
    }
}

proof fn lemma_cand_count_all_unused(rows: Seq<StoredChunk>, used: Seq<bool>, s: SessionId, i: int)
    requires
        used.len() == rows.len(),
        forall|t: int| 0 <= t < used.len() ==> !used[t],
    ensures
        spec_cand_count(rows, used, s, i) == spec_sess_count(rows, s, i),
    decreases rows.len() - i,
{
    if 0 <= i < rows.len() {
        lemma_cand_count_all_unused(rows, used, s, i + 1);
    }
}

/// An excerpt reports exactly one stored row, scored against query `q`.
pub open spec fn spec_excerpt_of_row(e: CodeExcerpt, row: StoredChunk, q: Seq<i64>) -> bool {
    &&& e.repo_name@ == row.chunk.repo_name@
    &&& e.file_path@ == row.chunk.file_path@
    &&& e.line_start == row.chunk.line_start
    &&& e.line_end == row.chunk.line_end
    &&& match row.chunk.language {
        Some(l) => e.language matches Some(m) && m@ == l@,
        None => e.language is None,
    }
    &&& e.content@ == row.chunk.content@
    &&& e.similarity_milli as int == spec_sim_milli(spec_dist2(q, row.vector@))
}

/// The search outcome `r` reports the rows named by `picked`: pairwise
/// distinct session rows, ordered by ascending distance to the query, and no
/// overlooked session row is nearer than the last reported one.
pub open spec fn spec_search_witness(
    rows: Seq<StoredChunk>,
    s: SessionId,
    q: Seq<i64>,
    r: Seq<CodeExcerpt>,
    picked: Seq<int>,
) -> bool {
    &&& picked.len() == r.len()
    &&& forall|j: int| 0 <= j < picked.len() ==> 0 <= #[trigger] picked[j] < rows.len()
    &&& forall|j: int| 0 <= j < picked.len() ==> rows[#[trigger] picked[j]].session == s
    &&& forall|j: int, k: int| 0 <= j < k < picked.len() ==> picked[j] != picked[k]
    &&& forall|j: int|
        0 <= j < picked.len() ==> spec_excerpt_of_row(#[trigger] r[j], rows[picked[j]], q)
    &&& forall|j: int, k: int|
        0 <= j < k < picked.len() ==> spec_dist2(q, rows[#[trigger] picked[j]].vector@)
            <= spec_dist2(q, rows[#[trigger] picked[k]].vector@)
    &&& forall|t: int|
        0 <= t < rows.len() && rows[t].session == s && !picked.contains(t) && picked.len() > 0
            ==> spec_dist2(q, rows[t].vector@) >= spec_dist2(
            q,
            rows[picked[picked.len() - 1]].vector@,
        )
}

/// The in-memory vector index.  All stored vectors share the index's
/// dimension; sessions partition the rows.
pub struct VectorIndex {
    pub dim: usize,
    pub rows: Vec<StoredChunk>,
}

impl VectorIndex {
    /// Every stored vector is well formed for the index's dimension.
    pub open spec fn wf(&self) -> bool {
        &&& 1 <= self.dim <= EMBEDDING_MAX_DIM
        &&& forall|i: int|
            0 <= i < self.rows@.len() ==> spec_vec_wf(
                (#[trigger] self.rows@[i]).vector@,
                self.dim as int,
            )
    }

    /// An empty index for vectors of dimension `dim`.
    pub fn new(dim: usize) -> (r: VectorIndex)
        requires
            1 <= dim <= EMBEDDING_MAX_DIM,
        ensures
            r.wf(),
            r.dim == dim,
            r.rows@.len() == 0,
    {
        VectorIndex { dim, rows: Vec::new() }
    }

    /// Number of rows stored for session `s`.
    pub fn session_count(&self, session: SessionId) -> (r: usize)
        ensures
            r as int == spec_sess_count(self.rows@, session, 0),
    {
        let mut cnt: usize = 0;
        let mut i: usize = self.rows.len();
        while i > 0
            invariant
                i <= self.rows@.len(),
                cnt as int == spec_sess_count(self.rows@, session, i as int),
                cnt <= self.rows@.len() - i,
            decreases i,
        {
            i = i - 1;
            if self.rows[i].session == session {
                proof {
                    assert(cnt < self.rows.len());
                }
                cnt = cnt + 1;
            }
        }
        cnt
    }

    /// Persist one chunk and its vector under `session`.
    pub fn store(&mut self, session: SessionId, username: &str, chunk: CodeChunk, vector: Vec<i64>)
        requires
            old(self).wf(),
            spec_vec_wf(vector@, old(self).dim as int),
        ensures
            final(self).wf(),
            final(self).dim == old(self).dim,
            final(self).rows@.len() == old(self).rows@.len() + 1,
            final(self).rows@.subrange(0, old(self).rows@.len() as int) == old(self).rows@,
            final(self).rows@.last().session == session,
            final(self).rows@.last().username@ == username@,
            final(self).rows@.last().chunk == chunk,
            final(self).rows@.last().vector == vector,
    {
        let ghost before = self.rows@;
        self.rows.push(
            StoredChunk { session, username: username.to_owned(), chunk, vector },
        );
        proof {
            assert(self.rows@.subrange(0, before.len() as int) =~= before);
        }
    }

    /// The `limit` nearest chunks of session `session`, ordered by ascending
    /// vector distance and scored with a similarity in thousandths.  A
    /// session with no rows yields an empty result, not an error.
    pub fn search(&self, session: SessionId, query: &Vec<i64>, limit: usize) -> (r: Vec<
        CodeExcerpt,
    >)
        requires
            self.wf(),
            spec_vec_wf(query@, self.dim as int),
        ensures
            r@.len() == crate::selector::min_int(
                limit as int,
                spec_sess_count(self.rows@, session, 0),
            ),
            exists|picked: Seq<int>|
                spec_search_witness(self.rows@, session, query@, r@, picked),
            forall|j: int, k: int|
                0 <= j < k < r@.len() ==> (#[trigger] r@[j]).similarity_milli
                    >= (#[trigger] r@[k]).similarity_milli,
    {
        let ghost rows = self.rows@;
        let mut used: Vec<bool> = Vec::new();
        let mut i: usize = 0;
        while i < self.rows.len()
            invariant
                i <= self.rows@.len(),
                used@.len() == i,
                forall|t: int| 0 <= t < i ==> !used@[t],
            decreases self.rows.len() - i,
        {
            used.push(false);
            i = i + 1;
        }
        let mut remaining: usize = self.session_count(session);
        proof {
            lemma_cand_count_all_unused(rows, used@, session, 0);
        }
        let mut out: Vec<CodeExcerpt> = Vec::new();
        let ghost mut picked: Seq<int> = Seq::empty();
        while out.len() < limit && remaining > 0
            invariant
                self.wf(),
                spec_vec_wf(query@, self.dim as int),
                rows == self.rows@,
                used@.len() == rows.len(),
                out@.len() == picked.len(),
                out@.len() <= limit,
                remaining as int == spec_cand_count(rows, used@, session, 0),
                picked.len() + remaining == spec_sess_count(rows, session, 0),
                forall|t: int| 0 <= t < rows.len() && #[trigger] used@[t] ==> rows[t].session == session,
                forall|t: int| 0 <= t < rows.len() ==> (#[trigger] used@[t] <==> picked.contains(t)),
                forall|j: int| 0 <= j < picked.len() ==> 0 <= #[trigger] picked[j] < rows.len(),
                forall|j: int| 0 <= j < picked.len() ==> rows[#[trigger] picked[j]].session == session,
                forall|j: int, k: int| 0 <= j < k < picked.len() ==> picked[j] != picked[k],
                forall|j: int|
                    0 <= j < picked.len() ==> spec_excerpt_of_row(
                        #[trigger] out@[j],
                        rows[picked[j]],
                        query@,
                    ),
                forall|j: int, k: int|
                    0 <= j < k < picked.len() ==> spec_dist2(query@, rows[#[trigger] picked[j]].vector@)
                        <= spec_dist2(query@, rows[#[trigger] picked[k]].vector@),
                forall|t: int|
                    0 <= t < rows.len() && rows[t].session == session && !used@[t] && picked.len()
                        > 0 ==> spec_dist2(query@, rows[t].vector@) >= spec_dist2(
                        query@,
                        rows[picked[picked.len() - 1]].vector@,
                    ),
            decreases remaining,
        {
            // Scan for the nearest unused row of this session.
            let mut best: usize = self.rows.len();
            let mut best_d: u64 = 0;
            let mut t: usize = 0;
            while t < self.rows.len()
                invariant
                    t <= rows.len(),
                    rows == self.rows@,
                    used@.len() == rows.len(),
                    self.wf(),
                    spec_vec_wf(query@, self.dim as int),
                    best == rows.len() || best < t,
                    best == rows.len() ==> forall|u: int|
                        0 <= u < t ==> !(rows[u].session == session && !used@[u]),
                    best < rows.len() ==> rows[best as int].session == session && !used@[
                        best as int
                    ] && best_d as int == spec_dist2(query@, rows[best as int].vector@),
                    best < rows.len() ==> forall|u: int|
                        0 <= u < t && rows[u].session == session && !used@[u] ==> spec_dist2(
                            query@,
                            rows[u].vector@,
                        ) >= best_d as int,
                decreases self.rows.len() - t,
            {
                if self.rows[t].session == session && !used[t] {
                    let d = dist2(query, &self.rows[t].vector);
                    if best == self.rows.len() || d < best_d {
                        best = t;
                        best_d = d;
                    }
                }
                t = t + 1;
            }
            if best == self.rows.len() {
                // Unreachable: `remaining > 0` means an unused session row
                // exists, and the scan then finds one.
                proof {
                    lemma_cand_count_zero_witness(rows, used@, session);
                    assert(false);
                }
                remaining = 0;
                continue ;
            }
            let row = &self.rows[best];
            let sim = sim_milli(best_d);
            let excerpt = CodeExcerpt {
                repo_name: row.chunk.repo_name.clone(),
                file_path: row.chunk.file_path.clone(),
                line_start: row.chunk.line_start,
                line_end: row.chunk.line_end,
                language: match &row.chunk.language {
                    Some(l) => Some(l.clone()),
                    None => None,
                },
                content: row.chunk.content.clone(),
                similarity_milli: sim,
            };
            let ghost old_picked = picked;
            let ghost old_used = used@;
            out.push(excerpt);
            used[best] = true;
            proof {
                picked = picked.push(best as int);
                lemma_cand_count_update(rows, old_used, session, 0, best as int);
                assert(forall|j: int|
                    0 <= j < old_picked.len() ==> #[trigger] picked[j] == old_picked[j]);
                assert(picked[picked.len() - 1] == best as int);
                assert forall|tt: int|
                    0 <= tt < rows.len() implies (#[trigger] used@[tt] <==> picked.contains(tt)) by {
                    if tt == best as int {
                        assert(picked[picked.len() - 1] == tt);
                        assert(picked.contains(tt));
                    } else {
                        if old_picked.contains(tt) {
                            let w = choose|w: int| 0 <= w < old_picked.len() && old_picked[w] == tt;
                            assert(picked[w] == tt);
                            assert(picked.contains(tt));
                        }
                        if picked.contains(tt) {
                            let w = choose|w: int| 0 <= w < picked.len() && picked[w] == tt;
                            assert(w < old_picked.len());
                            assert(old_picked[w] == tt);
                            assert(old_picked.contains(tt));
                        }
                    }
                }
                if old_picked.len() > 0 {
                    assert(rows[best as int].session == session && !old_used[best as int]);
                    assert(spec_dist2(query@, rows[best as int].vector@) >= spec_dist2(
                        query@,
                        rows[old_picked[old_picked.len() - 1]].vector@,
                    ));
                }
            }
            remaining = remaining - 1;
        }
        proof {
            lemma_sess_count_nonneg(rows, session, 0);
            if remaining == 0 {
                assert(picked.len() == spec_sess_count(rows, session, 0));
            }
            assert(picked.len() == out@.len());
            assert(forall|j: int| 0 <= j < picked.len() ==> 0 <= #[trigger] picked[j] < rows.len());
            assert(forall|j: int|
                0 <= j < picked.len() ==> rows[#[trigger] picked[j]].session == session);
            assert(forall|j: int, k: int| 0 <= j < k < picked.len() ==> picked[j] != picked[k]);
            assert(forall|j: int|
                0 <= j < picked.len() ==> spec_excerpt_of_row(
                    #[trigger] out@[j],
                    rows[picked[j]],
                    query@,
                ));
            assert(forall|j: int, k: int|
                0 <= j < k < picked.len() ==> spec_dist2(query@, rows[#[trigger] picked[j]].vector@)
                    <= spec_dist2(query@, rows[#[trigger] picked[k]].vector@));
            assert forall|t: int|
                0 <= t < rows.len() && rows[t].session == session && !picked.contains(t)
                    && picked.len() > 0 implies spec_dist2(query@, rows[t].vector@) >= spec_dist2(
                query@,
                rows[picked[picked.len() - 1]].vector@,
            ) by {
                assert(!used@[t]);
            }
            assert(spec_search_witness(rows, session, query@, out@, picked));
            assert forall|j: int, k: int|
                0 <= j < k < out@.len() implies (#[trigger] out@[j]).similarity_milli
                >= (#[trigger] out@[k]).similarity_milli by {
                let dj = spec_dist2(query@, rows[picked[j]].vector@);
                let dk = spec_dist2(query@, rows[picked[k]].vector@);
                lemma_dist2_bounds(query@, rows[picked[j]].vector@);
                lemma_dist2_bounds(query@, rows[picked[k]].vector@);
                lemma_sim_antitone(dj, dk);
            }
        }
        out
    }

    /// Delete every row of `session` and report how many were removed;
    /// rows of every other session stay exactly as they were, in order.
    pub fn cleanup(&mut self, session: SessionId) -> (removed: u64)
        requires
            old(self).wf(),
        ensures
            final(self).wf(),
            final(self).dim == old(self).dim,
            removed as int == spec_sess_count(old(self).rows@, session, 0),
            final(self).rows@.len() == spec_without_session(old(self).rows@, session, 0).len(),
            forall|i: int|
                0 <= i < final(self).rows@.len() ==> spec_row_like(
                    #[trigger] final(self).rows@[i],
                    spec_without_session(old(self).rows@, session, 0)[i],
                ),
            forall|i: int|
                0 <= i < final(self).rows@.len() ==> (#[trigger] final(self).rows@[i]).session
                    != session,
    {
        let ghost rows0 = self.rows@;
        let mut kept: Vec<StoredChunk> = Vec::new();
        let ghost mut kept_spec: Seq<StoredChunk> = Seq::empty();
        let mut removed: u64 = 0;
        let mut j: usize = 0;
        proof {
            assert(kept_spec + spec_without_session(rows0, session, 0) =~= spec_without_session(
                rows0,
                session,
                0,
            ));
        }
        while j < self.rows.len()
            invariant
                j <= rows0.len(),
                rows0 == self.rows@,
                old(self).wf(),
                self.wf(),
                removed as int == spec_sess_count(rows0, session, 0) - spec_sess_count(
                    rows0,
                    session,
                    j as int,
                ),
                removed <= j,
                spec_without_session(rows0, session, 0) == kept_spec + spec_without_session(
                    rows0,
                    session,
                    j as int,
                ),
                kept@.len() == kept_spec.len(),
                forall|t: int|
                    0 <= t < kept@.len() ==> spec_row_like(#[trigger] kept@[t], kept_spec[t]),
                forall|t: int|
                    0 <= t < kept@.len() ==> spec_vec_wf(
                        (#[trigger] kept@[t]).vector@,
                        self.dim as int,
                    ),
                forall|t: int| 0 <= t < kept@.len() ==> (#[trigger] kept@[t]).session != session,
            decreases self.rows.len() - j,
        {
            let row = &self.rows[j];
            proof {
                lemma_sess_count_nonneg(rows0, session, j + 1);
                lemma_sess_count_nonneg(rows0, session, j as int);
            }
            if row.session == session {
                removed = removed + 1;
            } else {
                let ghost old_spec = kept_spec;
                kept.push(duplicate_row(row));
                proof {
                    kept_spec = kept_spec.push(rows0[j as int]);
                    assert(old_spec.push(rows0[j as int]) + spec_without_session(
                        rows0,
                        session,
                        j + 1,
                    ) =~= old_spec + (seq![rows0[j as int]] + spec_without_session(
                        rows0,
                        session,
                        j + 1,
                    )));
                }
            }
            j = j + 1;
        }
        proof {
            lemma_sess_count_nonneg(rows0, session, rows0.len() as int);
            assert(kept_spec + Seq::<StoredChunk>::empty() =~= kept_spec);
        }
        self.rows = kept;
        removed
    }
}

/// The rows from position `i` on that do not belong to session `s`, in
/// their original order.
pub open spec fn spec_without_session(rows: Seq<StoredChunk>, s: SessionId, i: int) -> Seq<
    StoredChunk,
>
    decreases rows.len() - i,
{
    if i < 0 || i >= rows.len() {
        Seq::empty()
    } else if rows[i].session == s {
        spec_without_session(rows, s, i + 1)
    } else {
        seq![rows[i]] + spec_without_session(rows, s, i + 1)
    }
}

proof fn lemma_cand_count_zero_witness(rows: Seq<StoredChunk>, used: Seq<bool>, s: SessionId)
    requires
        forall|u: int| 0 <= u < rows.len() ==> !(rows[u].session == s && !used[u]),
    ensures
        spec_cand_count(rows, used, s, 0) == 0,
{
    lemma_cand_count_zero_from(rows, used, s, 0);
}

proof fn lemma_cand_count_zero_from(rows: Seq<StoredChunk>, used: Seq<bool>, s: SessionId, i: int)
    requires
        forall|u: int| 0 <= u < rows.len() ==> !(rows[u].session == s && !used[u]),
    ensures
        spec_cand_count(rows, used, s, i) == 0,
    decreases rows.len() - i,
{
    if 0 <= i < rows.len() {
        lemma_cand_count_zero_from(rows, used, s, i + 1);
    }
}

/// Two stored rows carry the same data.
pub open spec fn spec_row_like(a: StoredChunk, b: StoredChunk) -> bool {
    &&& a.session == b.session
    &&& a.username@ == b.username@
    &&& crate::chunker::spec_chunk_like(a.chunk, b.chunk)
    &&& a.vector@ == b.vector@
}

/// An owned copy of a stored row.
fn duplicate_row(row: &StoredChunk) -> (r: StoredChunk)
    ensures
        spec_row_like(r, *row),
{
    StoredChunk {
        session: row.session,
        username: row.username.clone(),
        chunk: row.chunk.duplicate(),
        vector: clone_vector(&row.vector),
    }
}

/// Copy a vector of components.
pub fn clone_vector(v: &Vec<i64>) -> (r: Vec<i64>)
    ensures
        r@ == v@,
{
    let mut r: Vec<i64> = Vec::new();
    let mut i: usize = 0;
    while i < v.len()
        invariant
            i <= v@.len(),
            r@ == v@.subrange(0, i as int),
        decreases v.len() - i,
    {
        r.push(v[i]);
        proof {
            assert(v@.subrange(0, i + 1) =~= v@.subrange(0, i as int).push(v@[i as int]));
        }
        i = i + 1;
    }
    proof {
        assert(v@.subrange(0, v@.len() as int) =~= v@);
    }
    r
}

} // verus!
