//! Best-Match Selector: scores one source frame against every pool frame
//! and picks the best-scoring compatible one, with a stable tie-break.

use vstd::prelude::*;
use crate::frame::{Frame, Identity};
use crate::score::{
    DimensionMismatch, Policy, SimilarityScore, compatible, rms_score_raw, score_key, score_of,
    spec_score_key,
};

verus! {

/// The ranking key of pool frame `i` against `source` under `policy`.
pub open spec fn key_at(policy: Policy, source: Frame, pool: Seq<Frame>, i: int) -> u64 {
    spec_score_key(policy, score_of(source, pool[i]))
}

/// The index of the best-scoring compatible frame among the first `n` pool
/// frames, or -1 when none of them is compatible. On equal keys the earlier
/// frame wins, so the choice is stable for a given pool order.
pub open spec fn best_index_upto(policy: Policy, source: Frame, pool: Seq<Frame>, n: int) -> int
    decreases n,
{
    if n <= 0 {
        -1
    } else {
        let prev = best_index_upto(policy, source, pool, n - 1);
        if !compatible(source, pool[n - 1]) {
            prev
        } else if prev == -1 {
            n - 1
        } else if key_at(policy, source, pool, n - 1) > key_at(policy, source, pool, prev) {
            n - 1
        } else {
            prev
        }
    }
}

/// The index of the best-scoring compatible pool frame, or -1 when no pool
/// frame is compatible with the source.
pub open spec fn best_index(policy: Policy, source: Frame, pool: Seq<Frame>) -> int {
    best_index_upto(policy, source, pool, pool.len() as int)
}

/// Whether some pool frame has the source's dimensions.
pub open spec fn exists_compatible(source: Frame, pool: Seq<Frame>) -> bool {
    exists|j: int| 0 <= j < pool.len() && compatible(source, pool[j])
}

/// The mismatch reports for the incompatible frames among the first `n`
/// pool frames, in pool order, each naming both identities.
pub open spec fn mismatches_upto(source: Frame, pool: Seq<Frame>, n: int) -> Seq<
    DimensionMismatch,
>
    decreases n,
{
    if n <= 0 {
        Seq::empty()
    } else {
        let prefix = mismatches_upto(source, pool, n - 1);
        if compatible(source, pool[n - 1]) {
            prefix
        } else {
            prefix.push(
                DimensionMismatch { left: source.identity, right: pool[n - 1].identity },
            )
        }
    }
}

/// One mismatch report per incompatible pool frame, in pool order.
pub open spec fn mismatch_reports(source: Frame, pool: Seq<Frame>) -> Seq<DimensionMismatch> {
    mismatches_upto(source, pool, pool.len() as int)
}

/// A completed match: which source frame is paired with which pool frame.
#[derive(Debug, PartialEq, Eq)]
pub struct MatchResult {
    pub source: Identity,
    pub chosen: Identity,
}

impl Clone for MatchResult {
    fn clone(&self) -> (r: Self)
        ensures
            r == *self,
    {
        MatchResult { source: self.source.clone(), chosen: self.chosen.clone() }
    }
}

/// What the selector hands back for one source frame: the match, the score
/// the chosen frame earned, and a report for every pool frame that could
/// not be compared.
#[derive(Debug)]
pub struct Selection {
    pub result: MatchResult,
    pub score: SimilarityScore,
    pub mismatches: Vec<DimensionMismatch>,
}

/// Why the selector produced no match.
#[derive(Debug)]
pub enum SelectError {
    /// The pool holds no frame at all.
    EmptyPool,
    /// The pool holds frames, but none has the source's dimensions; one
    /// report per pool frame.
    NoCompatibleFrame { mismatches: Vec<DimensionMismatch> },
}

/// What a correct selection for `source` against `pool` looks like: the
/// chosen identity is the one at the best index, the reported score is that
/// frame's, and every incompatible pool frame is reported.
pub open spec fn selection_ok(
    policy: Policy,
    source: Frame,
    pool: Seq<Frame>,
    sel: Selection,
) -> bool {
    let b = best_index(policy, source, pool);
    &&& 0 <= b < pool.len()
    &&& sel.result.source == source.identity
    &&& sel.result.chosen == pool[b].identity
    &&& sel.score.bits == score_of(source, pool[b])
    &&& sel.mismatches@ == mismatch_reports(source, pool)
}

/// The best index is -1 exactly when no frame among the first `n` is
/// compatible; otherwise it lies among the first `n` and names a compatible
/// frame.
pub proof fn lemma_best_index_range(policy: Policy, source: Frame, pool: Seq<Frame>, n: int)
    requires
        0 <= n <= pool.len(),
    ensures
        best_index_upto(policy, source, pool, n) == -1 ==> forall|j: int|
            0 <= j < n ==> !compatible(source, pool[j]),
        best_index_upto(policy, source, pool, n) != -1 ==> {
            let b = best_index_upto(policy, source, pool, n);
            0 <= b < n && compatible(source, pool[b])
        },
    decreases n,
{
    if n > 0 {
        lemma_best_index_range(policy, source, pool, n - 1);
    }
}

/// The frame at the best index scores at least as well as every compatible
/// frame, and strictly better than every earlier compatible frame: it is
/// the first frame that attains the extremal key.
pub proof fn lemma_best_index_maximal(policy: Policy, source: Frame, pool: Seq<Frame>, n: int)
    requires
        0 <= n <= pool.len(),
        best_index_upto(policy, source, pool, n) != -1,
    ensures
        forall|j: int|
            0 <= j < n && compatible(source, pool[j]) ==> key_at(policy, source, pool, j)
                <= key_at(policy, source, pool, best_index_upto(policy, source, pool, n)),
        forall|j: int|
            0 <= j < best_index_upto(policy, source, pool, n) && compatible(source, pool[j])
                ==> key_at(policy, source, pool, j) < key_at(
                policy,
                source,
                pool,
                best_index_upto(policy, source, pool, n),
            ),
    decreases n,
{
    if n > 0 {
        if best_index_upto(policy, source, pool, n - 1) != -1 {
            lemma_best_index_maximal(policy, source, pool, n - 1);
        } else {
            lemma_best_index_range(policy, source, pool, n - 1);
        }
    }
}

/// The tie-break rule pins the choice completely: any compatible index
/// whose key no compatible frame exceeds, and no earlier compatible frame
/// attains, is the best index.
pub proof fn lemma_best_index_unique(policy: Policy, source: Frame, pool: Seq<Frame>, b: int)
    requires
        0 <= b < pool.len(),
        compatible(source, pool[b]),
        forall|j: int|
            0 <= j < pool.len() && compatible(source, pool[j]) ==> key_at(policy, source, pool, j)
                <= key_at(policy, source, pool, b),
        forall|j: int|
            0 <= j < b && compatible(source, pool[j]) ==> key_at(policy, source, pool, j) < key_at(
                policy,
                source,
                pool,
                b,
            ),
    ensures
        best_index(policy, source, pool) == b,
{
    let n = pool.len() as int;
    lemma_best_index_range(policy, source, pool, n);
    let bi = best_index(policy, source, pool);
    assert(bi != -1);
    lemma_best_index_maximal(policy, source, pool, n);
    assert(key_at(policy, source, pool, bi) == key_at(policy, source, pool, b));
}

/// Scores `source` against every pool frame and returns the identity of the
/// best-scoring compatible one, together with one report per incompatible
/// pool frame. An empty pool is an error; so is a pool with no compatible
/// frame.
pub fn select_best(policy: Policy, source: &Frame, pool: &Vec<Frame>) -> (r: Result<
    Selection,
    SelectError,
>)
    requires
        source.wf(),
        forall|j: int| 0 <= j < pool@.len() ==> pool@[j].wf(),
    ensures
        pool@.len() == 0 <==> r matches Err(SelectError::EmptyPool),
        r is Ok <==> exists_compatible(*source, pool@),
        r matches Ok(sel) ==> selection_ok(policy, *source, pool@, sel),
        r matches Err(SelectError::NoCompatibleFrame { mismatches }) ==> pool@.len() > 0
            && !exists_compatible(*source, pool@) && mismatches@ == mismatch_reports(
            *source,
            pool@,
        ),
{
    if pool.len() == 0 {
        return Err(SelectError::EmptyPool);
    }
    let mut best: Option<usize> = None;
    let mut best_key: u64 = 0;
    let mut best_bits: u64 = 0;
    let mut reports: Vec<DimensionMismatch> = Vec::new();
    let mut i: usize = 0;
    while i < pool.len()
        invariant
            source.wf(),
            forall|j: int| 0 <= j < pool@.len() ==> pool@[j].wf(),
            i <= pool@.len(),
            reports@ == mismatches_upto(*source, pool@, i as int),
            match best {
                Some(b) => b < i && best_index_upto(policy, *source, pool@, i as int) == b as int
                    && compatible(*source, pool@[b as int]) && best_bits == score_of(
                    *source,
                    pool@[b as int],
                ) && best_key == spec_score_key(policy, best_bits),
                None => best_index_upto(policy, *source, pool@, i as int) == -1,
            },
        decreases pool@.len() - i,
    {
        let p = &pool[i];
        if source.width == p.width && source.height == p.height {
            let bits = rms_score_raw(source, p);
            let key = score_key(policy, bits);
            match best {
                None => {
                    best = Some(i);
                    best_key = key;
                    best_bits = bits;
                },
                Some(_) => {
                    if key > best_key {
                        best = Some(i);
                        best_key = key;
                        best_bits = bits;
                    }
                },
            }
        } else {
            reports.push(
                DimensionMismatch { left: source.identity.clone(), right: p.identity.clone() },
            );
        }
        i += 1;
    }
    proof {
        lemma_best_index_range(policy, *source, pool@, pool@.len() as int);
    }
    match best {
        Some(b) => Ok(
            Selection {
                result: MatchResult {
                    source: source.identity.clone(),
                    chosen: pool[b].identity.clone(),
                },
                score: SimilarityScore { bits: best_bits },
                mismatches: reports,
            },
        ),
        None => Err(SelectError::NoCompatibleFrame { mismatches: reports }),
    }
}

/// A non-empty pool with a compatible frame always yields an identity that
/// is present in the pool.
pub proof fn lemma_selection_chosen_in_pool(
    policy: Policy,
    source: Frame,
    pool: Seq<Frame>,
    sel: Selection,
)
    requires
        selection_ok(policy, source, pool, sel),
    ensures
        exists|j: int| 0 <= j < pool.len() && pool[j].identity == sel.result.chosen,
{
    let b = best_index(policy, source, pool);
    assert(0 <= b < pool.len() && pool[b].identity == sel.result.chosen);
}

/// Two correct selections for the same source, pool and policy agree on
/// the pairing, the score and the mismatch reports: the selector's outcome
/// is a function of its inputs alone.
pub proof fn lemma_selection_deterministic(
    policy: Policy,
    source: Frame,
    pool: Seq<Frame>,
    s1: Selection,
    s2: Selection,
)
    requires
        selection_ok(policy, source, pool, s1),
        selection_ok(policy, source, pool, s2),
    ensures
        s1.result == s2.result,
        s1.score == s2.score,
        s1.mismatches@ == s2.mismatches@,
{
}

} // verus!
