//! Matching Orchestrator: drives the Best-Match Selector over every input
//! frame and collects one outcome per input frame.

use vstd::prelude::*;
use crate::frame::Frame;
use crate::score::Policy;
use crate::select::{
    SelectError, Selection, exists_compatible, mismatch_reports, select_best, selection_ok,
};

verus! {

/// Why the whole run produced nothing.
#[derive(Clone, Copy, Debug, PartialEq, Eq, Structural)]
pub enum MatchError {
    /// The pool is empty: no input frame has a meaningful match.
    EmptyPool,
}

/// What a correct outcome for one input frame looks like: a correct
/// selection when some pool frame is compatible, and the full set of
/// mismatch reports when none is. The orchestrator never hands an
/// empty-pool error to a single frame; that aborts the whole run instead.
pub open spec fn outcome_ok(
    policy: Policy,
    source: Frame,
    pool: Seq<Frame>,
    oc: Result<Selection, SelectError>,
) -> bool {
    match oc {
        Ok(sel) => exists_compatible(source, pool) && selection_ok(policy, source, pool, sel),
        Err(SelectError::NoCompatibleFrame { mismatches }) => !exists_compatible(source, pool)
            && mismatches@ == mismatch_reports(source, pool),
        Err(SelectError::EmptyPool) => false,
    }
}

/// Matches every input frame against the pool: one outcome per input frame,
/// in input order. An empty pool aborts the whole run; a frame that no pool
/// frame is compatible with gets a per-frame report and does not disturb
/// its siblings.
pub fn match_all(policy: Policy, inputs: &Vec<Frame>, pool: &Vec<Frame>) -> (r: Result<
    Vec<Result<Selection, SelectError>>,
    MatchError,
>)
    requires
        forall|i: int| 0 <= i < inputs@.len() ==> inputs@[i].wf(),
        forall|j: int| 0 <= j < pool@.len() ==> pool@[j].wf(),
    ensures
        pool@.len() == 0 <==> r == Err::<Vec<Result<Selection, SelectError>>, MatchError>(
            MatchError::EmptyPool,
        ),
        r matches Ok(v) ==> v@.len() == inputs@.len() && forall|i: int|
            0 <= i < inputs@.len() ==> outcome_ok(policy, inputs@[i], pool@, v@[i]),
{
    if pool.len() == 0 {
        return Err(MatchError::EmptyPool);
    }
    let mut outcomes: Vec<Result<Selection, SelectError>> = Vec::new();
    let mut i: usize = 0;
    while i < inputs.len()
        invariant
            forall|k: int| 0 <= k < inputs@.len() ==> inputs@[k].wf(),
            forall|j: int| 0 <= j < pool@.len() ==> pool@[j].wf(),
            pool@.len() > 0,
            i <= inputs@.len(),
            outcomes@.len() == i,
            forall|k: int| 0 <= k < i ==> outcome_ok(policy, inputs@[k], pool@, outcomes@[k]),
        decreases inputs@.len() - i,
    {
        let oc = select_best(policy, &inputs[i], pool);
        outcomes.push(oc);
        i += 1;
    }
    Ok(outcomes)
}

/// Whether two outcomes for one input frame carry the same information:
/// the same pairing and score, or the same reports.
pub open spec fn same_outcome(
    oc1: Result<Selection, SelectError>,
    oc2: Result<Selection, SelectError>,
) -> bool {
    match (oc1, oc2) {
        (Ok(s1), Ok(s2)) => s1.result == s2.result && s1.score == s2.score && s1.mismatches@
            == s2.mismatches@,
        (
            Err(SelectError::NoCompatibleFrame { mismatches: m1 }),
            Err(SelectError::NoCompatibleFrame { mismatches: m2 }),
        ) => m1@ == m2@,
        (Err(SelectError::EmptyPool), Err(SelectError::EmptyPool)) => true,
        _ => false,
    }
}

/// Running the whole pipeline twice over the same input and pool sets pairs
/// every input frame with the same pool identity and the same reports: the
/// result is a function of the frames alone, so it cannot depend on worker
/// count or completion order.
pub proof fn lemma_match_all_deterministic(
    policy: Policy,
    inputs: Seq<Frame>,
    pool: Seq<Frame>,
    v1: Seq<Result<Selection, SelectError>>,
    v2: Seq<Result<Selection, SelectError>>,
)
    requires
        v1.len() == inputs.len(),
        v2.len() == inputs.len(),
        forall|i: int| 0 <= i < inputs.len() ==> outcome_ok(policy, inputs[i], pool, v1[i]),
        forall|i: int| 0 <= i < inputs.len() ==> outcome_ok(policy, inputs[i], pool, v2[i]),
    ensures
        forall|i: int| 0 <= i < inputs.len() ==> same_outcome(v1[i], v2[i]),
{
    assert forall|i: int| 0 <= i < inputs.len() implies same_outcome(v1[i], v2[i]) by {
        assert(outcome_ok(policy, inputs[i], pool, v1[i]));
        assert(outcome_ok(policy, inputs[i], pool, v2[i]));
    }
}

} // verus!
