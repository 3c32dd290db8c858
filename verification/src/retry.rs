//! Deleting an Instance with retries: the decision after each attempt.

use vstd::prelude::*;

verus! {

/// How many times an Instance update or deletion is attempted.
pub const MAX_INSTANCE_UPDATE_TRIES: u32 = 5;

/// The status code of a Kubernetes API error for an object that is not there.
pub const ERROR_NOT_FOUND: u16 = 404;

/// The status code of a Kubernetes API error for a conflicting update.
pub const ERROR_CONFLICT: u16 = 409;

/// What one call that deletes an Instance answered.
#[derive(Clone, Copy, Debug, PartialEq, Eq, Structural)]
pub enum DeleteOutcome {
    Deleted,
    /// The call failed; `code` is the status of the API error response, when
    /// the error is one.
    Failed { code: Option<u16> },
}

/// What to do after an attempt.
#[derive(Clone, Copy, Debug, PartialEq, Eq, Structural)]
pub enum DeleteStep {
    /// The Instance is gone: succeed.
    Done,
    /// Wait a random delay, then try again.
    RetryAfterDelay,
    /// The last attempt failed: fail with its error.
    GiveUp,
}

/// An outcome after which the Instance is known to be gone: it was deleted,
/// or it was not found (already deleted by another node).
pub open spec fn settles(o: DeleteOutcome) -> bool {
    match o {
        DeleteOutcome::Deleted => true,
        DeleteOutcome::Failed { code } => code == Some(ERROR_NOT_FOUND),
    }
}

pub open spec fn spec_try_delete_step(attempt: nat, o: DeleteOutcome) -> DeleteStep {
    if settles(o) {
        DeleteStep::Done
    } else if attempt + 1 >= MAX_INSTANCE_UPDATE_TRIES {
        DeleteStep::GiveUp
    } else {
        DeleteStep::RetryAfterDelay
    }
}

/// Decides what follows attempt number `attempt` (counted from 0).
pub fn try_delete_step(attempt: u32, outcome: DeleteOutcome) -> (s: DeleteStep)
    requires
        attempt < MAX_INSTANCE_UPDATE_TRIES,
    ensures
        s == spec_try_delete_step(attempt as nat, outcome),
{
    match outcome {
        DeleteOutcome::Deleted => DeleteStep::Done,
        DeleteOutcome::Failed { code } => {
            if code == Some(ERROR_NOT_FOUND) {
                DeleteStep::Done
            } else if attempt == MAX_INSTANCE_UPDATE_TRIES - 1 {
                DeleteStep::GiveUp
            } else {
                DeleteStep::RetryAfterDelay
            }
        },
    }
}

/// Whether a run of attempts from number `k` on, answered by `outcomes`,
/// ends in success.
pub open spec fn run_succeeds(outcomes: Seq<DeleteOutcome>, k: nat) -> bool
    decreases MAX_INSTANCE_UPDATE_TRIES - k,
{
    if k >= MAX_INSTANCE_UPDATE_TRIES {
        false
    } else {
        match spec_try_delete_step(k, outcomes[k as int]) {
            DeleteStep::Done => true,
            DeleteStep::GiveUp => false,
            DeleteStep::RetryAfterDelay => run_succeeds(outcomes, k + 1),
        }
    }
}

/// The number of delete calls a run from number `k` on makes.
pub open spec fn run_attempts(outcomes: Seq<DeleteOutcome>, k: nat) -> nat
    decreases MAX_INSTANCE_UPDATE_TRIES - k,
{
    if k >= MAX_INSTANCE_UPDATE_TRIES {
        0
    } else {
        match spec_try_delete_step(k, outcomes[k as int]) {
            DeleteStep::RetryAfterDelay => 1 + run_attempts(outcomes, k + 1),
            _ => 1,
        }
    }
}

/// A deletion succeeds exactly when one of the first
/// `MAX_INSTANCE_UPDATE_TRIES` attempts deletes the Instance or finds it
/// gone, and it never makes more than `MAX_INSTANCE_UPDATE_TRIES` calls.
pub proof fn law_try_delete_bounded(outcomes: Seq<DeleteOutcome>, k: nat)
    requires
        outcomes.len() >= MAX_INSTANCE_UPDATE_TRIES,
        k <= MAX_INSTANCE_UPDATE_TRIES,
    ensures
        run_succeeds(outcomes, k) == exists|i: int|
            k <= i < MAX_INSTANCE_UPDATE_TRIES && settles(#[trigger] outcomes[i]),
        run_attempts(outcomes, k) <= MAX_INSTANCE_UPDATE_TRIES - k,
    decreases MAX_INSTANCE_UPDATE_TRIES - k,
{
    if k < MAX_INSTANCE_UPDATE_TRIES {
        law_try_delete_bounded(outcomes, k + 1);
        if !settles(outcomes[k as int]) && k + 1 >= MAX_INSTANCE_UPDATE_TRIES {
            assert forall|i: int| k <= i < MAX_INSTANCE_UPDATE_TRIES implies !settles(
                #[trigger] outcomes[i],
            ) by {
                assert(i == k);
            }
        }
        if exists|i: int| k + 1 <= i < MAX_INSTANCE_UPDATE_TRIES && settles(#[trigger] outcomes[i]) {
            let i = choose|i: int| k + 1 <= i < MAX_INSTANCE_UPDATE_TRIES && settles(#[trigger] outcomes[i]);
            assert(k <= i);
        }
        if exists|i: int| k <= i < MAX_INSTANCE_UPDATE_TRIES && settles(#[trigger] outcomes[i]) {
            let i = choose|i: int| k <= i < MAX_INSTANCE_UPDATE_TRIES && settles(#[trigger] outcomes[i]);
            if i != k {
                assert(k + 1 <= i);
            }
        }
    }
}

} // verus!
