//! How an operation's outcome is tied to the ledger's mathematical model.

use vstd::prelude::*;

verus! {

/// Whether an operation that reports `r` and leaves `after` took the step
/// `outcome` from `before`: the new state on success, no change on failure.
pub open spec fn took_step<S, E>(outcome: Result<S, E>, before: S, after: S, r: Result<(), E>) -> bool {
    match outcome {
        Ok(s) => r is Ok && after == s,
        Err(e) => r == Err::<(), E>(e) && after == before,
    }
}

} // verus!
