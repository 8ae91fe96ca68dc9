//! Caller-correctable validation errors.
//!
//! Every error here is returned synchronously to the caller, who must
//! correct the call and resubmit; nothing is retried automatically.
//! Systemic failure (a missed election deadline) is not an error value
//! but a phase transition to `Emergency`.

use vstd::prelude::*;

verus! {

/// Errors returned by ledger operations and election dispatchables.
#[derive(Clone, Copy, Debug, PartialEq, Eq, Structural)]
pub enum Error {
    /// The account is already bonded; it cannot bond anew.
    AlreadyBonded,
    /// The account has no ledger entry.
    NotStaker,
    /// The bonded amount is below the minimum required for the role.
    InsufficientBond,
    /// The account's unlocking schedule is at capacity; withdraw first.
    TooManyChunks,
    /// The submitted solution does not beat the score it had to beat.
    ScoreTooLow,
    /// The submitter already has a submission in this round or block.
    DuplicateSubmission,
    /// The author has no submission to withdraw.
    NoSubmission,
    /// The submitted solution fails the feasibility check.
    Infeasible,
    /// The call is not allowed in the current phase or window.
    CallNotAllowed,
}

/// Errors returned by `elect`.
#[derive(Clone, Copy, Debug, PartialEq, Eq, Structural)]
pub enum ElectionError {
    /// No verified solution is queued; the machine is (now) in Emergency.
    NoQueuedSolution,
}

} // verus!
