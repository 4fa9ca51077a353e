use vstd::prelude::*;

verus! {

/// Every way a tournament operation can be refused.
#[derive(Debug, Clone, Copy, PartialEq, Eq, Structural)]
pub enum TourError {
    /// A season is already running.
    AlreadyActive,
    /// No season is running.
    NoActiveSeason,
    /// The phase change is not allowed from the current status.
    InvalidPhaseTransition,
    /// The player already has a signup row for the season.
    AlreadySignedUp,
    /// No pending candidate carries that username.
    NoPendingCandidate,
    /// The operation needs another season status.
    WrongPhase,
    /// The store cannot take the write (a missing row or a full table).
    StoreError,
}

} // verus!
