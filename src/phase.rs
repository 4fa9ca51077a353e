use vstd::prelude::*;
use crate::error::TourError;
use vstd::string::StringExecFns;

verus! {

/// Where a season stands in its lifecycle.
#[derive(Debug, Clone, Copy, PartialEq, Eq, Structural)]
pub enum SeasonStatus {
    Initial,
    StartSignup,
    StoppedSignup,
    StartGaming,
    RoundOngoing,
    StoppedGaming,
    Closed,
}

/// The four phase changes an administrator can ask for.
#[derive(Debug, Clone, Copy, PartialEq, Eq, Structural)]
pub enum PhaseOp {
    StartSignup,
    StopSignup,
    StartGaming,
    StopGaming,
}

/// The statuses from which `op` may be taken.
pub open spec fn phase_allowed(op: PhaseOp, s: SeasonStatus) -> bool {
    match op {
        PhaseOp::StartSignup => s == SeasonStatus::Initial || s == SeasonStatus::StoppedSignup,
        PhaseOp::StopSignup => s == SeasonStatus::StartSignup,
        PhaseOp::StartGaming => s == SeasonStatus::StoppedSignup || s == SeasonStatus::StoppedGaming,
        PhaseOp::StopGaming => s == SeasonStatus::StartGaming,
    }
}

/// The status that `op` leads to.
pub open spec fn phase_target(op: PhaseOp) -> SeasonStatus {
    match op {
        PhaseOp::StartSignup => SeasonStatus::StartSignup,
        PhaseOp::StopSignup => SeasonStatus::StoppedSignup,
        PhaseOp::StartGaming => SeasonStatus::StartGaming,
        PhaseOp::StopGaming => SeasonStatus::StoppedGaming,
    }
}

/// The whole lifecycle graph: the phase operations, the round start and end,
/// and the closing of a season.
pub open spec fn lifecycle_edge(from: SeasonStatus, to: SeasonStatus) -> bool {
    (exists|op: PhaseOp| phase_allowed(op, from) && phase_target(op) == to)
        || (from == SeasonStatus::StartGaming && to == SeasonStatus::RoundOngoing)
        || (from == SeasonStatus::RoundOngoing && to == SeasonStatus::StartGaming)
        || (from != SeasonStatus::Closed && to == SeasonStatus::Closed)
}

/// The status after `op` from `s`, or `InvalidPhaseTransition`.
pub fn next_status(op: PhaseOp, s: SeasonStatus) -> (r: Result<SeasonStatus, TourError>)
    ensures
        phase_allowed(op, s) ==> r == Ok::<SeasonStatus, TourError>(phase_target(op)),
        !phase_allowed(op, s) ==> r == Err::<SeasonStatus, TourError>(TourError::InvalidPhaseTransition),
{
    match (op, s) {
        (PhaseOp::StartSignup, SeasonStatus::Initial) | (PhaseOp::StartSignup, SeasonStatus::StoppedSignup) => Ok(SeasonStatus::StartSignup),
        (PhaseOp::StopSignup, SeasonStatus::StartSignup) => Ok(SeasonStatus::StoppedSignup),
        (PhaseOp::StartGaming, SeasonStatus::StoppedSignup) | (PhaseOp::StartGaming, SeasonStatus::StoppedGaming) => Ok(SeasonStatus::StartGaming),
        (PhaseOp::StopGaming, SeasonStatus::StartGaming) => Ok(SeasonStatus::StoppedGaming),
        _ => Err(TourError::InvalidPhaseTransition),
    }
}

/// The stored name of a status.
pub open spec fn status_text(s: SeasonStatus) -> Seq<char> {
    match s {
        SeasonStatus::Initial => "initial"@,
        SeasonStatus::StartSignup => "start_signup"@,
        SeasonStatus::StoppedSignup => "stopped_signup"@,
        SeasonStatus::StartGaming => "start_gaming"@,
        SeasonStatus::RoundOngoing => "round_ongoing"@,
        SeasonStatus::StoppedGaming => "stopped_gaming"@,
        SeasonStatus::Closed => "closed"@,
    }
}

/// The stored name of a status.
pub fn status_name(s: SeasonStatus) -> (r: &'static str)
    ensures
        r@ == status_text(s),
{
    match s {
        SeasonStatus::Initial => "initial",
        SeasonStatus::StartSignup => "start_signup",
        SeasonStatus::StoppedSignup => "stopped_signup",
        SeasonStatus::StartGaming => "start_gaming",
        SeasonStatus::RoundOngoing => "round_ongoing",
        SeasonStatus::StoppedGaming => "stopped_gaming",
        SeasonStatus::Closed => "closed",
    }
}

/// The status with a given stored name.
pub fn status_from_name(name: &str) -> (r: Option<SeasonStatus>)
    ensures
        match r {
            Some(s) => status_text(s) == name@,
            None => forall|s: SeasonStatus| status_text(s) != name@,
        },
{
    let n = String::from_str(name);
    if n == String::from_str("initial") {
        Some(SeasonStatus::Initial)
    } else if n == String::from_str("start_signup") {
        Some(SeasonStatus::StartSignup)
    } else if n == String::from_str("stopped_signup") {
        Some(SeasonStatus::StoppedSignup)
    } else if n == String::from_str("start_gaming") {
        Some(SeasonStatus::StartGaming)
    } else if n == String::from_str("round_ongoing") {
        Some(SeasonStatus::RoundOngoing)
    } else if n == String::from_str("stopped_gaming") {
        Some(SeasonStatus::StoppedGaming)
    } else if n == String::from_str("closed") {
        Some(SeasonStatus::Closed)
    } else {
        None
    }
}

/// What an administrator is told when `op` is refused in status `s`.
pub open spec fn refusal_text(op: PhaseOp, s: SeasonStatus) -> Seq<char> {
    match (op, s) {
        (_, SeasonStatus::Closed) => "This season is already closed."@,
        (_, SeasonStatus::RoundOngoing) => match op {
            PhaseOp::StartSignup => "A round is going on, you cannot start signing up."@,
            PhaseOp::StopSignup => "A round is going on, you cannot stop signing up."@,
            PhaseOp::StartGaming => "A round is going on, you cannot start gaming phase."@,
            PhaseOp::StopGaming => "A round is going on, you cannot stop gaming phase."@,
        },
        (PhaseOp::StartSignup, SeasonStatus::StartSignup) => "Signup has already started."@,
        (PhaseOp::StartSignup, SeasonStatus::StartGaming) => "The game has already started. We cannot open the signup now. Let's be fair."@,
        (PhaseOp::StartSignup, _) => "The game already started. And seems it also ended. Not a time to open sign-ups."@,
        (PhaseOp::StopSignup, SeasonStatus::Initial) => "Signup has not started yet. Start the signup phase first."@,
        (PhaseOp::StopSignup, SeasonStatus::StoppedSignup) => "Signup has already stopped!"@,
        (PhaseOp::StopSignup, SeasonStatus::StartGaming) => "The game has already started. This command is not valid."@,
        (PhaseOp::StopSignup, _) => "The game already started. And seems it also ended. This command is not valid."@,
        (PhaseOp::StartGaming, SeasonStatus::StartGaming) => "The game has already started!"@,
        (PhaseOp::StartGaming, SeasonStatus::StartSignup) => "The signup phase has not been completed. Please finish it first."@,
        (PhaseOp::StartGaming, _) => "The season just started. Please start the signup phase first, we need players."@,
        (PhaseOp::StopGaming, SeasonStatus::StoppedGaming) => "The gaming phase has already ended!"@,
        (PhaseOp::StopGaming, SeasonStatus::StoppedSignup) => "Oh, the signup is closed, however, the game hasn't started yet. Start a game to close it."@,
        (PhaseOp::StopGaming, SeasonStatus::StartSignup) => "The signup phase has not been completed. Please finish it first, and then start the gaming phase."@,
        (PhaseOp::StopGaming, _) => "The season just started. Please start the signup phase first, stop it, start the game phase. Then we can talk about closing the game."@,
    }
}

/// The explanation for a refused phase change, keyed by the operation and
/// the current status.
pub fn refusal_message(op: PhaseOp, s: SeasonStatus) -> (r: &'static str)
    requires
        !phase_allowed(op, s),
    ensures
        r@ == refusal_text(op, s),
{
    match (op, s) {
        (_, SeasonStatus::Closed) => "This season is already closed.",
        (_, SeasonStatus::RoundOngoing) => match op {
            PhaseOp::StartSignup => "A round is going on, you cannot start signing up.",
            PhaseOp::StopSignup => "A round is going on, you cannot stop signing up.",
            PhaseOp::StartGaming => "A round is going on, you cannot start gaming phase.",
            PhaseOp::StopGaming => "A round is going on, you cannot stop gaming phase.",
        },
        (PhaseOp::StartSignup, SeasonStatus::StartSignup) => "Signup has already started.",
        (PhaseOp::StartSignup, SeasonStatus::StartGaming) => "The game has already started. We cannot open the signup now. Let's be fair.",
        (PhaseOp::StartSignup, _) => "The game already started. And seems it also ended. Not a time to open sign-ups.",
        (PhaseOp::StopSignup, SeasonStatus::Initial) => "Signup has not started yet. Start the signup phase first.",
        (PhaseOp::StopSignup, SeasonStatus::StoppedSignup) => "Signup has already stopped!",
        (PhaseOp::StopSignup, SeasonStatus::StartGaming) => "The game has already started. This command is not valid.",
        (PhaseOp::StopSignup, _) => "The game already started. And seems it also ended. This command is not valid.",
        (PhaseOp::StartGaming, SeasonStatus::StartGaming) => "The game has already started!",
        (PhaseOp::StartGaming, SeasonStatus::StartSignup) => "The signup phase has not been completed. Please finish it first.",
        (PhaseOp::StartGaming, _) => "The season just started. Please start the signup phase first, we need players.",
        (PhaseOp::StopGaming, SeasonStatus::StoppedGaming) => "The gaming phase has already ended!",
        (PhaseOp::StopGaming, SeasonStatus::StoppedSignup) => "Oh, the signup is closed, however, the game hasn't started yet. Start a game to close it.",
        (PhaseOp::StopGaming, SeasonStatus::StartSignup) => "The signup phase has not been completed. Please finish it first, and then start the gaming phase.",
        (PhaseOp::StopGaming, _) => "The season just started. Please start the signup phase first, stop it, start the game phase. Then we can talk about closing the game.",
    }
}

} // verus!
