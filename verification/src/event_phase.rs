//! The per-action lifecycle: the phase an action is in each tick, and the
//! selector saying which phase counts as "active" for a consumer.

use vstd::prelude::*;

verus! {

/// Which lifecycle transition of an action is reported as "active". When no
/// selector is configured for an action, `OnProgress` applies.
#[derive(Clone, Copy, Debug, PartialEq, Eq, Structural)]
pub enum EventPhase {
    OnBegin,
    OnProgress,
    OnEnded,
}

impl Default for EventPhase {
    /// The selector that applies when none is configured.
    fn default() -> (r: Self)
        ensures
            r == EventPhase::OnProgress,
    {
        EventPhase::OnProgress
    }
}

/// The phase of an action in a tick, derived from the previous tick's
/// resolved strength `P` and the current tick's resolved strength `C`. The
/// four phases are mutually exclusive: exactly one holds per action per
/// tick.
#[derive(Clone, Copy, Debug, PartialEq, Eq, Structural)]
pub enum ActionPhase {
    /// `P == 0` and `C == 0`: nothing happens, no events fire.
    Idle,
    /// `P == 0` and `C > 0`: the action just started.
    Begin,
    /// `P > 0` and `C > 0`: the action continues.
    InProgress,
    /// `P > 0` and `C == 0`: the action just stopped.
    Ended,
}

/// The phase derived from a previous and a current resolved strength.
pub open spec fn phase_from_strengths(prev: int, cur: int) -> ActionPhase {
    if prev == 0 && cur == 0 {
        ActionPhase::Idle
    } else if prev == 0 {
        ActionPhase::Begin
    } else if cur > 0 {
        ActionPhase::InProgress
    } else {
        ActionPhase::Ended
    }
}

/// Whether a phase matches an "active" selector.
pub open spec fn phase_matches(selector: EventPhase, phase: ActionPhase) -> bool {
    match selector {
        EventPhase::OnBegin => phase == ActionPhase::Begin,
        EventPhase::OnProgress => phase == ActionPhase::InProgress,
        EventPhase::OnEnded => phase == ActionPhase::Ended,
    }
}

} // verus!
