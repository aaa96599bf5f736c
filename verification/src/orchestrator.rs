//! The order of one polling cycle.
//!
//! A cycle reads the sources one after the other, each to completion, then
//! draws the frame and sleeps. The first source that fails ends the
//! process: the dashboard shows fresh numbers or none.

use vstd::prelude::*;

verus! {

/// Milliseconds to sleep between the end of one cycle and the start of
/// the next.
pub const SLEEP_MILLIS: u64 = 1000;

/// The steps of a cycle.
#[derive(Clone, Copy, Debug, PartialEq, Eq, Structural)]
pub enum Phase {
    Disks,
    Interfaces,
    Gateways,
    Services,
    FirewallLogs,
    CoreMetrics,
    Render,
    Sleep,
}

/// What to do after a step.
#[derive(Clone, Copy, Debug, PartialEq, Eq, Structural)]
pub enum Next {
    /// Go on with this step.
    Continue(Phase),
    /// Give up: a source failed.
    Abort,
}

/// The step that follows `phase` in a cycle; after the sleep the next
/// cycle starts.
pub open spec fn successor(phase: Phase) -> Phase {
    match phase {
        Phase::Disks => Phase::Interfaces,
        Phase::Interfaces => Phase::Gateways,
        Phase::Gateways => Phase::Services,
        Phase::Services => Phase::FirewallLogs,
        Phase::FirewallLogs => Phase::CoreMetrics,
        Phase::CoreMetrics => Phase::Render,
        Phase::Render => Phase::Sleep,
        Phase::Sleep => Phase::Disks,
    }
}

/// What follows a step that succeeded or failed.
pub open spec fn next(phase: Phase, succeeded: bool) -> Next {
    if succeeded {
        Next::Continue(successor(phase))
    } else {
        Next::Abort
    }
}

/// The step reached from `phase` after `n` steps that all succeeded.
pub open spec fn after(phase: Phase, n: nat) -> Phase
    decreases n,
{
    if n == 0 {
        phase
    } else {
        successor(after(phase, (n - 1) as nat))
    }
}

impl Phase {
    /// The step with which every cycle starts.
    pub fn first() -> (phase: Phase)
        ensures
            phase == Phase::Disks,
    {
        Phase::Disks
    }

    /// What follows this step, given whether it succeeded.
    pub fn advance(self, succeeded: bool) -> (r: Next)
        ensures
            r == next(self, succeeded),
    {
        if !succeeded {
            return Next::Abort;
        }
        Next::Continue(
            match self {
                Phase::Disks => Phase::Interfaces,
                Phase::Interfaces => Phase::Gateways,
                Phase::Gateways => Phase::Services,
                Phase::Services => Phase::FirewallLogs,
                Phase::FirewallLogs => Phase::CoreMetrics,
                Phase::CoreMetrics => Phase::Render,
                Phase::Render => Phase::Sleep,
                Phase::Sleep => Phase::Disks,
            },
        )
    }
}

/// A cycle has eight steps: from any step, eight successes lead back to
/// it, and from the first step the sources are read in the order disks,
/// interfaces, gateways, services, firewall logs, core metrics before the
/// frame is drawn.
pub proof fn lemma_cycle(phase: Phase)
    ensures
        after(phase, 8) == phase,
        after(Phase::Disks, 1) == Phase::Interfaces,
        after(Phase::Disks, 2) == Phase::Gateways,
        after(Phase::Disks, 3) == Phase::Services,
        after(Phase::Disks, 4) == Phase::FirewallLogs,
        after(Phase::Disks, 5) == Phase::CoreMetrics,
        after(Phase::Disks, 6) == Phase::Render,
        after(Phase::Disks, 7) == Phase::Sleep,
{
    reveal_with_fuel(after, 9);
}

} // verus!
