//! Supervised lifecycle: the supervisor state machine, the bounded drain of
//! in-flight work during shutdown, and the event-pump decision step.

use vstd::prelude::*;

verus! {

/// The supervisor's lifecycle states.
#[derive(Clone, Copy, PartialEq, Eq, Structural, Debug)]
pub enum SupervisorState {
    /// Units are being launched.
    Starting,
    /// All units launched; events flow.
    Running,
    /// Shutdown requested; no new events; in-flight work may finish.
    Draining,
    /// All units completed within the grace period; clean exit.
    Stopped,
    /// A unit failed unrecoverably, or the grace period elapsed with units
    /// still active; non-zero exit.
    Failed,
}

/// What the supervisor reacts to.
#[derive(Clone, Copy, PartialEq, Eq, Structural, Debug)]
pub enum SupervisorEvent {
    /// Every supervised unit has been launched.
    AllLaunched,
    /// A shutdown signal or explicit request arrived.
    ShutdownRequested,
    /// Every supervised unit reported completion.
    AllUnitsDone,
    /// The grace period ran out with units still active.
    GraceElapsed,
    /// A unit reported an unrecoverable error.
    UnitFailed,
}

pub open spec fn is_terminal(s: SupervisorState) -> bool {
    s is Stopped || s is Failed
}

/// The supervisor's transition relation. A unit failure is fatal from any
/// live state; terminal states never move.
pub open spec fn spec_supervisor_step(s: SupervisorState, e: SupervisorEvent) -> SupervisorState {
    if is_terminal(s) {
        s
    } else if e is UnitFailed {
        SupervisorState::Failed
    } else {
        match (s, e) {
            (SupervisorState::Starting, SupervisorEvent::AllLaunched) => SupervisorState::Running,
            (SupervisorState::Running, SupervisorEvent::ShutdownRequested)
                => SupervisorState::Draining,
            (SupervisorState::Draining, SupervisorEvent::AllUnitsDone) => SupervisorState::Stopped,
            (SupervisorState::Draining, SupervisorEvent::GraceElapsed) => SupervisorState::Failed,
            _ => s,
        }
    }
}

/// Advance the supervisor by one event.
pub fn supervisor_step(s: SupervisorState, e: SupervisorEvent) -> (t: SupervisorState)
    ensures
        t == spec_supervisor_step(s, e),
{
    match s {
        SupervisorState::Stopped => s,
        SupervisorState::Failed => s,
        _ => match e {
            SupervisorEvent::UnitFailed => SupervisorState::Failed,
            SupervisorEvent::AllLaunched => if matches!(s, SupervisorState::Starting) {
                SupervisorState::Running
            } else {
                s
            },
            SupervisorEvent::ShutdownRequested => if matches!(s, SupervisorState::Running) {
                SupervisorState::Draining
            } else {
                s
            },
            SupervisorEvent::AllUnitsDone => if matches!(s, SupervisorState::Draining) {
                SupervisorState::Stopped
            } else {
                s
            },
            SupervisorEvent::GraceElapsed => if matches!(s, SupervisorState::Draining) {
                SupervisorState::Failed
            } else {
                s
            },
        },
    }
}

/// Once terminal, the supervisor never moves again.
pub proof fn lemma_terminal_is_final(s: SupervisorState, e: SupervisorEvent)
    requires
        is_terminal(s),
    ensures
        spec_supervisor_step(s, e) == s,
{
}

/// How many of the given in-flight durations finish within the grace period.
pub open spec fn spec_count_within(ds: Seq<u64>, grace: u64) -> nat
    decreases ds.len(),
{
    if ds.len() == 0 {
        0
    } else {
        spec_count_within(ds.drop_last(), grace) + if ds.last() <= grace {
            1nat
        } else {
            0nat
        }
    }
}

/// The longest of the given durations (0 when there are none).
pub open spec fn spec_longest(ds: Seq<u64>) -> u64
    decreases ds.len(),
{
    if ds.len() == 0 {
        0
    } else if ds.last() >= spec_longest(ds.drop_last()) {
        ds.last()
    } else {
        spec_longest(ds.drop_last())
    }
}

/// What draining came to: how many in-flight units finished within the grace
/// period, how many were abandoned, how long draining took, and whether the
/// process may exit cleanly.
#[derive(Debug, PartialEq)]
pub struct DrainReport {
    pub completed: usize,
    pub abandoned: usize,
    pub elapsed: u64,
    pub clean: bool,
}

/// Drain in-flight units against a grace period. A unit whose remaining work
/// takes at most `grace` time units completes; the rest are abandoned.
/// Draining ends as soon as everything has completed, and in any case once
/// the grace period has elapsed. The exit is clean exactly when nothing was
/// abandoned.
pub fn drain_units(grace: u64, durations: &Vec<u64>) -> (r: DrainReport)
    ensures
        r.completed == spec_count_within(durations@, grace),
        r.abandoned + r.completed == durations@.len(),
        r.elapsed == if spec_longest(durations@) <= grace {
            spec_longest(durations@)
        } else {
            grace
        },
        r.clean <==> r.abandoned == 0,
        r.clean <==> (forall|i: int| 0 <= i < durations@.len() ==> durations@[i] <= grace),
{
    let mut completed: usize = 0;
    let mut longest: u64 = 0;
    let mut i: usize = 0;
    while i < durations.len()
        invariant
            i <= durations@.len(),
            completed == spec_count_within(durations@.take(i as int), grace),
            completed <= i,
            longest == spec_longest(durations@.take(i as int)),
            (completed == i) <==> (forall|j: int| 0 <= j < i ==> durations@[j] <= grace),
        decreases durations@.len() - i,
    {
        let d = durations[i];
        proof {
            assert(durations@.take(i as int + 1).drop_last() =~= durations@.take(i as int));
            assert(durations@.take(i as int + 1).last() == durations@[i as int]);
        }
        if d <= grace {
            completed = completed + 1;
        }
        if d > longest {
            longest = d;
        }
        i = i + 1;
    }
    proof {
        assert(durations@.take(durations@.len() as int) =~= durations@);
    }
    let abandoned = durations.len() - completed;
    let elapsed = if longest <= grace {
        longest
    } else {
        grace
    };
    DrainReport { completed, abandoned, elapsed, clean: abandoned == 0 }
}

/// What the event pump does on one tick.
#[derive(Clone, Copy, PartialEq, Eq, Structural, Debug)]
pub enum PumpAction {
    /// Stop pumping: the channel closed or shutdown was requested.
    Stop,
    /// Nothing to do; look again after this many time units.
    Sleep(u64),
}

/// One pump decision: whether the event at hand is handed to the dispatcher,
/// and what the pump does next.
#[derive(Debug, PartialEq)]
pub struct PumpDecision {
    pub deliver: bool,
    pub action: PumpAction,
}

/// How long the pump sleeps between idle polls.
pub const PUMP_IDLE_DELAY: u64 = 3;

/// Decide one tick of the event pump. An event at hand is always handed on
/// (even on the shutdown tick); the pump stops when its channel is closed or
/// shutdown was requested, and otherwise naps briefly.
pub fn pump_step(channel_closed: bool, has_event: bool, shutdown_requested: bool) -> (d:
    PumpDecision)
    ensures
        d.deliver == (!channel_closed && has_event),
        d.action == if channel_closed || shutdown_requested {
            PumpAction::Stop
        } else {
            PumpAction::Sleep(PUMP_IDLE_DELAY)
        },
{
    PumpDecision {
        deliver: !channel_closed && has_event,
        action: if channel_closed || shutdown_requested {
            PumpAction::Stop
        } else {
            PumpAction::Sleep(PUMP_IDLE_DELAY)
        },
    }
}

} // verus!
