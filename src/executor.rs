use vstd::prelude::*;

use crate::machine::{StepFatal, StepReport};

verus! {

/// What the executor tells the interface after a step.
#[derive(Debug, Clone, Copy, PartialEq, Eq, Structural)]
pub enum ExecutorReport {
    /// A device changed what the interface shows.
    Redraw,
    /// The step failed; the executor has stopped.
    Failure { error: StepFatal },
}

/// The report that a step's result calls for: a redraw when a device asked
/// for one, the failure when the step failed, nothing otherwise.
pub open spec fn report_spec(result: Result<StepReport, StepFatal>) -> Option<ExecutorReport> {
    match result {
        Ok(report) => if report.redraw {
            Some(ExecutorReport::Redraw)
        } else {
            None
        },
        Err(error) => Some(ExecutorReport::Failure { error }),
    }
}

/// Decides what the executor sends after a step.
pub fn report_of(result: &Result<StepReport, StepFatal>) -> (r: Option<ExecutorReport>)
    ensures
        r == report_spec(*result),
{
    match result {
        Ok(report) => if report.redraw {
            Some(ExecutorReport::Redraw)
        } else {
            None
        },
        Err(error) => Some(ExecutorReport::Failure { error: *error }),
    }
}

/// Whether the executor keeps running after sending `report`: only a
/// failure stops it.
pub fn keeps_running(report: &Option<ExecutorReport>) -> (r: bool)
    ensures
        r == !(*report matches Some(ExecutorReport::Failure { .. })),
{
    match report {
        Some(ExecutorReport::Failure { .. }) => false,
        _ => true,
    }
}

/// What the executor's loop does next, from the run flag and whether it
/// holds the environment's lock.
#[derive(Debug, Clone, Copy, PartialEq, Eq, Structural)]
pub enum ExecutorAction {
    /// Take the lock, then step.
    AcquireAndStep,
    /// Step with the lock already held.
    Step,
    /// Give the lock back, then wait to be woken.
    ReleaseAndWait,
    /// Wait to be woken.
    Wait,
}

/// While running the executor holds the lock across steps; once stopped it
/// lets the lock go, so the interface sees memory only between runs.
pub open spec fn action_spec(running: bool, holding: bool) -> ExecutorAction {
    if running {
        if holding {
            ExecutorAction::Step
        } else {
            ExecutorAction::AcquireAndStep
        }
    } else if holding {
        ExecutorAction::ReleaseAndWait
    } else {
        ExecutorAction::Wait
    }
}

/// Decides the executor's next move.
pub fn next_action(running: bool, holding: bool) -> (r: ExecutorAction)
    ensures
        r == action_spec(running, holding),
{
    if running {
        if holding {
            ExecutorAction::Step
        } else {
            ExecutorAction::AcquireAndStep
        }
    } else if holding {
        ExecutorAction::ReleaseAndWait
    } else {
        ExecutorAction::Wait
    }
}

} // verus!
