//! The decisions of the solvers that iterate: what to try after an attempt of the
//! nonlinear solver, and what to do with a time step.
//!
//! The numbers that the attempts work with are no matter here: an attempt is known by
//! its place in the continuation, a step by how it ended.

use crate::result_store::RunStatus;
use vstd::prelude::*;

verus! {

/// How an attempt of the nonlinear solver ended.
#[derive(Debug, Clone, Copy, PartialEq, Eq)]
pub enum NewtonExitReason {
    Converged,
    MaxIters,
    SolverFailure,
}

/// The status of a run whose nonlinear solve ended in the given way.
pub open spec fn status_of(reason: NewtonExitReason) -> RunStatus {
    match reason {
        NewtonExitReason::Converged => RunStatus::Converged,
        NewtonExitReason::MaxIters => RunStatus::MaxIters,
        NewtonExitReason::SolverFailure => RunStatus::Failed,
    }
}

/// The status of a run by the way its nonlinear solve ended.
pub fn run_status(reason: NewtonExitReason) -> (status: RunStatus)
    ensures
        status == status_of(reason),
{
    match reason {
        NewtonExitReason::Converged => RunStatus::Converged,
        NewtonExitReason::MaxIters => RunStatus::MaxIters,
        NewtonExitReason::SolverFailure => RunStatus::Failed,
    }
}

/// An attempt of the nonlinear solver, by its place in the continuation.
#[derive(Debug, Clone, Copy, PartialEq, Eq)]
pub enum Stage {
    /// The plain iteration at the target conductance and with full sources.
    Direct,
    /// The iteration with the added conductance at the given place of its schedule.
    Gmin(usize),
    /// The iteration with the sources at the given place of their schedule.
    Source(usize),
}

/// What follows an attempt.
#[derive(Debug, Clone, Copy, PartialEq, Eq)]
pub enum Next {
    Attempt(Stage),
    Finish(NewtonExitReason),
}

/// The length of a schedule of the given number of steps: one at least.
pub open spec fn schedule_len(steps: usize) -> int {
    if steps == 0 {
        1
    } else {
        steps as int
    }
}

/// What follows an attempt that ended in the given way.
///
/// A failure of the linear solver ends the solve at once. Plain iteration that does
/// not converge is followed by the schedule of added conductances from its start, and
/// a step of that schedule that does not converge by the schedule of the sources from
/// its start. A step of a schedule that converges is followed by the next one, and the
/// last one ends the solve as converged. A step of the schedule of the sources that
/// does not converge ends the solve.
pub open spec fn next_of(
    stage: Stage,
    outcome: NewtonExitReason,
    gmin_steps: usize,
    source_steps: usize,
) -> Next {
    match outcome {
        NewtonExitReason::SolverFailure => Next::Finish(NewtonExitReason::SolverFailure),
        NewtonExitReason::Converged => match stage {
            Stage::Direct => Next::Finish(NewtonExitReason::Converged),
            Stage::Gmin(i) => if i + 1 < schedule_len(gmin_steps) {
                Next::Attempt(Stage::Gmin((i + 1) as usize))
            } else {
                Next::Finish(NewtonExitReason::Converged)
            },
            Stage::Source(i) => if i + 1 < schedule_len(source_steps) {
                Next::Attempt(Stage::Source((i + 1) as usize))
            } else {
                Next::Finish(NewtonExitReason::Converged)
            },
        },
        NewtonExitReason::MaxIters => match stage {
            Stage::Direct => Next::Attempt(Stage::Gmin(0)),
            Stage::Gmin(_) => Next::Attempt(Stage::Source(0)),
            Stage::Source(_) => Next::Finish(NewtonExitReason::MaxIters),
        },
    }
}

/// Decides what follows an attempt of the nonlinear solver.
pub fn after_attempt(
    stage: Stage,
    outcome: NewtonExitReason,
    gmin_steps: usize,
    source_steps: usize,
) -> (next: Next)
    ensures
        next == next_of(stage, outcome, gmin_steps, source_steps),
{
    match outcome {
        NewtonExitReason::SolverFailure => Next::Finish(NewtonExitReason::SolverFailure),
        NewtonExitReason::Converged => match stage {
            Stage::Direct => Next::Finish(NewtonExitReason::Converged),
            Stage::Gmin(i) => {
                let len = if gmin_steps == 0 {
                    1
                } else {
                    gmin_steps
                };
                if i < len - 1 {
                    Next::Attempt(Stage::Gmin(i + 1))
                } else {
                    Next::Finish(NewtonExitReason::Converged)
                }
            },
            Stage::Source(i) => {
                let len = if source_steps == 0 {
                    1
                } else {
                    source_steps
                };
                if i < len - 1 {
                    Next::Attempt(Stage::Source(i + 1))
                } else {
                    Next::Finish(NewtonExitReason::Converged)
                }
            },
        },
        NewtonExitReason::MaxIters => match stage {
            Stage::Direct => Next::Attempt(Stage::Gmin(0)),
            Stage::Gmin(_) => Next::Attempt(Stage::Source(0)),
            Stage::Source(_) => Next::Finish(NewtonExitReason::MaxIters),
        },
    }
}

/// Whether an attempt lies within the schedules.
pub open spec fn in_schedule(stage: Stage, gmin_steps: usize, source_steps: usize) -> bool {
    match stage {
        Stage::Direct => true,
        Stage::Gmin(i) => i < schedule_len(gmin_steps),
        Stage::Source(i) => i < schedule_len(source_steps),
    }
}

/// The place of an attempt among all attempts that a solve can make.
pub open spec fn rank(stage: Stage, gmin_steps: usize) -> int {
    match stage {
        Stage::Direct => 0,
        Stage::Gmin(i) => 1 + i,
        Stage::Source(i) => 1 + schedule_len(gmin_steps) + i,
    }
}

/// A solve comes to an end: every attempt that follows another one lies within the
/// schedules and further on among all attempts, of which there are no more than one
/// and the lengths of the two schedules.
pub proof fn lemma_attempts_advance(
    stage: Stage,
    outcome: NewtonExitReason,
    gmin_steps: usize,
    source_steps: usize,
)
    requires
        in_schedule(stage, gmin_steps, source_steps),
    ensures
        match next_of(stage, outcome, gmin_steps, source_steps) {
            Next::Attempt(next) => {
                &&& in_schedule(next, gmin_steps, source_steps)
                &&& rank(next, gmin_steps) > rank(stage, gmin_steps)
                &&& rank(next, gmin_steps) < 1 + schedule_len(gmin_steps) + schedule_len(
                    source_steps,
                )
            },
            Next::Finish(reason) => reason == outcome,
        },
{
}

/// How a time step ended.
#[derive(Debug, Clone, Copy, PartialEq, Eq)]
pub enum StepOutcome {
    /// The nonlinear solve converged; the estimate of the error is within the
    /// tolerance or not.
    Converged { within_tolerance: bool },
    /// The nonlinear solve did not converge.
    NotConverged,
    /// The linear solver failed.
    SolverFailure,
}

/// What to do with a time step.
#[derive(Debug, Clone, Copy, PartialEq, Eq)]
pub enum StepAction {
    /// Take the solution, go on in time and let the step grow.
    Accept,
    /// Drop the solution and try again with half the step.
    Retry,
    /// Give up.
    Fail,
}

/// What to do with a time step that ended in the given way.
///
/// A step is accepted where it converged within the tolerance. Else it is tried again
/// with half the step, unless the step is at its least length already, which ends the
/// analysis, as a failure of the linear solver does.
pub open spec fn action_of(outcome: StepOutcome, at_min_dt: bool) -> StepAction {
    match outcome {
        StepOutcome::Converged { within_tolerance } => if within_tolerance {
            StepAction::Accept
        } else if at_min_dt {
            StepAction::Fail
        } else {
            StepAction::Retry
        },
        StepOutcome::NotConverged => if at_min_dt {
            StepAction::Fail
        } else {
            StepAction::Retry
        },
        StepOutcome::SolverFailure => StepAction::Fail,
    }
}

/// Decides what to do with a time step.
pub fn after_step(outcome: StepOutcome, at_min_dt: bool) -> (action: StepAction)
    ensures
        action == action_of(outcome, at_min_dt),
{
    match outcome {
        StepOutcome::Converged { within_tolerance } => if within_tolerance {
            StepAction::Accept
        } else if at_min_dt {
            StepAction::Fail
        } else {
            StepAction::Retry
        },
        StepOutcome::NotConverged => if at_min_dt {
            StepAction::Fail
        } else {
            StepAction::Retry
        },
        StepOutcome::SolverFailure => StepAction::Fail,
    }
}

} // verus!
