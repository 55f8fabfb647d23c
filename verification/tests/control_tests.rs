use sim_core::control::{
    after_attempt, after_step, run_status, NewtonExitReason, Next, Stage, StepAction, StepOutcome,
};
use sim_core::result_store::RunStatus;

#[test]
fn status_follows_the_end_of_the_solve() {
    assert_eq!(run_status(NewtonExitReason::Converged), RunStatus::Converged);
    assert_eq!(run_status(NewtonExitReason::MaxIters), RunStatus::MaxIters);
    assert_eq!(run_status(NewtonExitReason::SolverFailure), RunStatus::Failed);
}

#[test]
fn plain_iteration_that_converges_ends_the_solve() {
    assert_eq!(
        after_attempt(Stage::Direct, NewtonExitReason::Converged, 8, 4),
        Next::Finish(NewtonExitReason::Converged)
    );
}

#[test]
fn solver_failure_is_not_recovered() {
    for stage in [Stage::Direct, Stage::Gmin(0), Stage::Gmin(7), Stage::Source(0), Stage::Source(3)] {
        assert_eq!(
            after_attempt(stage, NewtonExitReason::SolverFailure, 8, 4),
            Next::Finish(NewtonExitReason::SolverFailure)
        );
    }
}

#[test]
fn continuation_runs_through_both_schedules() {
    let failed = NewtonExitReason::MaxIters;
    let ok = NewtonExitReason::Converged;
    assert_eq!(after_attempt(Stage::Direct, failed, 3, 2), Next::Attempt(Stage::Gmin(0)));
    assert_eq!(after_attempt(Stage::Gmin(0), ok, 3, 2), Next::Attempt(Stage::Gmin(1)));
    assert_eq!(after_attempt(Stage::Gmin(1), ok, 3, 2), Next::Attempt(Stage::Gmin(2)));
    assert_eq!(after_attempt(Stage::Gmin(2), ok, 3, 2), Next::Finish(ok));
    assert_eq!(after_attempt(Stage::Gmin(1), failed, 3, 2), Next::Attempt(Stage::Source(0)));
    assert_eq!(after_attempt(Stage::Source(0), ok, 3, 2), Next::Attempt(Stage::Source(1)));
    assert_eq!(after_attempt(Stage::Source(1), ok, 3, 2), Next::Finish(ok));
    assert_eq!(after_attempt(Stage::Source(0), failed, 3, 2), Next::Finish(failed));
}

#[test]
fn schedule_without_steps_has_one() {
    let ok = NewtonExitReason::Converged;
    assert_eq!(after_attempt(Stage::Gmin(0), ok, 0, 0), Next::Finish(ok));
    assert_eq!(after_attempt(Stage::Source(0), ok, 0, 0), Next::Finish(ok));
    assert_eq!(after_attempt(Stage::Gmin(0), ok, 1, 1), Next::Finish(ok));
    assert_eq!(after_attempt(Stage::Gmin(usize::MAX), ok, 2, 2), Next::Finish(ok));
}

#[test]
fn every_solve_comes_to_an_end() {
    for (g, s) in [(0, 0), (1, 1), (8, 4), (3, 7)] {
        for fail_from in 0..20 {
            let mut stage = Stage::Direct;
            let mut attempts = 0;
            loop {
                let outcome = if attempts >= fail_from {
                    NewtonExitReason::MaxIters
                } else {
                    NewtonExitReason::Converged
                };
                attempts += 1;
                match after_attempt(stage, outcome, g, s) {
                    Next::Attempt(next) => stage = next,
                    Next::Finish(reason) => {
                        assert_eq!(reason, outcome);
                        break;
                    }
                }
                assert!(attempts <= 1 + g.max(1) + s.max(1));
            }
        }
    }
}

#[test]
fn step_is_accepted_within_tolerance_only() {
    let good = StepOutcome::Converged { within_tolerance: true };
    let rough = StepOutcome::Converged { within_tolerance: false };
    assert_eq!(after_step(good, false), StepAction::Accept);
    assert_eq!(after_step(good, true), StepAction::Accept);
    assert_eq!(after_step(rough, false), StepAction::Retry);
    assert_eq!(after_step(rough, true), StepAction::Fail);
    assert_eq!(after_step(StepOutcome::NotConverged, false), StepAction::Retry);
    assert_eq!(after_step(StepOutcome::NotConverged, true), StepAction::Fail);
    assert_eq!(after_step(StepOutcome::SolverFailure, false), StepAction::Fail);
    assert_eq!(after_step(StepOutcome::SolverFailure, true), StepAction::Fail);
}
