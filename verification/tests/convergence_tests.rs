//! Tests of the Newton-loop halting rules.

use epanet_rs::solver::convergence::{
    damping_applies, judge_iteration, ConvergenceControl, ConvergenceState, SolveVerdict,
};

#[test]
fn converges_only_without_status_changes() {
    let control = ConvergenceControl::default();
    let mut state = ConvergenceState::new();
    // Tolerance met but a valve flipped: the streak resets and iteration
    // goes on.
    assert_eq!(judge_iteration(&control, &mut state, true, true), SolveVerdict::Continue);
    assert_eq!(state.iteration, 1);
    assert_eq!(state.status_trials, 1);
    // A quiet iteration within tolerance converges and leaves the
    // counters alone.
    assert_eq!(judge_iteration(&control, &mut state, false, true), SolveVerdict::Converged);
    assert_eq!(state.iteration, 1);
    assert_eq!(state.status_trials, 1);
}

#[test]
fn already_converged_state_converges_at_once() {
    // Re-judging a state that is already within tolerance and stable
    // ends the solve on its first iteration.
    let control = ConvergenceControl::default();
    let mut state = ConvergenceState::new();
    assert_eq!(judge_iteration(&control, &mut state, false, true), SolveVerdict::Converged);
    assert_eq!(state, ConvergenceState::new());
}

#[test]
fn status_oscillation_is_detected() {
    let control = ConvergenceControl::default();
    let mut state = ConvergenceState::new();
    for _ in 0..10 {
        assert_eq!(judge_iteration(&control, &mut state, true, false), SolveVerdict::Continue);
    }
    // The eleventh flip exceeds the ten allowed trials.
    assert_eq!(
        judge_iteration(&control, &mut state, true, false),
        SolveVerdict::StatusOscillation,
    );
    assert_eq!(state.status_trials, 11);
}

#[test]
fn iteration_budget_is_enforced() {
    let control = ConvergenceControl::default();
    let mut state = ConvergenceState::new();
    for _ in 0..199 {
        assert_eq!(judge_iteration(&control, &mut state, false, false), SolveVerdict::Continue);
    }
    assert_eq!(
        judge_iteration(&control, &mut state, false, false),
        SolveVerdict::MaxIterationsExceeded,
    );
    assert_eq!(state.iteration, 200);
}

#[test]
fn damping_starts_past_the_threshold() {
    let control = ConvergenceControl::default();
    let mut state = ConvergenceState::new();
    for _ in 0..10 {
        judge_iteration(&control, &mut state, false, false);
        assert!(!damping_applies(&control, &state));
    }
    judge_iteration(&control, &mut state, false, false);
    assert!(damping_applies(&control, &state));
}
