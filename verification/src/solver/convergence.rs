//! Halting rules of the Newton iteration.
//!
//! The numeric layer measures each iteration — did any link status flip,
//! did the flow and head changes meet the tolerances — and the verified
//! rules decide what follows: declare convergence, keep iterating, start
//! damping the flow corrections, or give up on a status oscillation or an
//! iteration budget.  The measurements are floating-point work; the
//! decisions are not.

use vstd::prelude::*;

verus! {

/// The iteration budget of one steady-state solve.
#[derive(Debug, PartialEq, Eq, Structural, Clone, Copy)]
pub struct ConvergenceControl {
    /// Iterations after which the solve is abandoned.
    pub max_iterations: usize,
    /// Status flips after which the solve is declared oscillating.
    pub max_check_trials: usize,
    /// Iterations after which flow corrections are damped.
    pub damping_threshold: usize,
}

impl Default for ConvergenceControl {
    /// The reference budget: two hundred iterations, ten status trials,
    /// damping from the tenth iteration on.
    fn default() -> (r: ConvergenceControl)
        ensures
            r.max_iterations == 200,
            r.max_check_trials == 10,
            r.damping_threshold == 10,
    {
        ConvergenceControl { max_iterations: 200, max_check_trials: 10, damping_threshold: 10 }
    }
}

/// The running counters of one solve: iterations taken and link status
/// flips seen.
#[derive(Debug, PartialEq, Eq, Structural, Clone, Copy)]
pub struct ConvergenceState {
    pub iteration: usize,
    pub status_trials: usize,
}

impl ConvergenceState {
    /// Counters at the start of a solve.
    pub fn new() -> (r: ConvergenceState)
        ensures
            r.iteration == 0,
            r.status_trials == 0,
    {
        ConvergenceState { iteration: 0, status_trials: 0 }
    }
}

/// What one Newton iteration concluded.
#[derive(Debug, PartialEq, Eq, Structural, Clone, Copy)]
pub enum SolveVerdict {
    /// Tolerances met with no status change: the step's state stands.
    Converged,
    /// Keep iterating.
    Continue,
    /// The iteration budget ran out; the state is reported as-is with a
    /// non-convergence flag.
    MaxIterationsExceeded,
    /// Statuses flipped more often than allowed; same reporting.
    StatusOscillation,
}

/// Judge one completed iteration: convergence takes both the tolerances
/// and an iteration without status changes; otherwise the counters
/// advance — every status change counts one trial — and the budgets are
/// enforced, oscillation before exhaustion.
pub fn judge_iteration(
    control: &ConvergenceControl,
    state: &mut ConvergenceState,
    status_changed: bool,
    tolerance_met: bool,
) -> (r: SolveVerdict)
    requires
        old(state).iteration < usize::MAX,
        old(state).status_trials < usize::MAX,
    ensures
        (r == SolveVerdict::Converged) <==> (!status_changed && tolerance_met),
        r == SolveVerdict::Converged ==> *final(state) == *old(state),
        r != SolveVerdict::Converged ==> {
            &&& final(state).iteration == old(state).iteration + 1
            &&& final(state).status_trials == old(state).status_trials + (if status_changed {
                1int
            } else {
                0int
            })
            &&& (r == SolveVerdict::StatusOscillation) <==> final(state).status_trials
                > control.max_check_trials
            &&& (r == SolveVerdict::MaxIterationsExceeded) <==> (final(state).status_trials
                <= control.max_check_trials && final(state).iteration >= control.max_iterations)
            &&& (r == SolveVerdict::Continue) <==> (final(state).status_trials
                <= control.max_check_trials && final(state).iteration < control.max_iterations)
        },
{
    if !status_changed && tolerance_met {
        return SolveVerdict::Converged;
    }
    state.iteration = state.iteration + 1;
    if status_changed {
        state.status_trials = state.status_trials + 1;
    }
    if state.status_trials > control.max_check_trials {
        SolveVerdict::StatusOscillation
    } else if state.iteration >= control.max_iterations {
        SolveVerdict::MaxIterationsExceeded
    } else {
        SolveVerdict::Continue
    }
}

/// Whether the coming iteration damps its flow correction: only once the
/// iteration counter has passed the damping threshold.
pub fn damping_applies(control: &ConvergenceControl, state: &ConvergenceState) -> (r: bool)
    ensures
        r == (state.iteration > control.damping_threshold),
{
    state.iteration > control.damping_threshold
}

} // verus!
