//! Event timing of the extended-period loop.
//!
//! The outer loop advances the clock from event to event: the end of a
//! full hydraulic step, the next pattern change, the next timed control,
//! or a tank running full or dry.  The integer timing logic lives here;
//! predicting a tank's fill time from its flow is floating-point work of
//! the numeric layer, which hands in the resulting candidate time.

use vstd::prelude::*;
use vstd::arithmetic::div_mod::lemma_fundamental_div_mod;

verus! {

/// Index into a pattern's multipliers at clock time `t`: the pattern
/// advances every `pattern_step` seconds and wraps around at its end.
pub fn pattern_index(t: usize, pattern_step: usize, len: usize) -> (r: usize)
    requires
        pattern_step > 0,
        len > 0,
    ensures
        r == (t / pattern_step) % len,
{
    (t / pattern_step) % len
}

/// First clock time strictly after `t` at which a pattern advances.
pub fn next_pattern_change(t: usize, pattern_step: usize) -> (r: usize)
    requires
        pattern_step > 0,
        t + pattern_step <= usize::MAX,
    ensures
        r == (t / pattern_step + 1) * pattern_step,
        t < r <= t + pattern_step,
{
    let q = t / pattern_step;
    proof {
        lemma_fundamental_div_mod(t as int, pattern_step as int);
        assert((q + 1) * pattern_step == q * pattern_step + pattern_step) by (nonlinear_arith);
        assert(q * pattern_step <= t < q * pattern_step + pattern_step) by (nonlinear_arith)
            requires
                t == pattern_step * q + t % pattern_step,
                0 <= t % pattern_step < pattern_step,
        ;
    }
    (q + 1) * pattern_step
}

/// Earliest activation time of a timed control strictly after `t`, or
/// `usize::MAX` when no timed control is still ahead.
pub fn next_control_time(times: &Vec<usize>, t: usize) -> (r: usize)
    requires
        t < usize::MAX,
    ensures
        t < r,
        forall|i: int| 0 <= i < times@.len() && times@[i] > t ==> r <= times@[i],
        r == usize::MAX || exists|i: int| 0 <= i < times@.len() && times@[i] == r,
{
    let mut best: usize = usize::MAX;
    let n = times.len();
    let mut i: usize = 0;
    while i < n
        invariant
            n == times@.len(),
            0 <= i <= n,
            t < best,
            forall|j: int| 0 <= j < i && times@[j] > t ==> best <= times@[j],
            best == usize::MAX || exists|j: int| 0 <= j < times@.len() && times@[j] == best,
        decreases n - i,
    {
        let c = times[i];
        if c > t && c < best {
            best = c;
        }
        i += 1;
    }
    best
}

/// The next event the loop advances to: the end of a full hydraulic step
/// or the earliest candidate event that lies strictly after `t`,
/// whichever comes first.  A candidate of `usize::MAX` stands for an
/// event that never comes.
pub fn next_event_time(t: usize, hydraulic_step: usize, candidates: &Vec<usize>) -> (r: usize)
    requires
        hydraulic_step > 0,
        t + hydraulic_step <= usize::MAX,
    ensures
        t < r <= t + hydraulic_step,
        forall|i: int| 0 <= i < candidates@.len() && candidates@[i] > t ==> r <= candidates@[i],
        r == t + hydraulic_step || exists|i: int| 0 <= i < candidates@.len() && candidates@[i]
            == r,
{
    let mut best: usize = t + hydraulic_step;
    let n = candidates.len();
    let mut i: usize = 0;
    while i < n
        invariant
            n == candidates@.len(),
            0 <= i <= n,
            t < best <= t + hydraulic_step,
            forall|j: int| 0 <= j < i && candidates@[j] > t ==> best <= candidates@[j],
            best == t + hydraulic_step || exists|j: int|
                0 <= j < candidates@.len() && candidates@[j] == best,
        decreases n - i,
    {
        let c = candidates[i];
        if c > t && c < best {
            best = c;
        }
        i += 1;
    }
    best
}

} // verus!
