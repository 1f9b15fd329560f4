//! Tests of the extended-period event timing.

use epanet_rs::solver::step::{
    next_control_time, next_event_time, next_pattern_change, pattern_index,
};

#[test]
fn pattern_lookup_wraps() {
    assert_eq!(pattern_index(0, 3600, 4), 0);
    assert_eq!(pattern_index(7200, 3600, 4), 2);
    assert_eq!(pattern_index(5 * 3600, 3600, 4), 1);
    assert_eq!(pattern_index(1800, 3600, 4), 0);
}

#[test]
fn pattern_changes_at_step_boundaries() {
    assert_eq!(next_pattern_change(0, 3600), 3600);
    assert_eq!(next_pattern_change(3599, 3600), 3600);
    assert_eq!(next_pattern_change(3600, 3600), 7200);
    assert_eq!(next_pattern_change(3700, 3600), 7200);
}

#[test]
fn timed_controls_fire_strictly_after_now() {
    // A control at 3600 s: before that time it is the next event; at
    // 3600 s it has fired and only later controls remain.
    let times = vec![3600, 7200];
    assert_eq!(next_control_time(&times, 0), 3600);
    assert_eq!(next_control_time(&times, 3599), 3600);
    assert_eq!(next_control_time(&times, 3600), 7200);
    assert_eq!(next_control_time(&times, 7200), usize::MAX);
    assert_eq!(next_control_time(&Vec::new(), 0), usize::MAX);
}

#[test]
fn next_event_takes_the_earliest_cause() {
    // A tank predicted to run dry at 1800 s cuts the hydraulic step.
    assert_eq!(next_event_time(0, 3600, &vec![usize::MAX, 1800]), 1800);
    // With nothing ahead the full hydraulic step is taken.
    assert_eq!(next_event_time(0, 3600, &Vec::new()), 3600);
    assert_eq!(next_event_time(0, 3600, &vec![usize::MAX]), 3600);
    // Candidates at or before the clock are spent events.
    assert_eq!(next_event_time(3600, 3600, &vec![3600, 5400]), 5400);
}
