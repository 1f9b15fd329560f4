//! Tests of the plain model types.

use epanet_rs::error::InputError;
use epanet_rs::model::reservoir::Reservoir;
use epanet_rs::network::CSCIndex;

#[test]
fn reservoir_head_pattern_is_optional() {
    let plain = Reservoir { head_pattern: None };
    assert!(plain.head_pattern.is_none());
    let varying = Reservoir { head_pattern: Some(String::from("P1")) };
    assert_eq!(varying.head_pattern.as_deref(), Some("P1"));
}

#[test]
fn input_error_keeps_its_message() {
    let e = InputError::new(String::from("Invalid time value: abc"));
    assert_eq!(e.message, "Invalid time value: abc");
}

#[test]
fn csc_index_starts_empty() {
    let q = CSCIndex::default();
    assert!(q.diag_u.is_none());
    assert!(q.diag_v.is_none());
    assert!(q.off_diag_uv.is_none());
    assert!(q.off_diag_vu.is_none());
}
