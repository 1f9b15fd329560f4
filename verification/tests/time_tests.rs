//! Tests of the time-string parser.

use epanet_rs::utils::time::parse_time_str;

#[test]
fn test_hhmm_am_pm() {
    assert_eq!(parse_time_str("12:00", Some("AM")).unwrap(), 0);
    assert_eq!(parse_time_str("12:00", Some("PM")).unwrap(), 12 * 3600);
    assert_eq!(parse_time_str("1:30", Some("AM")).unwrap(), 1 * 3600 + 30 * 60);
    assert_eq!(parse_time_str("1:30", Some("PM")).unwrap(), 13 * 3600 + 30 * 60);
    assert_eq!(parse_time_str("11:59", Some("PM")).unwrap(), 23 * 3600 + 59 * 60);
}

#[test]
fn test_hhmm_no_suffix() {
    assert_eq!(parse_time_str("10:15", None).unwrap(), 10 * 3600 + 15 * 60);
    assert_eq!(parse_time_str("0:45", None).unwrap(), 45 * 60);
}

#[test]
fn test_numeric_with_units() {
    assert_eq!(parse_time_str("2", Some("HOURS")).unwrap(), 2 * 3600);
    assert_eq!(parse_time_str("15", Some("MIN")).unwrap(), 15 * 60);
    assert_eq!(parse_time_str("30", Some("SEC")).unwrap(), 30);
    assert_eq!(parse_time_str("1", Some("DAY")).unwrap(), 86_400);
}

#[test]
fn test_numeric_am_pm() {
    assert_eq!(parse_time_str("12", Some("AM")).unwrap(), 0);
    assert_eq!(parse_time_str("12", Some("PM")).unwrap(), 12 * 3600);
    assert_eq!(parse_time_str("1", Some("AM")).unwrap(), 1 * 3600);
    assert_eq!(parse_time_str("1", Some("PM")).unwrap(), 13 * 3600);
}

#[test]
fn test_default_unit_is_hours() {
    assert_eq!(parse_time_str("3", None).unwrap(), 3 * 3600);
}

#[test]
fn test_invalid_inputs() {
    assert!(parse_time_str("abc", None).is_err());
    assert!(parse_time_str("10", Some("WEEKS")).is_err());
    assert!(parse_time_str("xx:yy", None).is_err());
}

#[test]
fn test_singular_and_lowercase_units() {
    assert_eq!(parse_time_str("2", Some("hour")).unwrap(), 2 * 3600);
    assert_eq!(parse_time_str("2", Some("Hours")).unwrap(), 2 * 3600);
    assert_eq!(parse_time_str("90", Some("seconds")).unwrap(), 90);
    assert_eq!(parse_time_str("5", Some("MINUTES")).unwrap(), 5 * 60);
    assert_eq!(parse_time_str("2", Some("DAYS")).unwrap(), 2 * 86_400);
}

#[test]
fn test_hhmm_edge_cases() {
    // A second colon ends the minutes field; anything after it is ignored.
    assert_eq!(parse_time_str("1:2:3", None).unwrap(), 1 * 3600 + 2 * 60);
    // Minutes beyond 59 are taken at face value.
    assert_eq!(parse_time_str("0:99", None).unwrap(), 99 * 60);
    // A missing minutes field is rejected.
    assert!(parse_time_str("10:", None).is_err());
    assert!(parse_time_str(":30", None).is_err());
    // A non-AM/PM suffix leaves the hours alone.
    assert_eq!(parse_time_str("10:15", Some("HOURS")).unwrap(), 10 * 3600 + 15 * 60);
}

#[test]
fn test_out_of_range_values() {
    // Totals beyond usize are rejected rather than wrapped.
    assert!(parse_time_str("18446744073709551615", Some("HOURS")).is_err());
    assert!(parse_time_str("99999999999999999999999", None).is_err());
    assert!(parse_time_str("9999999999999999:00", None).is_err());
    assert_eq!(parse_time_str("18446744073709551615", Some("SEC")).unwrap(), usize::MAX);
}
