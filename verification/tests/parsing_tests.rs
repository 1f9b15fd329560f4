//! Tests of keyword recognition, line classification and the text
//! helpers.

use epanet_rs::input::{classify_line, InpLine, InpSection};
use epanet_rs::model::units::{FlowUnits, PressureUnits};
use epanet_rs::model::valve::{ValveStatus, ValveType};
use epanet_rs::utils::text::{eq_ignore_ascii_case, find_char_from, parse_usize, str_eq};

#[test]
fn flow_units_keywords() {
    assert_eq!(FlowUnits::from_str("CFS").unwrap(), FlowUnits::CFS);
    assert_eq!(FlowUnits::from_str("gmp").unwrap(), FlowUnits::GMP);
    assert_eq!(FlowUnits::from_str("Mgd").unwrap(), FlowUnits::MGD);
    assert_eq!(FlowUnits::from_str("IMGD").unwrap(), FlowUnits::IMGD);
    assert_eq!(FlowUnits::from_str("AFD").unwrap(), FlowUnits::AFD);
    assert_eq!(FlowUnits::from_str("LPS").unwrap(), FlowUnits::LPS);
    assert_eq!(FlowUnits::from_str("LPM").unwrap(), FlowUnits::LPM);
    assert_eq!(FlowUnits::from_str("MLD").unwrap(), FlowUnits::MLD);
    assert_eq!(FlowUnits::from_str("CMS").unwrap(), FlowUnits::CMS);
    assert_eq!(FlowUnits::from_str("CMH").unwrap(), FlowUnits::CMH);
    assert_eq!(FlowUnits::from_str("CMD").unwrap(), FlowUnits::CMD);
    assert!(FlowUnits::from_str("GALLONS").is_err());
    assert!(FlowUnits::from_str("").is_err());
}

#[test]
fn pressure_units_keywords() {
    assert_eq!(PressureUnits::from_str("PSI").unwrap(), PressureUnits::PSI);
    assert_eq!(PressureUnits::from_str("kpa").unwrap(), PressureUnits::KPA);
    assert_eq!(PressureUnits::from_str("Meters").unwrap(), PressureUnits::METERS);
    assert_eq!(PressureUnits::from_str("FEET").unwrap(), PressureUnits::FEET);
    assert_eq!(PressureUnits::from_str("BAR").unwrap(), PressureUnits::BAR);
    assert!(PressureUnits::from_str("PASCAL").is_err());
}

#[test]
fn valve_status_keywords() {
    assert_eq!(ValveStatus::from_str("OPEN"), ValveStatus::Open);
    assert_eq!(ValveStatus::from_str("closed"), ValveStatus::Closed);
    assert_eq!(ValveStatus::from_str("Active"), ValveStatus::Active);
    assert_ne!(ValveType::PRV, ValveType::GPV);
}

#[test]
fn line_classification() {
    assert_eq!(classify_line(""), InpLine::Blank);
    assert_eq!(classify_line("; a comment"), InpLine::Blank);
    assert_eq!(classify_line("[JUNCTIONS]"), InpLine::Section(InpSection::Junctions));
    assert_eq!(classify_line("[PIPES]"), InpLine::Section(InpSection::Pipes));
    assert_eq!(classify_line("[RESERVOIRS]"), InpLine::Section(InpSection::Reservoirs));
    assert_eq!(classify_line("[OPTIONS]"), InpLine::Section(InpSection::Other));
    assert_eq!(classify_line("[junctions]"), InpLine::Section(InpSection::Other));
    assert_eq!(classify_line("J1  100  0.5"), InpLine::Data);
}

#[test]
fn decimal_parsing() {
    assert_eq!(parse_usize("0"), Some(0));
    assert_eq!(parse_usize("12"), Some(12));
    assert_eq!(parse_usize("+12"), Some(12));
    assert_eq!(parse_usize("18446744073709551615"), Some(usize::MAX));
    assert_eq!(parse_usize("18446744073709551616"), None);
    assert_eq!(parse_usize(""), None);
    assert_eq!(parse_usize("+"), None);
    assert_eq!(parse_usize("1.5"), None);
    assert_eq!(parse_usize("-3"), None);
}

#[test]
fn text_helpers() {
    assert!(eq_ignore_ascii_case("hours", "HOURS"));
    assert!(eq_ignore_ascii_case("PsI", "psi"));
    assert!(!eq_ignore_ascii_case("HOUR", "HOURS"));
    assert!(str_eq("abc", "abc"));
    assert!(!str_eq("abc", "abd"));
    assert_eq!(find_char_from("a:b:c", ':', 0), Some(1));
    assert_eq!(find_char_from("a:b:c", ':', 2), Some(3));
    assert_eq!(find_char_from("abc", ':', 0), None);
}
