//! Flow and pressure unit keywords of the `[OPTIONS]` section.
//!
//! Only the recognition of the keywords lives here; the conversion factors
//! to the internal CFS + feet basis are floating-point data and stay with
//! the numeric layer outside the library.

use vstd::prelude::*;
use vstd::string::StringExecFns;
use crate::utils::text::{eq_ignore_ascii_case, eq_nocase};

verus! {

/// Flow units a network file may declare; the internal basis is CFS.
#[derive(Debug, PartialEq, Eq, Structural, Clone, Copy)]
pub enum FlowUnits {
    /// Cubic feet per second
    CFS,
    /// Gallons per minute
    GMP,
    /// Million gallons per day
    MGD,
    /// Imperial million gallons per day
    IMGD,
    /// Acre-feet per day
    AFD,
    /// Liters per second
    LPS,
    /// Liters per minute
    LPM,
    /// Million liters per day
    MLD,
    /// Cubic meters per second
    CMS,
    /// Cubic meters per hour
    CMH,
    /// Cubic meters per day
    CMD,
}

/// Pressure units a network file may declare; the internal basis is feet
/// of head.
#[derive(Debug, PartialEq, Eq, Structural, Clone, Copy)]
pub enum PressureUnits {
    /// Pounds per square inch
    PSI,
    /// Kilopascals
    KPA,
    /// Meters
    METERS,
    /// Feet
    FEET,
    /// Bar
    BAR,
}

/// The two measurement systems; decides which length conversions apply.
#[derive(Debug, PartialEq, Eq, Structural, Clone, Copy)]
pub enum UnitSystem {
    /// US customary units
    US,
    /// International System of Units (metric)
    SI,
}

/// The flow unit denoted by a keyword, compared without regard to ASCII
/// letter case; `None` for an unknown keyword.
pub open spec fn flow_units_of(s: Seq<char>) -> Option<FlowUnits> {
    if eq_nocase(s, "CFS"@) {
        Some(FlowUnits::CFS)
    } else if eq_nocase(s, "GMP"@) {
        Some(FlowUnits::GMP)
    } else if eq_nocase(s, "MGD"@) {
        Some(FlowUnits::MGD)
    } else if eq_nocase(s, "IMGD"@) {
        Some(FlowUnits::IMGD)
    } else if eq_nocase(s, "AFD"@) {
        Some(FlowUnits::AFD)
    } else if eq_nocase(s, "LPS"@) {
        Some(FlowUnits::LPS)
    } else if eq_nocase(s, "LPM"@) {
        Some(FlowUnits::LPM)
    } else if eq_nocase(s, "MLD"@) {
        Some(FlowUnits::MLD)
    } else if eq_nocase(s, "CMS"@) {
        Some(FlowUnits::CMS)
    } else if eq_nocase(s, "CMH"@) {
        Some(FlowUnits::CMH)
    } else if eq_nocase(s, "CMD"@) {
        Some(FlowUnits::CMD)
    } else {
        None
    }
}

/// The pressure unit denoted by a keyword, compared without regard to
/// ASCII letter case; `None` for an unknown keyword.
pub open spec fn pressure_units_of(s: Seq<char>) -> Option<PressureUnits> {
    if eq_nocase(s, "PSI"@) {
        Some(PressureUnits::PSI)
    } else if eq_nocase(s, "KPA"@) {
        Some(PressureUnits::KPA)
    } else if eq_nocase(s, "METERS"@) {
        Some(PressureUnits::METERS)
    } else if eq_nocase(s, "FEET"@) {
        Some(PressureUnits::FEET)
    } else if eq_nocase(s, "BAR"@) {
        Some(PressureUnits::BAR)
    } else {
        None
    }
}

impl FlowUnits {
    /// Recognize a flow unit keyword; exactly the keywords with a defined
    /// [`flow_units_of`] value are accepted.
    pub fn from_str(s: &str) -> (r: Result<FlowUnits, String>)
        ensures
            r is Ok <==> flow_units_of(s@) is Some,
            r matches Ok(u) ==> flow_units_of(s@) == Some(u),
    {
        if eq_ignore_ascii_case(s, "CFS") {
            Ok(FlowUnits::CFS)
        } else if eq_ignore_ascii_case(s, "GMP") {
            Ok(FlowUnits::GMP)
        } else if eq_ignore_ascii_case(s, "MGD") {
            Ok(FlowUnits::MGD)
        } else if eq_ignore_ascii_case(s, "IMGD") {
            Ok(FlowUnits::IMGD)
        } else if eq_ignore_ascii_case(s, "AFD") {
            Ok(FlowUnits::AFD)
        } else if eq_ignore_ascii_case(s, "LPS") {
            Ok(FlowUnits::LPS)
        } else if eq_ignore_ascii_case(s, "LPM") {
            Ok(FlowUnits::LPM)
        } else if eq_ignore_ascii_case(s, "MLD") {
            Ok(FlowUnits::MLD)
        } else if eq_ignore_ascii_case(s, "CMS") {
            Ok(FlowUnits::CMS)
        } else if eq_ignore_ascii_case(s, "CMH") {
            Ok(FlowUnits::CMH)
        } else if eq_ignore_ascii_case(s, "CMD") {
            Ok(FlowUnits::CMD)
        } else {
            Err(String::from_str("Invalid flow unit: ").concat(s))
        }
    }
}

impl PressureUnits {
    /// Recognize a pressure unit keyword; exactly the keywords with a
    /// defined [`pressure_units_of`] value are accepted.
    pub fn from_str(s: &str) -> (r: Result<PressureUnits, String>)
        ensures
            r is Ok <==> pressure_units_of(s@) is Some,
            r matches Ok(u) ==> pressure_units_of(s@) == Some(u),
    {
        if eq_ignore_ascii_case(s, "PSI") {
            Ok(PressureUnits::PSI)
        } else if eq_ignore_ascii_case(s, "KPA") {
            Ok(PressureUnits::KPA)
        } else if eq_ignore_ascii_case(s, "METERS") {
            Ok(PressureUnits::METERS)
        } else if eq_ignore_ascii_case(s, "FEET") {
            Ok(PressureUnits::FEET)
        } else if eq_ignore_ascii_case(s, "BAR") {
            Ok(PressureUnits::BAR)
        } else {
            Err(String::from_str("Invalid pressure unit: ").concat(s))
        }
    }
}

} // verus!
