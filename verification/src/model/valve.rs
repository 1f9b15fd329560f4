//! Valve kinds and valve status keywords.
//!
//! The valve's diameter, setting and loss coefficients are floating-point
//! data of the numeric layer; the library holds the discrete kinds and the
//! status keyword recognition.

use vstd::prelude::*;
use crate::utils::text::{eq_ignore_ascii_case, eq_nocase};

verus! {

/// The valve kinds of a network, each with its own active-state
/// constraint semantics.
#[derive(Debug, PartialEq, Eq, Structural, Clone, Copy)]
pub enum ValveType {
    /// Pressure Reducing Valve
    PRV,
    /// Pressure Sensing Valve
    PSV,
    /// Pressure Breaking Valve
    PBV,
    /// Flow Control Valve
    FCV,
    /// Throttle Control Valve
    TCV,
    /// Positional Control Valve
    PCV,
    /// General Purpose Valve
    GPV,
}

/// A valve's operating status.
#[derive(Debug, PartialEq, Eq, Structural, Clone, Copy)]
pub enum ValveStatus {
    Open,
    Closed,
    Active,
}

/// The valve status denoted by a keyword, compared without regard to
/// ASCII letter case; `None` for an unknown keyword.
pub open spec fn valve_status_of(s: Seq<char>) -> Option<ValveStatus> {
    if eq_nocase(s, "OPEN"@) {
        Some(ValveStatus::Open)
    } else if eq_nocase(s, "CLOSED"@) {
        Some(ValveStatus::Closed)
    } else if eq_nocase(s, "ACTIVE"@) {
        Some(ValveStatus::Active)
    } else {
        None
    }
}

impl ValveStatus {
    /// Recognize a valve status keyword.  Callers must hand in one of the
    /// three valid keywords; unverified callers have to check first, as an
    /// invalid keyword is a fatal input error.
    pub fn from_str(status: &str) -> (r: ValveStatus)
        requires
            valve_status_of(status@) is Some,
        ensures
            valve_status_of(status@) == Some(r),
    {
        if eq_ignore_ascii_case(status, "OPEN") {
            ValveStatus::Open
        } else if eq_ignore_ascii_case(status, "CLOSED") {
            ValveStatus::Closed
        } else {
            ValveStatus::Active
        }
    }
}

} // verus!
