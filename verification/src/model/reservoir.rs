//! A reservoir: a node whose head is fixed, possibly varying with a
//! pattern.

use vstd::prelude::*;

verus! {

/// A reservoir holds no state of its own beyond an optional head pattern:
/// its fixed head is the node's elevation.
#[derive(Debug)]
pub struct Reservoir {
    /// Identifier of the pattern that scales the reservoir's head over
    /// time, when one is given.
    pub head_pattern: Option<String>,
}

} // verus!
