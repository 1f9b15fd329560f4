//! Verified core of a steady-state / extended-period hydraulic solver for
//! pressurized pipe networks.
//!
//! The library holds the parts of the engine that are integer, string and
//! structural logic: input-line classification, time parsing, unit and valve
//! keyword parsing, the name-to-index tables of the network, the symbolic
//! CSC scaffolding of the GGA Jacobian with the per-link precomputed slot
//! indices, the layout arithmetic of the binary results file, and the
//! event-time computation of the extended-period loop.  The floating-point
//! numerics (headloss models, the Newton iteration itself, tank volumes and
//! unit conversion factors) cannot be verified and live outside the library.

pub mod error;
pub mod input;
pub mod model;
pub mod network;
pub mod solver;
pub mod utils;
