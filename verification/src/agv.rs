//! The vehicle profile: kinematic and geometric parameters of the AGV,
//! loaded once from a vehicle specification and shared read-only by all
//! cost and conflict computations.
//!
//! All quantities are integers in the caller-chosen fixed-point units:
//! lengths in coordinate units, speeds in coordinate units per tick.

use vstd::prelude::*;

verus! {

/// Kinematic and geometric limits of the vehicle. The acceleration,
/// deceleration and height bounds are parsed and kept for forward
/// compatibility but are not referenced by the cost or conflict model.
#[derive(Debug, Clone, Copy, PartialEq, Eq, Structural)]
pub struct PhysicalParameters {
    pub speed_min: u64,
    pub speed_max: u64,
    pub acceleration_max: u64,
    pub deceleration_max: u64,
    pub height_min: i64,
    pub height_max: i64,
    pub width: u64,
    pub length: u64,
}

/// The automated guided vehicle whose routes are planned.
#[derive(Debug, Clone, Copy, PartialEq, Eq, Structural)]
pub struct AGV {
    pub physical_parameters: PhysicalParameters,
}

} // verus!
