//! Dimensioned newtypes over the fixed-point numbers.
//!
//! Each carries a `UNum` or `INum` and exists only to keep millimetres,
//! microns-per-step, degrees-per-step and speeds from being mixed up.

use vstd::prelude::*;

use crate::fixnum::{INum, UNum};

verus! {

/// An unsigned length in millimetres.
#[derive(Clone, Copy, Debug, PartialEq, Eq, Structural)]
pub struct UMillimeters(pub UNum);

/// A signed length in millimetres.
#[derive(Clone, Copy, Debug, PartialEq, Eq, Structural)]
pub struct IMillimeters(pub INum);

/// A machine coordinate: a non-negative distance from the axis origin.
#[derive(Clone, Copy, Debug, PartialEq, Eq, Structural)]
pub struct Coord(pub UMillimeters);

/// Axis resolution for distance axes: microns travelled per motor step.
#[derive(Clone, Copy, Debug, PartialEq, Eq, Structural)]
pub struct MicronsPerStep(pub UNum);

/// Axis resolution for rotary axes: degrees turned per motor step.
#[derive(Clone, Copy, Debug, PartialEq, Eq, Structural)]
pub struct DegreesPerStep(pub UNum);

/// A speed in millimetres per second.
#[derive(Clone, Copy, Debug, PartialEq, Eq, Structural)]
pub struct MillimetersPerSecond(pub UNum);

/// An acceleration in millimetres per second squared.
#[derive(Clone, Copy, Debug, PartialEq, Eq, Structural)]
pub struct MillimetersPerSecondSquared(pub UNum);

impl Coord {
    /// The origin.
    pub fn zero() -> (r: Coord)
        ensures
            r.0.0.bits == 0,
    {
        Coord(UMillimeters(UNum { bits: 0 }))
    }
}

} // verus!
