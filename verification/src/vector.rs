//! Positions and velocities as exact bit patterns.

use vstd::prelude::*;

verus! {

/// A point or a displacement in three dimensions.
///
/// Each coordinate is the bit pattern of an IEEE 754 binary64 number. The
/// simulation never rounds or re-encodes a coordinate: it stores what a
/// subsystem produced and hands the same 64 bits back, so two positions are
/// equal exactly when they agree bit for bit.
#[derive(Clone, Copy, Debug, PartialEq, Eq, Structural, Hash)]
pub struct Vec3 {
    pub x: u64,
    pub y: u64,
    pub z: u64,
}

impl Vec3 {
    /// The vector with the given coordinate bit patterns.
    pub fn new(x: u64, y: u64, z: u64) -> (v: Vec3)
        ensures
            v == (Vec3 { x, y, z }),
    {
        Vec3 { x, y, z }
    }

    /// The origin: positive zero in every coordinate.
    pub open spec fn origin() -> Vec3 {
        Vec3 { x: 0, y: 0, z: 0 }
    }

    /// The origin, which is also the velocity of a body at rest.
    pub fn zero() -> (v: Vec3)
        ensures
            v == Vec3::origin(),
    {
        Vec3 { x: 0, y: 0, z: 0 }
    }
}

} // verus!
