//! Numbers as this crate carries them.
//!
//! Coordinates, colours and matrix entries are single-precision values. The
//! crate never computes with them: it stores each one by its IEEE 754 bit
//! pattern, chooses which one goes where, and hands them back to the host.

use vstd::prelude::*;

verus! {

/// Bit pattern of the number zero.
pub const ZERO_BITS: u32 = 0;

/// A single-precision number, held by its bit pattern.
#[derive(Clone, Copy, Debug, PartialEq, Eq, Structural)]
pub struct Scalar {
    pub bits: u32,
}

impl Scalar {
    /// The number whose bit pattern is `bits`.
    pub fn from_bits(bits: u32) -> (s: Self)
        ensures
            s == (Scalar { bits }),
    {
        Scalar { bits }
    }

    /// Zero.
    pub fn zero() -> (s: Self)
        ensures
            s == (Scalar { bits: ZERO_BITS }),
    {
        Scalar { bits: ZERO_BITS }
    }
}

/// Two numbers: a texture coordinate.
#[derive(Clone, Copy, Debug, PartialEq, Eq, Structural)]
pub struct Vec2 {
    pub x: Scalar,
    pub y: Scalar,
}

impl Vec2 {
    /// The origin.
    pub open spec fn zero_spec() -> Vec2 {
        Vec2 { x: Scalar { bits: ZERO_BITS }, y: Scalar { bits: ZERO_BITS } }
    }

    /// The origin.
    pub fn zero() -> (v: Self)
        ensures
            v == Self::zero_spec(),
    {
        Vec2 { x: Scalar::zero(), y: Scalar::zero() }
    }
}

/// Three numbers: a point, a direction, a colour, or a triple of angles.
#[derive(Clone, Copy, Debug, PartialEq, Eq, Structural)]
pub struct Vec3 {
    pub x: Scalar,
    pub y: Scalar,
    pub z: Scalar,
}

impl Vec3 {
    /// The origin.
    pub open spec fn zero_spec() -> Vec3 {
        Self::splat_spec(ZERO_BITS)
    }

    /// The vector whose three components all have the bit pattern `bits`.
    pub open spec fn splat_spec(bits: u32) -> Vec3 {
        Vec3 { x: Scalar { bits }, y: Scalar { bits }, z: Scalar { bits } }
    }

    /// The origin.
    pub fn zero() -> (v: Self)
        ensures
            v == Self::zero_spec(),
    {
        Self::splat(ZERO_BITS)
    }

    /// The vector whose three components all have the bit pattern `bits`.
    pub fn splat(bits: u32) -> (v: Self)
        ensures
            v == Self::splat_spec(bits),
    {
        Vec3 { x: Scalar { bits }, y: Scalar { bits }, z: Scalar { bits } }
    }
}

/// A 4x4 matrix, one field per entry: the letter is the row, the digit the
/// column.
#[derive(Clone, Copy, Debug, PartialEq, Eq, Structural)]
pub struct Mat4 {
    pub a1: Scalar,
    pub a2: Scalar,
    pub a3: Scalar,
    pub a4: Scalar,
    pub b1: Scalar,
    pub b2: Scalar,
    pub b3: Scalar,
    pub b4: Scalar,
    pub c1: Scalar,
    pub c2: Scalar,
    pub c3: Scalar,
    pub c4: Scalar,
    pub d1: Scalar,
    pub d2: Scalar,
    pub d3: Scalar,
    pub d4: Scalar,
}

} // verus!
