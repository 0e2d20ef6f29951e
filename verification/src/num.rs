//! Numeric values carried by document entries.
//!
//! Entries hold either an integer or a floating-point literal.  The binder
//! never does arithmetic on these values — it only copies them into
//! descriptors and applies defaults — so a float is carried as its IEEE-754
//! double bit pattern and interpreted only by the consumer of the bound
//! level.

use vstd::prelude::*;

verus! {

/// Bits of the double-precision value 64.0, the default text point size.
pub const BITS_64_0: u64 = 0x4050_0000_0000_0000;

/// Bits of the double-precision value 0.25, the default dynamic-object size.
pub const BITS_0_25: u64 = 0x3FD0_0000_0000_0000;

/// A numeric scalar read from a document entry: either an integer literal or
/// a floating-point literal carried as its IEEE-754 double bit pattern.
#[derive(Debug, Clone, Copy, PartialEq, Eq, Structural)]
pub enum Number {
    Int(i64),
    Float(u64),
}

/// A triple of numeric components, standing for a 3-vector.
#[derive(Debug, Clone, Copy, PartialEq, Eq, Structural)]
pub struct Vec3 {
    pub x: Number,
    pub y: Number,
    pub z: Number,
}

impl Vec3 {
    /// The vector with all three components set to the same value.
    pub fn splat(n: Number) -> (v: Vec3)
        ensures
            v == (Vec3 { x: n, y: n, z: n }),
    {
        Vec3 { x: n, y: n, z: n }
    }

    /// The zero vector, the default translation.
    pub fn zero() -> (v: Vec3)
        ensures
            v == Vec3::spec_zero(),
    {
        Vec3 { x: Number::Int(0), y: Number::Int(0), z: Number::Int(0) }
    }

    /// The all-ones vector, the default scale.
    pub fn one() -> (v: Vec3)
        ensures
            v == Vec3::spec_one(),
    {
        Vec3 { x: Number::Int(1), y: Number::Int(1), z: Number::Int(1) }
    }

    pub open spec fn spec_zero() -> Vec3 {
        Vec3 { x: Number::Int(0), y: Number::Int(0), z: Number::Int(0) }
    }

    pub open spec fn spec_one() -> Vec3 {
        Vec3 { x: Number::Int(1), y: Number::Int(1), z: Number::Int(1) }
    }
}

} // verus!
