//! Numbers and vectors as the library carries them.

use vstd::prelude::*;

verus! {

/// A single-precision number, held by its IEEE 754 bit pattern.
///
/// The library carries such numbers between the component store and the
/// backend and never computes with them. It only asks whether a number is
/// finite, and it can build the number zero.
#[derive(Clone, Copy, Debug, PartialEq, Eq, Structural)]
pub struct Scalar {
    pub bits: u32,
}

impl Scalar {
    /// The biased exponent: bits 23 to 30 of the pattern.
    pub open spec fn exponent(self) -> int {
        (self.bits as int / 0x80_0000) % 0x100
    }

    /// A number is finite unless all bits of its exponent are set, which
    /// marks the infinities and the NaNs.
    pub open spec fn finite(self) -> bool {
        self.exponent() != 0xff
    }

    /// Positive zero.
    pub open spec fn zero_spec() -> Scalar {
        Scalar { bits: 0 }
    }

    pub fn from_bits(bits: u32) -> (r: Scalar)
        ensures
            r.bits == bits,
    {
        Scalar { bits }
    }

    pub fn to_bits(self) -> (r: u32)
        ensures
            r == self.bits,
    {
        self.bits
    }

    #[verifier::when_used_as_spec(zero_spec)]
    pub fn zero() -> (r: Scalar)
        ensures
            r == Scalar::zero_spec(),
            r.finite(),
    {
        Scalar { bits: 0 }
    }

    pub fn is_finite(self) -> (r: bool)
        ensures
            r == self.finite(),
    {
        let bits: u32 = self.bits;
        assert((bits & 0x7f80_0000u32 != 0x7f80_0000u32) == ((bits as int / 0x80_0000) % 0x100
            != 0xff)) by (bit_vector);
        bits & 0x7f80_0000u32 != 0x7f80_0000u32
    }
}

/// A vector of the plane.
#[derive(Clone, Copy, Debug, PartialEq, Eq, Structural)]
pub struct Vec2 {
    pub x: Scalar,
    pub y: Scalar,
}

impl Vec2 {
    /// Both coordinates are finite.
    pub open spec fn finite(self) -> bool {
        self.x.finite() && self.y.finite()
    }

    pub open spec fn zero_spec() -> Vec2 {
        Vec2 { x: Scalar::zero_spec(), y: Scalar::zero_spec() }
    }

    pub fn new(x: Scalar, y: Scalar) -> (r: Vec2)
        ensures
            r == (Vec2 { x, y }),
    {
        Vec2 { x, y }
    }

    #[verifier::when_used_as_spec(zero_spec)]
    pub fn zero() -> (r: Vec2)
        ensures
            r == Vec2::zero_spec(),
            r.finite(),
    {
        Vec2 { x: Scalar::zero(), y: Scalar::zero() }
    }

    pub fn is_finite(self) -> (r: bool)
        ensures
            r == self.finite(),
    {
        self.x.is_finite() && self.y.is_finite()
    }
}

} // verus!
