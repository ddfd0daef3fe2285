//! Scalars and points.
//!
//! A scalar is an IEEE-754 single-precision number carried as its bit
//! pattern: the joint model stores and compares scalars, and classifies them
//! (finite, negative), but never computes with them.

use vstd::prelude::*;

verus! {

/// Bit pattern of the sign of a scalar.
pub const SIGN_BIT: u32 = 0x8000_0000;

/// Bit pattern of positive infinity: every exponent bit set, no mantissa bit.
pub const INFINITY_BITS: u32 = 0x7F80_0000;

/// Bit pattern of `0.0`.
pub const ZERO_BITS: u32 = 0;

/// Bit pattern of the largest finite scalar.
pub const MAX_BITS: u32 = 0x7F7F_FFFF;

/// Bit pattern of the smallest finite scalar, the negation of the largest.
pub const MIN_BITS: u32 = 0xFF7F_FFFF;

/// A single-precision scalar, held as its IEEE-754 bit pattern.
///
/// Equality is equality of bit patterns: `0.0` and `-0.0` are different
/// values, and a NaN equals itself.
#[derive(Clone, Copy, Debug, PartialEq, Eq, Hash, Structural)]
pub struct Real {
    pub bits: u32,
}

impl Real {
    /// The bit pattern without its sign bit: exponent and mantissa.
    pub open spec fn magnitude(self) -> int {
        if self.bits >= SIGN_BIT {
            self.bits - SIGN_BIT
        } else {
            self.bits as int
        }
    }

    /// The sign bit is set (true of `-0.0` and of negative NaNs too).
    pub open spec fn spec_is_sign_negative(self) -> bool {
        self.bits >= SIGN_BIT
    }

    /// Not a number: every exponent bit set and some mantissa bit set.
    pub open spec fn spec_is_nan(self) -> bool {
        self.magnitude() > INFINITY_BITS
    }

    /// Neither infinite nor NaN: some exponent bit is clear.
    pub open spec fn spec_is_finite(self) -> bool {
        self.magnitude() < INFINITY_BITS
    }

    /// `0.0` or `-0.0`.
    pub open spec fn spec_is_zero(self) -> bool {
        self.magnitude() == 0
    }

    /// The scalar compares greater than or equal to zero: it is no NaN, and
    /// it is a zero of either sign or has its sign bit clear.
    pub open spec fn spec_is_non_negative(self) -> bool {
        !self.spec_is_nan() && (self.spec_is_zero() || !self.spec_is_sign_negative())
    }

    /// The scalar `0.0`.
    pub open spec fn spec_zero() -> Real {
        Real { bits: ZERO_BITS }
    }

    /// The largest finite scalar.
    pub open spec fn spec_max_value() -> Real {
        Real { bits: MAX_BITS }
    }

    /// The smallest finite scalar.
    pub open spec fn spec_min_value() -> Real {
        Real { bits: MIN_BITS }
    }

    /// The scalar with the given bit pattern.
    pub fn from_bits(bits: u32) -> (r: Real)
        ensures
            r.bits == bits,
    {
        Real { bits }
    }

    /// The bit pattern of the scalar.
    pub fn to_bits(self) -> (bits: u32)
        ensures
            bits == self.bits,
    {
        self.bits
    }

    /// The scalar `0.0`.
    #[verifier::when_used_as_spec(spec_zero)]
    pub fn zero() -> (r: Real)
        ensures
            r == Real::spec_zero(),
    {
        Real { bits: ZERO_BITS }
    }

    /// The largest finite scalar.
    #[verifier::when_used_as_spec(spec_max_value)]
    pub fn max_value() -> (r: Real)
        ensures
            r == Real::spec_max_value(),
    {
        Real { bits: MAX_BITS }
    }

    /// The smallest finite scalar.
    #[verifier::when_used_as_spec(spec_min_value)]
    pub fn min_value() -> (r: Real)
        ensures
            r == Real::spec_min_value(),
    {
        Real { bits: MIN_BITS }
    }

    /// The bit pattern without its sign bit.
    fn magnitude_bits(self) -> (m: u32)
        ensures
            m == self.magnitude(),
    {
        let bits: u32 = self.bits;
        assert(bits & 0x7FFF_FFFFu32 == if bits >= 0x8000_0000u32 {
            (bits - 0x8000_0000u32) as u32
        } else {
            bits
        }) by (bit_vector);
        bits & 0x7FFF_FFFF
    }

    /// Whether the sign bit is set.
    #[verifier::when_used_as_spec(spec_is_sign_negative)]
    pub fn is_sign_negative(self) -> (r: bool)
        ensures
            r == self.spec_is_sign_negative(),
    {
        self.bits >= SIGN_BIT
    }

    /// Whether the scalar is not a number.
    #[verifier::when_used_as_spec(spec_is_nan)]
    pub fn is_nan(self) -> (r: bool)
        ensures
            r == self.spec_is_nan(),
    {
        self.magnitude_bits() > INFINITY_BITS
    }

    /// Whether the scalar is neither infinite nor not a number.
    #[verifier::when_used_as_spec(spec_is_finite)]
    pub fn is_finite(self) -> (r: bool)
        ensures
            r == self.spec_is_finite(),
    {
        self.magnitude_bits() < INFINITY_BITS
    }

    /// Whether the scalar is `0.0` or `-0.0`.
    #[verifier::when_used_as_spec(spec_is_zero)]
    pub fn is_zero(self) -> (r: bool)
        ensures
            r == self.spec_is_zero(),
    {
        self.magnitude_bits() == 0
    }

    /// Whether the scalar compares greater than or equal to zero.
    #[verifier::when_used_as_spec(spec_is_non_negative)]
    pub fn is_non_negative(self) -> (r: bool)
        ensures
            r == self.spec_is_non_negative(),
    {
        let m: u32 = self.magnitude_bits();
        m <= INFINITY_BITS && (m == 0 || self.bits < SIGN_BIT)
    }
}

/// A point in the local frame of a rigid body.
#[derive(Clone, Copy, Debug, PartialEq, Eq, Hash, Structural)]
pub struct Point {
    pub x: Real,
    pub y: Real,
    pub z: Real,
}

impl Point {
    /// The origin of a local frame.
    pub open spec fn spec_origin() -> Point {
        Point { x: Real::spec_zero(), y: Real::spec_zero(), z: Real::spec_zero() }
    }

    /// All three coordinates are finite.
    pub open spec fn spec_is_finite(self) -> bool {
        self.x.spec_is_finite() && self.y.spec_is_finite() && self.z.spec_is_finite()
    }

    /// The point with the given coordinates.
    pub fn new(x: Real, y: Real, z: Real) -> (p: Point)
        ensures
            p == (Point { x, y, z }),
    {
        Point { x, y, z }
    }

    /// The origin of a local frame.
    #[verifier::when_used_as_spec(spec_origin)]
    pub fn origin() -> (p: Point)
        ensures
            p == Point::spec_origin(),
    {
        Point { x: Real::zero(), y: Real::zero(), z: Real::zero() }
    }

    /// Whether all three coordinates are finite.
    #[verifier::when_used_as_spec(spec_is_finite)]
    pub fn is_finite(self) -> (r: bool)
        ensures
            r == self.spec_is_finite(),
    {
        self.x.is_finite() && self.y.is_finite() && self.z.is_finite()
    }
}

} // verus!
