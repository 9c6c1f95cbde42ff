//! Single-precision numbers as bit patterns.
//!
//! A [`Scalar`] is an IEEE-754 binary32 number held as its 32 bits: one sign
//! bit, eight bits of biased exponent and twenty-three bits of fraction. A
//! finite scalar stands for `(-1)^sign * significand * 2^exponent`, with the
//! significand and the exponent read off the bits as below. Everything the
//! library computes is stated over this reading.
use vstd::prelude::*;

verus! {

/// The bit that holds the sign.
pub const SIGN_BIT: u32 = 0x8000_0000;

/// The bits of positive infinity; every larger magnitude is a NaN.
pub const INFINITY_BITS: u32 = 0x7f80_0000;

/// The bits of the NaN that arithmetic hands out.
pub const NAN_BITS: u32 = 0x7fc0_0000;

/// The implicit leading bit of a normal significand, `2^23`.
pub const HIDDEN_BIT: u32 = 0x0080_0000;

/// The bits of `1.0`.
pub const ONE_BITS: u32 = 0x3f80_0000;

/// A single-precision number, by its bit pattern.
#[derive(Clone, Copy, PartialEq, Eq, Structural, Debug)]
pub struct Scalar {
    pub bits: u32,
}

impl Scalar {
    /// The sign bit is set. True of `-0.0` and of NaNs with the bit set.
    pub open spec fn negative(self) -> bool {
        self.bits >= SIGN_BIT
    }

    /// The bits without the sign.
    pub open spec fn magnitude(self) -> nat {
        if self.bits >= SIGN_BIT {
            (self.bits - SIGN_BIT) as nat
        } else {
            self.bits as nat
        }
    }

    /// No number: the exponent bits are all set and the fraction is not zero.
    pub open spec fn nan(self) -> bool {
        self.magnitude() > INFINITY_BITS
    }

    /// Positive or negative infinity.
    pub open spec fn infinite(self) -> bool {
        self.magnitude() == INFINITY_BITS
    }

    /// A number that is not infinite: zero, subnormal or normal.
    pub open spec fn finite(self) -> bool {
        self.magnitude() < INFINITY_BITS
    }

    /// Positive or negative zero.
    pub open spec fn zero(self) -> bool {
        self.magnitude() == 0
    }

    /// The eight exponent bits, as a number from 0 to 255.
    pub open spec fn biased_exponent(self) -> nat {
        self.magnitude() / (HIDDEN_BIT as nat)
    }

    /// The twenty-three fraction bits.
    pub open spec fn fraction(self) -> nat {
        self.magnitude() % (HIDDEN_BIT as nat)
    }

    /// The integer `m` of the reading `m * 2^e` of a finite scalar.
    pub open spec fn significand(self) -> nat {
        if self.biased_exponent() == 0 {
            self.fraction()
        } else {
            self.fraction() + HIDDEN_BIT as nat
        }
    }

    /// The exponent `e` of the reading `m * 2^e` of a finite scalar.
    pub open spec fn exponent(self) -> int {
        if self.biased_exponent() == 0 {
            -149
        } else {
            self.biased_exponent() - 150
        }
    }

    /// The significand with the sign applied.
    pub open spec fn signed_significand(self) -> int {
        if self.negative() {
            -(self.significand() as int)
        } else {
            self.significand() as int
        }
    }

    /// An integer that orders the scalars that are no NaN as their values
    /// are ordered; both zeros get 0.
    pub open spec fn order_key(self) -> int {
        if self.negative() {
            -(self.magnitude() as int)
        } else {
            self.magnitude() as int
        }
    }

    /// `self < other` as IEEE-754 defines it: false when either is a NaN.
    pub open spec fn less_than(self, other: Scalar) -> bool {
        !self.nan() && !other.nan() && self.order_key() < other.order_key()
    }

    /// `self == other` as IEEE-754 defines it: the zeros are equal, a NaN
    /// equals nothing.
    pub open spec fn same_number(self, other: Scalar) -> bool {
        !self.nan() && !other.nan() && self.order_key() == other.order_key()
    }

    /// Zero with the given sign.
    pub open spec fn signed_zero(negative: bool) -> Scalar {
        Scalar { bits: if negative { SIGN_BIT } else { 0 } }
    }

    /// Infinity with the given sign.
    pub open spec fn signed_infinity(negative: bool) -> Scalar {
        Scalar { bits: if negative { 0xff80_0000 } else { INFINITY_BITS } }
    }

    /// The NaN that arithmetic hands out.
    pub open spec fn canonical_nan() -> Scalar {
        Scalar { bits: NAN_BITS }
    }

    /// The scalar with the sign bit flipped.
    pub open spec fn negated(self) -> Scalar {
        Scalar {
            bits: if self.bits >= SIGN_BIT {
                (self.bits - SIGN_BIT) as u32
            } else {
                (self.bits + SIGN_BIT) as u32
            },
        }
    }

    /// The scalar with the sign bit cleared.
    pub open spec fn absolute(self) -> Scalar {
        Scalar { bits: self.magnitude() as u32 }
    }

    /// The lesser of two scalars; of a NaN and a number, the number.
    pub open spec fn minimum(self, other: Scalar) -> Scalar {
        if self.nan() {
            other
        } else if other.nan() {
            self
        } else if other.less_than(self) {
            other
        } else {
            self
        }
    }

    /// The greater of two scalars; of a NaN and a number, the number.
    pub open spec fn maximum(self, other: Scalar) -> Scalar {
        if self.nan() {
            other
        } else if other.nan() {
            self
        } else if self.less_than(other) {
            other
        } else {
            self
        }
    }

    /// The scalar with the given bits.
    pub fn from_bits(bits: u32) -> (r: Scalar)
        ensures
            r.bits == bits,
    {
        Scalar { bits }
    }

    /// The bits of the scalar.
    pub fn to_bits(self) -> (r: u32)
        ensures
            r == self.bits,
    {
        self.bits
    }

    /// Whether the sign bit is set.
    pub fn is_sign_negative(self) -> (r: bool)
        ensures
            r == self.negative(),
    {
        self.bits >= SIGN_BIT
    }

    /// The bits without the sign.
    pub fn magnitude_bits(self) -> (r: u32)
        ensures
            r == self.magnitude(),
    {
        if self.bits >= SIGN_BIT {
            self.bits - SIGN_BIT
        } else {
            self.bits
        }
    }

    /// Whether the scalar is no number.
    pub fn is_nan(self) -> (r: bool)
        ensures
            r == self.nan(),
    {
        self.magnitude_bits() > INFINITY_BITS
    }

    /// Whether the scalar is positive or negative infinity.
    pub fn is_infinite(self) -> (r: bool)
        ensures
            r == self.infinite(),
    {
        self.magnitude_bits() == INFINITY_BITS
    }

    /// Whether the scalar is a number that is not infinite.
    pub fn is_finite(self) -> (r: bool)
        ensures
            r == self.finite(),
    {
        self.magnitude_bits() < INFINITY_BITS
    }

    /// Whether the scalar is positive or negative zero.
    pub fn is_zero(self) -> (r: bool)
        ensures
            r == self.zero(),
    {
        self.magnitude_bits() == 0
    }

    /// Significand and exponent of the reading `m * 2^e`.
    pub fn unpack(self) -> (r: (u32, i32))
        ensures
            r.0 == self.significand(),
            r.1 == self.exponent(),
            self.finite() ==> r.0 < 0x100_0000 && -149 <= r.1 <= 104,
            self.finite() && r.1 > -149 ==> r.0 >= HIDDEN_BIT,
    {
        let magnitude: u32 = self.magnitude_bits();
        let biased: u32 = magnitude / HIDDEN_BIT;
        let fraction: u32 = magnitude % HIDDEN_BIT;
        if biased == 0 {
            (fraction, -149)
        } else {
            (fraction + HIDDEN_BIT, biased as i32 - 150)
        }
    }

    /// Flips the sign bit. A NaN stays a NaN.
    pub fn neg(self) -> (r: Scalar)
        ensures
            r == self.negated(),
    {
        if self.bits >= SIGN_BIT {
            Scalar { bits: self.bits - SIGN_BIT }
        } else {
            Scalar { bits: self.bits + SIGN_BIT }
        }
    }

    /// Clears the sign bit. A NaN stays a NaN.
    pub fn abs(self) -> (r: Scalar)
        ensures
            r == self.absolute(),
    {
        Scalar { bits: self.magnitude_bits() }
    }

    fn key(self) -> (r: i64)
        ensures
            r == self.order_key(),
    {
        if self.bits >= SIGN_BIT {
            -((self.bits - SIGN_BIT) as i64)
        } else {
            self.bits as i64
        }
    }

    /// `self < other`; false when either is a NaN.
    pub fn lt(self, other: Scalar) -> (r: bool)
        ensures
            r == self.less_than(other),
    {
        !self.is_nan() && !other.is_nan() && self.key() < other.key()
    }

    /// `self > other`; false when either is a NaN.
    pub fn gt(self, other: Scalar) -> (r: bool)
        ensures
            r == other.less_than(self),
    {
        other.lt(self)
    }

    /// `self == other` as numbers: `0.0` equals `-0.0`, a NaN equals nothing.
    pub fn eq_number(self, other: Scalar) -> (r: bool)
        ensures
            r == self.same_number(other),
    {
        !self.is_nan() && !other.is_nan() && self.key() == other.key()
    }

    /// The lesser of the two; a NaN only when both are.
    pub fn min(self, other: Scalar) -> (r: Scalar)
        ensures
            r == self.minimum(other),
    {
        if self.is_nan() {
            other
        } else if other.is_nan() {
            self
        } else if other.lt(self) {
            other
        } else {
            self
        }
    }

    /// The greater of the two; a NaN only when both are.
    pub fn max(self, other: Scalar) -> (r: Scalar)
        ensures
            r == self.maximum(other),
    {
        if self.is_nan() {
            other
        } else if other.is_nan() {
            self
        } else if self.lt(other) {
            other
        } else {
            self
        }
    }
}

} // verus!
