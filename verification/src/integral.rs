//! Integers and scalars: floor, truncation, the fractional part, and the
//! scalar nearest to an unsigned integer.
use vstd::prelude::*;
use vstd::arithmetic::power2::*;
use vstd::arithmetic::div_mod::*;
use crate::scalar::{Scalar, NAN_BITS};
use crate::rounding::{lemma_pow2_monotone, power_of_two, round_pack, round_to_scalar};

verus! {

impl Scalar {
    /// The greatest integer that is not above a finite scalar.
    pub open spec fn floor_integer(self) -> int {
        if self.exponent() >= 0 {
            self.signed_significand() * pow2(self.exponent() as nat)
        } else {
            self.signed_significand() / (pow2((-self.exponent()) as nat) as int)
        }
    }

    /// The integer part of the magnitude of a finite scalar.
    pub open spec fn whole_magnitude(self) -> nat {
        if self.exponent() >= 0 {
            self.significand() * pow2(self.exponent() as nat)
        } else {
            self.significand() / pow2((-self.exponent()) as nat)
        }
    }

    /// The greatest integer not above `self` is odd. Of a scalar that is no
    /// finite number it is not.
    pub open spec fn floor_odd(self) -> bool {
        self.finite() && self.floor_integer() % 2 == 1
    }

    /// The scalar for the greatest integer not above `self`. A scalar with
    /// a non-negative exponent is an integer already; a floor of zero keeps
    /// the sign of `self`.
    pub open spec fn floored(self) -> Scalar {
        if self.nan() {
            Scalar::canonical_nan()
        } else if self.infinite() || self.exponent() >= 0 {
            self
        } else {
            let i = self.floor_integer();
            if i < 0 {
                round_to_scalar(true, (-i) as nat, 0)
            } else {
                round_to_scalar(self.negative(), i as nat, 0)
            }
        }
    }

    /// `self` without its fractional digits, with the sign of `self`.
    pub open spec fn truncated(self) -> Scalar {
        if self.nan() {
            Scalar::canonical_nan()
        } else if self.infinite() || self.exponent() >= 0 {
            self
        } else {
            round_to_scalar(self.negative(), self.whole_magnitude(), 0)
        }
    }

    /// What truncation takes away: `self - truncated(self)`.
    pub open spec fn fractional(self) -> Scalar {
        self.difference(self.truncated())
    }

    /// The scalar nearest to the integer `n`.
    pub open spec fn nearest_to(n: nat) -> Scalar {
        round_to_scalar(false, n, 0)
    }

    /// The integer part of the magnitude, for a scalar below one in
    /// exponent, and whether digits were dropped.
    fn split_whole(self) -> (r: (u32, bool))
        requires
            self.finite(),
            self.exponent() < 0,
        ensures
            r.0 == self.whole_magnitude(),
            r.0 < 0x100_0000,
            r.1 == (self.significand() % pow2((-self.exponent()) as nat) != 0),
    {
        let (m, e) = self.unpack();
        let places: u32 = (-e) as u32;
        proof {
            lemma2_to64();
            lemma_pow2_pos(places as nat);
        }
        if places >= 25 {
            proof {
                lemma_pow2_monotone(25, places as nat);
                lemma_basic_div(m as int, pow2(places as nat) as int);
                lemma_small_mod(m as nat, pow2(places as nat));
            }
            (0, m != 0)
        } else {
            let unit: u128 = power_of_two(places);
            proof {
                lemma_pow2_monotone(places as nat, 24);
                lemma_div_is_ordered_by_denominator(m as int, 1, unit as int);
            }
            let whole: u128 = (m as u128) / unit;
            let rest: u128 = (m as u128) % unit;
            (whole as u32, rest != 0)
        }
    }

    /// The distance of the floor of `self` from zero, for a scalar below
    /// one in exponent. The floor itself has the sign of `self`.
    fn floor_magnitude(self) -> (r: u32)
        requires
            self.finite(),
            self.exponent() < 0,
        ensures
            r <= 0x100_0000,
            self.floor_integer() == if self.negative() { -(r as int) } else { r as int },
    {
        let (whole, dropped) = self.split_whole();
        let negative: bool = self.is_sign_negative();
        proof {
            let m = self.significand() as int;
            let unit = pow2((-self.exponent()) as nat) as int;
            lemma_pow2_pos((-self.exponent()) as nat);
            lemma_fundamental_div_mod(m, unit);
            lemma_mod_bound(m, unit);
            let w = whole as int;
            assert((-w - 1) * unit + (unit - (m % unit)) == -m && (-w) * unit == -m + (m % unit))
                by (nonlinear_arith)
                requires
                    m == unit * w + (m % unit),
            ;
            if negative {
                if dropped {
                    lemma_fundamental_div_mod_converse(-m, unit, -w - 1, unit - (m % unit));
                } else {
                    lemma_fundamental_div_mod_converse(-m, unit, -w, 0);
                }
            }
        }
        if negative && dropped {
            whole + 1
        } else {
            whole
        }
    }

    /// The greatest integer not above `self`, as a scalar.
    pub fn floor(self) -> (r: Scalar)
        ensures
            r == self.floored(),
    {
        if self.is_nan() {
            return Scalar { bits: NAN_BITS };
        }
        if self.is_infinite() {
            return self;
        }
        let (m, e) = self.unpack();
        if e >= 0 {
            return self;
        }
        let distance: u32 = self.floor_magnitude();
        round_pack(self.is_sign_negative(), distance as u128, 0)
    }

    /// Whether the greatest integer not above `self` is odd.
    pub fn floor_is_odd(self) -> (r: bool)
        ensures
            r == self.floor_odd(),
    {
        if !self.is_finite() {
            return false;
        }
        let (m, e) = self.unpack();
        if e >= 1 {
            proof {
                lemma_pow2_unfold(e as nat);
                let half = pow2((e - 1) as nat) as int;
                let s = self.signed_significand();
                assert(s * (2 * half) == 2 * (s * half)) by (nonlinear_arith);
            }
            false
        } else if e == 0 {
            proof {
                lemma2_to64();
                let s = self.signed_significand();
                assert(s * 1 == s);
            }
            m % 2 == 1
        } else {
            let distance: u32 = self.floor_magnitude();
            distance % 2 == 1
        }
    }

    /// `self` without its fractional digits.
    pub fn trunc(self) -> (r: Scalar)
        ensures
            r == self.truncated(),
    {
        if self.is_nan() {
            return Scalar { bits: NAN_BITS };
        }
        if self.is_infinite() {
            return self;
        }
        let (m, e) = self.unpack();
        if e >= 0 {
            return self;
        }
        let (whole, dropped) = self.split_whole();
        round_pack(self.is_sign_negative(), whole as u128, 0)
    }

    /// The fractional part, with the sign of `self`.
    pub fn fract(self) -> (r: Scalar)
        ensures
            r == self.fractional(),
    {
        self.sub(self.trunc())
    }

    /// The scalar nearest to `n`.
    pub fn from_integer(n: u64) -> (r: Scalar)
        ensures
            r == Scalar::nearest_to(n as nat),
    {
        round_pack(false, n as u128, 0)
    }
}

} // verus!
