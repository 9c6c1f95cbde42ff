//! Division and remainder of scalars.
//!
//! A quotient is formed from the two significands shifted to twenty-four
//! bits each, so that their ratio lies between one half and two, and is
//! rounded once. A remainder is exact: it is the remainder of the two
//! operands written as integers over their common unit.
use vstd::prelude::*;
use vstd::arithmetic::power2::*;
use vstd::arithmetic::div_mod::*;
use vstd::arithmetic::mul::*;
use crate::scalar::{Scalar, HIDDEN_BIT, INFINITY_BITS, NAN_BITS, SIGN_BIT};
use crate::rounding::{
    bit_length, bit_length_of, lemma_bit_length_bounds, lemma_pow2_monotone,
    lemma_round_half_even_small, power_of_two, round_half_even, round_half_even_of, round_pack,
    round_to_scalar,
};

verus! {

/// The exponent of the unit in which a ratio `n / d * 2^e` of two
/// twenty-four-bit integers is rounded.
pub open spec fn ratio_quantum(n: nat, d: nat, e: int) -> int {
    let fine = if n >= d {
        e - 23
    } else {
        e - 24
    };
    if fine < -149 {
        -149
    } else {
        fine
    }
}

/// `n / d * 2^e` in units of `2^ratio_quantum(n, d, e)`, rounded to an
/// integer.
pub open spec fn ratio_quanta(n: nat, d: nat, e: int) -> nat {
    let q = ratio_quantum(n, d, e);
    if q > e {
        round_half_even(n, d * pow2((q - e) as nat))
    } else {
        round_half_even(n * pow2((e - q) as nat), d)
    }
}

/// The scalar nearest to `(-1)^negative * n / d * 2^e`, for `n` and `d` of
/// twenty-four bits each.
pub open spec fn round_ratio_to_scalar(negative: bool, n: nat, d: nat, e: int) -> Scalar {
    let raw = (ratio_quantum(n, d, e) + 149) * (HIDDEN_BIT as int) + ratio_quanta(n, d, e);
    let magnitude = if raw >= INFINITY_BITS {
        INFINITY_BITS as nat
    } else {
        raw as nat
    };
    Scalar { bits: (magnitude + if negative { SIGN_BIT as nat } else { 0 }) as u32 }
}

/// The scalar nearest to `(-1)^negative * n / d * 2^e`.
pub(crate) fn round_pack_ratio(negative: bool, n: u128, d: u128, e: i32) -> (r: Scalar)
    requires
        0x80_0000 <= n < 0x100_0000,
        0x80_0000 <= d < 0x100_0000,
        -1000 <= e <= 1000,
    ensures
        r == round_ratio_to_scalar(negative, n as nat, d as nat, e as int),
{
    let sign: u32 = if negative { SIGN_BIT } else { 0 };
    let fine: i32 = if n >= d { e - 23 } else { e - 24 };
    let q: i32 = if fine < -149 { -149 } else { fine };
    if q > 105 {
        return Scalar { bits: sign + INFINITY_BITS };
    }
    proof {
        lemma2_to64();
    }
    let k: u128;
    if q > e {
        let s: u32 = (q - e) as u32;
        if s >= 26 {
            proof {
                lemma_pow2_monotone(26, s as nat);
                assert(2 * n < d * pow2(s as nat)) by (nonlinear_arith)
                    requires
                        n < 0x100_0000,
                        d >= 1,
                        pow2(s as nat) >= 0x400_0000,
                ;
                lemma_round_half_even_small(n as nat, d as nat * pow2(s as nat));
            }
            k = 0;
        } else {
            let unit: u128 = power_of_two(s);
            proof {
                lemma_pow2_monotone(1, s as nat);
                lemma_pow2_monotone(s as nat, 25);
                assert(d * unit < 0x100_0000 * 0x200_0000 && d * unit >= 2 * d)
                    by (nonlinear_arith)
                    requires
                        d < 0x100_0000,
                        2 <= unit <= 0x200_0000,
                ;
                lemma_basic_div(n as int, (d * unit) as int);
            }
            k = round_half_even_of(n, d * unit);
        }
    } else {
        let sh: u32 = (e - q) as u32;
        let unit: u128 = power_of_two(sh);
        proof {
            lemma_pow2_monotone(sh as nat, 24);
            assert(n * unit < 0x100_0000 * 0x100_0000 + 1) by (nonlinear_arith)
                requires
                    n < 0x100_0000,
                    unit <= 0x100_0000,
            ;
            if n >= d {
                lemma_pow2_monotone(sh as nat, 23);
            }
            assert(n * unit < 0x100_0000 * d) by (nonlinear_arith)
                requires
                    n < 0x100_0000,
                    d >= 0x80_0000,
                    n < d || unit <= 0x80_0000,
                    unit <= 0x100_0000,
                    n >= 0,
            ;
            lemma_multiply_divide_lt((n * unit) as int, d as int, 0x100_0000);
        }
        k = round_half_even_of(n * unit, d);
    }
    let raw: u32 = ((q + 149) as u32) * HIDDEN_BIT + k as u32;
    if raw >= INFINITY_BITS {
        Scalar { bits: sign + INFINITY_BITS }
    } else {
        Scalar { bits: sign + raw }
    }
}

impl Scalar {
    /// How far the significand of a finite scalar that is not zero must be
    /// shifted to fill twenty-four bits.
    pub open spec fn normal_shift(self) -> nat {
        (24 - bit_length(self.significand())) as nat
    }

    /// The significand shifted to twenty-four bits.
    pub open spec fn normal_significand(self) -> nat {
        self.significand() * pow2(self.normal_shift())
    }

    /// The exponent that goes with the shifted significand.
    pub open spec fn normal_exponent(self) -> int {
        self.exponent() - self.normal_shift()
    }

    /// `self / other`, rounded.
    pub open spec fn quotient(self, other: Scalar) -> Scalar {
        let negative = self.negative() != other.negative();
        if self.nan() || other.nan() {
            Scalar::canonical_nan()
        } else if self.infinite() {
            if other.infinite() {
                Scalar::canonical_nan()
            } else {
                Scalar::signed_infinity(negative)
            }
        } else if other.infinite() {
            Scalar::signed_zero(negative)
        } else if other.zero() {
            if self.zero() {
                Scalar::canonical_nan()
            } else {
                Scalar::signed_infinity(negative)
            }
        } else if self.zero() {
            Scalar::signed_zero(negative)
        } else {
            round_ratio_to_scalar(
                negative,
                self.normal_significand(),
                other.normal_significand(),
                self.normal_exponent() - other.normal_exponent(),
            )
        }
    }

    /// The remainder of `self` by `other`, with the sign of `self`: what is
    /// left of the magnitude of `self` after taking away the magnitude of
    /// `other` as often as it goes.
    pub open spec fn remainder(self, other: Scalar) -> Scalar {
        if self.nan() || other.nan() || self.infinite() || other.zero() {
            Scalar::canonical_nan()
        } else if other.infinite() {
            self
        } else if self.exponent() >= other.exponent() {
            round_to_scalar(
                self.negative(),
                (self.significand() * pow2((self.exponent() - other.exponent()) as nat))
                    % other.significand(),
                other.exponent(),
            )
        } else {
            round_to_scalar(
                self.negative(),
                self.significand() % (other.significand() * pow2(
                    (other.exponent() - self.exponent()) as nat,
                )),
                self.exponent(),
            )
        }
    }

    /// Significand and exponent with the significand shifted to
    /// twenty-four bits.
    pub(crate) fn normalize(self) -> (r: (u32, i32))
        requires
            self.finite(),
            !self.zero(),
        ensures
            r.0 == self.normal_significand(),
            r.1 == self.normal_exponent(),
            0x80_0000 <= r.0 < 0x100_0000,
            -172 <= r.1 <= 104,
    {
        let (m, e) = self.unpack();
        let len: u32 = bit_length_of(m as u128);
        proof {
            lemma2_to64();
            lemma_bit_length_bounds(m as nat);
            if len > 24 {
                lemma_pow2_monotone(24, (len - 1) as nat);
            }
        }
        let shift: u32 = 24 - len;
        let unit: u128 = power_of_two(shift);
        proof {
            lemma_pow2_adds(len as nat, shift as nat);
            lemma_pow2_adds((len - 1) as nat, shift as nat);
            lemma_mul_strict_inequality(m as int, pow2(len as nat) as int, unit as int);
            lemma_mul_inequality(pow2((len - 1) as nat) as int, m as int, unit as int);
        }
        (((m as u128) * unit) as u32, e - shift as i32)
    }

    /// `self / other`, rounded to nearest, ties to even.
    pub fn div(self, other: Scalar) -> (r: Scalar)
        ensures
            r == self.quotient(other),
    {
        let negative: bool = self.is_sign_negative() != other.is_sign_negative();
        let sign: u32 = if negative { SIGN_BIT } else { 0 };
        if self.is_nan() || other.is_nan() {
            return Scalar { bits: NAN_BITS };
        }
        if self.is_infinite() {
            if other.is_infinite() {
                return Scalar { bits: NAN_BITS };
            }
            return Scalar { bits: sign + INFINITY_BITS };
        }
        if other.is_infinite() {
            return Scalar { bits: sign };
        }
        if other.is_zero() {
            if self.is_zero() {
                return Scalar { bits: NAN_BITS };
            }
            return Scalar { bits: sign + INFINITY_BITS };
        }
        if self.is_zero() {
            return Scalar { bits: sign };
        }
        let (ma, ea) = self.normalize();
        let (mb, eb) = other.normalize();
        round_pack_ratio(negative, ma as u128, mb as u128, ea - eb)
    }

    /// The remainder of `self` by `other`, with the sign of `self`.
    pub fn rem(self, other: Scalar) -> (r: Scalar)
        ensures
            r == self.remainder(other),
    {
        if self.is_nan() || other.is_nan() || self.is_infinite() || other.is_zero() {
            return Scalar { bits: NAN_BITS };
        }
        if other.is_infinite() {
            return self;
        }
        let negative: bool = self.is_sign_negative();
        let (ma, ea) = self.unpack();
        let (mb, eb) = other.unpack();
        proof {
            lemma2_to64();
        }
        if ea >= eb {
            let gap: u32 = (ea - eb) as u32;
            let modulus: u128 = mb as u128;
            let mut rest: u128 = (ma as u128) % modulus;
            let mut done: u32 = 0;
            proof {
                assert(ma * pow2(0) == ma) by (nonlinear_arith)
                    requires
                        pow2(0) == 1,
                ;
            }
            while done < gap
                invariant
                    done <= gap,
                    0 < modulus < 0x100_0000,
                    rest < modulus,
                    rest == (ma as nat * pow2(done as nat)) % (modulus as nat),
                decreases gap - done,
            {
                let step: u32 = if gap - done > 64 { 64 } else { gap - done };
                let unit: u128 = power_of_two(step);
                proof {
                    lemma2_to64();
                    lemma_pow2_monotone(step as nat, 64);
                    assert(rest * unit < 0x100_0000 * 0x1_0000_0000_0000_0000) by (nonlinear_arith)
                        requires
                            rest < 0x100_0000,
                            unit <= 0x1_0000_0000_0000_0000,
                    ;
                    lemma_mul_mod_noop_left(
                        (ma * pow2(done as nat)) as int,
                        unit as int,
                        modulus as int,
                    );
                    lemma_pow2_adds(done as nat, step as nat);
                    lemma_mul_is_associative(
                        ma as int,
                        pow2(done as nat) as int,
                        pow2(step as nat) as int,
                    );
                    lemma_mod_bound((rest * unit) as int, modulus as int);
                }
                rest = (rest * unit) % modulus;
                done = done + step;
            }
            round_pack(negative, rest, eb)
        } else {
            let gap: u32 = (eb - ea) as u32;
            if gap >= 25 {
                proof {
                    lemma_pow2_monotone(25, gap as nat);
                    assert(mb * pow2(gap as nat) > ma) by (nonlinear_arith)
                        requires
                            mb >= 1,
                            pow2(gap as nat) >= 0x200_0000,
                            ma < 0x100_0000,
                    ;
                    lemma_small_mod(ma as nat, mb as nat * pow2(gap as nat));
                }
                round_pack(negative, ma as u128, ea)
            } else {
                let unit: u128 = power_of_two(gap);
                proof {
                    lemma_pow2_monotone(gap as nat, 24);
                    lemma_pow2_pos(gap as nat);
                    assert(0 < mb * unit < 0x100_0000 * 0x100_0000 + 1) by (nonlinear_arith)
                        requires
                            0 < mb < 0x100_0000,
                            0 < unit <= 0x100_0000,
                    ;
                    lemma_mod_bound(ma as int, (mb * unit) as int);
                }
                round_pack(negative, (ma as u128) % ((mb as u128) * unit), ea)
            }
        }
    }
}

/// A rounded ratio of two twenty-four-bit integers is within half a unit
/// of the ratio, and counts at most `2^24` units, and at least `2^23`
/// unless the unit is `2^-149`.
pub proof fn lemma_ratio_rounding_is_nearest(n: nat, d: nat, e: int)
    requires
        0x80_0000 <= n < 0x100_0000,
        0x80_0000 <= d < 0x100_0000,
    ensures
        ratio_quanta(n, d, e) <= 0x100_0000,
        ratio_quantum(n, d, e) > -149 ==> ratio_quanta(n, d, e) >= 0x80_0000,
        ratio_quantum(n, d, e) > e ==> ({
            let unit = d * pow2((ratio_quantum(n, d, e) - e) as nat);
            2 * (ratio_quanta(n, d, e) * unit - n) <= unit && 2 * (n - ratio_quanta(n, d, e)
                * unit) <= unit
        }),
        ratio_quantum(n, d, e) <= e ==> ({
            let scaled = n * pow2((e - ratio_quantum(n, d, e)) as nat);
            2 * (ratio_quanta(n, d, e) * d - scaled) <= d && 2 * (scaled - ratio_quanta(n, d, e)
                * d) <= d
        }),
{
    lemma2_to64();
    let q = ratio_quantum(n, d, e);
    if q > e {
        let s = (q - e) as nat;
        lemma_pow2_pos(s);
        lemma_pow2_monotone(1, s);
        let unit = d * pow2(s);
        assert(unit >= 2 * d) by (nonlinear_arith)
            requires
                unit == d * pow2(s),
                pow2(s) >= 2,
                d >= 0,
        ;
        lemma_basic_div(n as int, unit as int);
        crate::rounding::lemma_round_half_even_nearest(n, unit);
    } else {
        let sh = (e - q) as nat;
        lemma_pow2_pos(sh);
        let scaled = n * pow2(sh);
        if n >= d {
            assert(sh <= 23);
            lemma_pow2_monotone(sh, 23);
        } else {
            assert(sh <= 24);
            lemma_pow2_monotone(sh, 24);
        }
        assert(scaled < 0x100_0000 * d) by (nonlinear_arith)
            requires
                scaled == n * pow2(sh),
                n < 0x100_0000,
                d >= 0x80_0000,
                n < d || pow2(sh) <= 0x80_0000,
                pow2(sh) <= 0x100_0000,
        ;
        lemma_multiply_divide_lt(scaled as int, d as int, 0x100_0000);
        crate::rounding::lemma_round_half_even_nearest(scaled, d);
        if q > -149 {
            if n >= d {
                assert(sh == 23);
                assert(scaled >= 0x80_0000 * d) by (nonlinear_arith)
                    requires
                        scaled == n * pow2(sh),
                        pow2(sh) == 0x80_0000,
                        n >= d,
                ;
            } else {
                assert(sh == 24);
                assert(scaled >= 0x80_0000 * d) by (nonlinear_arith)
                    requires
                        scaled == n * pow2(sh),
                        pow2(sh) == 0x100_0000,
                        n >= 0x80_0000,
                        d < 0x100_0000,
                ;
            }
            lemma_div_is_ordered((0x80_0000 * d) as int, scaled as int, d as int);
            lemma_div_by_multiple(0x80_0000, d as int);
        }
    }
}

} // verus!
