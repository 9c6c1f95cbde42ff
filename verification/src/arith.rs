//! Addition, subtraction and multiplication of scalars, correctly rounded.
//!
//! Each operation reads its finite operands as `m * 2^e`, forms the exact
//! result over the integers and rounds it once, to nearest with ties to
//! even. A NaN among the operands, or an operation without a value
//! (`inf - inf`, `0 * inf`), gives the canonical NaN.
use vstd::prelude::*;
use vstd::arithmetic::power2::*;
use vstd::arithmetic::div_mod::*;
use crate::scalar::{Scalar, HIDDEN_BIT, INFINITY_BITS, NAN_BITS, ONE_BITS, SIGN_BIT};
use crate::rounding::{
    lemma_bit_length_unique, lemma_pow2_monotone, lemma_rounding_keeps_scalars, power_of_two,
    quanta, quantum, round_half_even, round_pack, round_to_scalar, rounded_magnitude,
};

verus! {

impl Scalar {
    /// `self * other`, rounded.
    pub open spec fn product(self, other: Scalar) -> Scalar {
        let negative = self.negative() != other.negative();
        if self.nan() || other.nan() {
            Scalar::canonical_nan()
        } else if self.infinite() || other.infinite() {
            if self.zero() || other.zero() {
                Scalar::canonical_nan()
            } else {
                Scalar::signed_infinity(negative)
            }
        } else {
            round_to_scalar(
                negative,
                self.significand() * other.significand(),
                self.exponent() + other.exponent(),
            )
        }
    }

    /// The exact sum of two finite scalars, in units of `2^e` where `e` is
    /// the lesser of the two exponents.
    pub open spec fn aligned_total(self, other: Scalar) -> int {
        let e = if self.exponent() <= other.exponent() {
            self.exponent()
        } else {
            other.exponent()
        };
        self.signed_significand() * pow2((self.exponent() - e) as nat)
            + other.signed_significand() * pow2((other.exponent() - e) as nat)
    }

    /// `self + other`, rounded. An exact zero is negative only when both
    /// operands are.
    pub open spec fn sum(self, other: Scalar) -> Scalar {
        if self.nan() || other.nan() {
            Scalar::canonical_nan()
        } else if self.infinite() {
            if other.infinite() && self.negative() != other.negative() {
                Scalar::canonical_nan()
            } else {
                self
            }
        } else if other.infinite() {
            other
        } else {
            let e = if self.exponent() <= other.exponent() {
                self.exponent()
            } else {
                other.exponent()
            };
            let total = self.aligned_total(other);
            if total == 0 {
                Scalar::signed_zero(self.negative() && other.negative())
            } else if total < 0 {
                round_to_scalar(true, (-total) as nat, e)
            } else {
                round_to_scalar(false, total as nat, e)
            }
        }
    }

    /// `self - other`, rounded: the sum of `self` and the negated `other`.
    pub open spec fn difference(self, other: Scalar) -> Scalar {
        self.sum(other.negated())
    }

    /// `self * other`, rounded to nearest, ties to even.
    pub fn mul(self, other: Scalar) -> (r: Scalar)
        ensures
            r == self.product(other),
    {
        let negative: bool = self.is_sign_negative() != other.is_sign_negative();
        if self.is_nan() || other.is_nan() {
            return Scalar { bits: NAN_BITS };
        }
        if self.is_infinite() || other.is_infinite() {
            if self.is_zero() || other.is_zero() {
                return Scalar { bits: NAN_BITS };
            }
            return Scalar { bits: if negative { 0xff80_0000 } else { INFINITY_BITS } };
        }
        let (ma, ea) = self.unpack();
        let (mb, eb) = other.unpack();
        assert(ma * mb < 0x1_0000_0000_0000) by (nonlinear_arith)
            requires
                ma < 0x100_0000,
                mb < 0x100_0000,
        ;
        round_pack(negative, (ma as u128) * (mb as u128), ea + eb)
    }

    /// `self + other`, rounded to nearest, ties to even.
    pub fn add(self, other: Scalar) -> (r: Scalar)
        ensures
            r == self.sum(other),
    {
        if self.is_nan() || other.is_nan() {
            return Scalar { bits: NAN_BITS };
        }
        if self.is_infinite() {
            if other.is_infinite() && self.is_sign_negative() != other.is_sign_negative() {
                return Scalar { bits: NAN_BITS };
            }
            return self;
        }
        if other.is_infinite() {
            return other;
        }
        let (ma, ea) = self.unpack();
        let (mb, eb) = other.unpack();
        if ea - eb > 64 {
            proof {
                lemma_sum_far(self, other);
            }
            return self;
        }
        if eb - ea > 64 {
            proof {
                lemma_sum_far(other, self);
            }
            return other;
        }
        let e: i32 = if ea <= eb { ea } else { eb };
        let scale_a: u128 = power_of_two((ea - e) as u32);
        let scale_b: u128 = power_of_two((eb - e) as u32);
        proof {
            lemma2_to64();
            lemma_pow2_monotone((ea - e) as nat, 64);
            lemma_pow2_monotone((eb - e) as nat, 64);
            assert(ma * scale_a < 0x100_0000 * 0x1_0000_0000_0000_0000) by (nonlinear_arith)
                requires
                    ma < 0x100_0000,
                    scale_a <= 0x1_0000_0000_0000_0000,
            ;
            assert(mb * scale_b < 0x100_0000 * 0x1_0000_0000_0000_0000) by (nonlinear_arith)
                requires
                    mb < 0x100_0000,
                    scale_b <= 0x1_0000_0000_0000_0000,
            ;
        }
        let wide_a: i128 = (ma as i128) * (scale_a as i128);
        let wide_b: i128 = (mb as i128) * (scale_b as i128);
        let signed_a: i128 = if self.is_sign_negative() { -wide_a } else { wide_a };
        let signed_b: i128 = if other.is_sign_negative() { -wide_b } else { wide_b };
        proof {
            assert((-(ma as int)) * (scale_a as int) == -(ma * scale_a)) by (nonlinear_arith);
            assert((-(mb as int)) * (scale_b as int) == -(mb * scale_b)) by (nonlinear_arith);
        }
        let total: i128 = signed_a + signed_b;
        assert(total == self.aligned_total(other));
        if total == 0 {
            let both: bool = self.is_sign_negative() && other.is_sign_negative();
            Scalar { bits: if both { SIGN_BIT } else { 0 } }
        } else if total < 0 {
            round_pack(true, (-total) as u128, e)
        } else {
            round_pack(false, total as u128, e)
        }
    }

    /// `self - other`, rounded to nearest, ties to even.
    pub fn sub(self, other: Scalar) -> (r: Scalar)
        ensures
            r == self.difference(other),
    {
        self.add(other.neg())
    }
}

/// The magnitude bits of a finite scalar, from its reading `m * 2^e`.
pub proof fn lemma_magnitude_from_reading(x: Scalar)
    requires
        x.finite(),
    ensures
        x.magnitude() == (x.exponent() + 149) * (HIDDEN_BIT as int) + x.significand(),
        x.significand() < 0x100_0000,
        -149 <= x.exponent() <= 104,
        x.exponent() > -149 ==> x.significand() >= HIDDEN_BIT,
        x.exponent() == -149 ==> x.magnitude() < 0x100_0000,
{
    lemma_fundamental_div_mod(x.magnitude() as int, HIDDEN_BIT as int);
}

/// An operand more than twenty-five binary places below the other leaves
/// the sum at the greater operand.
pub proof fn lemma_sum_far(hi: Scalar, lo: Scalar)
    requires
        hi.finite(),
        lo.finite(),
        hi.exponent() - lo.exponent() >= 26,
    ensures
        hi.sum(lo) == hi,
        lo.sum(hi) == hi,
{
    lemma_magnitude_from_reading(hi);
    lemma_magnitude_from_reading(lo);
    lemma2_to64();
    let g = (hi.exponent() - lo.exponent()) as nat;
    let e = lo.exponent();
    let mh = hi.significand();
    let ml = lo.significand();
    let p = pow2(g);
    lemma_pow2_monotone(26, g);
    lemma_pow2_adds(23, g);
    lemma_pow2_adds(24, g);
    lemma_pow2_unfold(g);
    let half = pow2((g - 1) as nat);
    lemma_pow2_adds(24, (g - 1) as nat);
    lemma_pow2_adds(22, (g - 1) as nat);
    lemma_pow2_adds(23, (g - 1) as nat);
    assert(pow2(0) == 1);
    let big = mh * p;
    assert(big >= pow2(23) * p) by (nonlinear_arith)
        requires
            big == mh * p,
            mh >= pow2(23),
            p > 0,
    ;
    assert(big + p <= pow2(24) * p) by (nonlinear_arith)
        requires
            big == mh * p,
            mh + 1 <= pow2(24),
            p > 0,
    ;
    assert(hi.signed_significand() * p == if hi.negative() { -(big as int) } else { big as int })
        by (nonlinear_arith)
        requires
            big == mh * p,
            hi.signed_significand() == if hi.negative() { -(mh as int) } else { mh as int },
    ;
    let total = hi.aligned_total(lo);
    assert(pow2((lo.exponent() - e) as nat) == 1);
    assert(pow2((hi.exponent() - e) as nat) == p);
    assert(lo.aligned_total(hi) == total);
    let lo_part: int = if lo.negative() { -(ml as int) } else { ml as int };
    assert(lo.signed_significand() * pow2((lo.exponent() - e) as nat) == lo_part)
        by (nonlinear_arith)
        requires
            pow2((lo.exponent() - e) as nat) == 1,
            lo.signed_significand() == lo_part,
    ;
    assert(total == (if hi.negative() { -(big as int) } else { big as int }) + lo_part);
    let n: nat = if hi.negative() == lo.negative() { big + ml } else { (big - ml) as nat };
    assert(total == if hi.negative() { -(n as int) } else { n as int });
    assert(n > 0);
    let target = (hi.exponent() + 149) * (HIDDEN_BIT as int) + mh;
    let low = pow2(23) * p;
    let high = pow2(24) * p;
    assert(low == pow2(23 + g));
    assert(high == pow2(24 + g));
    assert(ml < p);
    if hi.negative() == lo.negative() || ml == 0 {
        // The lesser operand adds less than half a unit: rounded down.
        assert(low <= n < high);
        lemma_bit_length_unique(n, 24 + g);
        assert(quantum(n, e) == hi.exponent());
        lemma_fundamental_div_mod_converse(n as int, p as int, mh as int, ml as int);
        assert(round_half_even(n, p) == mh);
        assert(quanta(n, e) == mh);
        assert(rounded_magnitude(n, e) == target);
    } else if mh > HIDDEN_BIT {
        // The lesser operand takes away less than half a unit: rounded up.
        assert(big >= low + p) by (nonlinear_arith)
            requires
                big == mh * p,
                low == pow2(23) * p,
                mh >= pow2(23) + 1,
        ;
        lemma_bit_length_unique(n, 24 + g);
        assert(quantum(n, e) == hi.exponent());
        assert(n == (mh - 1) * p + (p - ml)) by (nonlinear_arith)
            requires
                n == mh * p - ml,
        ;
        lemma_fundamental_div_mod_converse(n as int, p as int, mh - 1, p - ml);
        assert(round_half_even(n, p) == mh);
        assert(quanta(n, e) == mh);
        assert(rounded_magnitude(n, e) == target);
    } else {
        // Just below a power of two the unit is half as large, and still
        // the lesser operand takes away less than half of it.
        assert(n == pow2(24) * half - ml) by (nonlinear_arith)
            requires
                n == mh * p - ml,
                mh == pow2(23),
                p == 2 * half,
                pow2(24) == 2 * pow2(23),
        ;
        lemma_bit_length_unique(n, 23 + g);
        assert(quantum(n, e) == hi.exponent() - 1);
        assert(n == (pow2(24) - 1) * half + (half - ml)) by (nonlinear_arith)
            requires
                n == pow2(24) * half - ml,
        ;
        lemma_fundamental_div_mod_converse(n as int, half as int, pow2(24) - 1, half - ml);
        assert(round_half_even(n, half) == pow2(24));
        assert(quanta(n, e) == pow2(24));
        assert(rounded_magnitude(n, e) == target);
    }
}

/// A finite scalar is the rounding of its own reading.
pub proof fn lemma_round_of_reading(x: Scalar, k: nat)
    requires
        x.finite(),
    ensures
        round_to_scalar(x.negative(), x.significand() * pow2(k), x.exponent() - k) == x,
{
    lemma_magnitude_from_reading(x);
    lemma_rounding_keeps_scalars(x.significand(), x.exponent(), k);
}

/// Multiplying by one changes nothing but the bits of a NaN.
pub proof fn lemma_product_with_one(x: Scalar)
    ensures
        x.nan() ==> x.product(Scalar { bits: ONE_BITS }).nan(),
        !x.nan() ==> x.product(Scalar { bits: ONE_BITS }) == x,
{
    let one = Scalar { bits: ONE_BITS };
    lemma2_to64();
    lemma_magnitude_from_reading(one);
    assert(one.biased_exponent() == 127 && one.fraction() == 0) by {
        lemma_fundamental_div_mod_converse(ONE_BITS as int, HIDDEN_BIT as int, 127, 0);
    }
    if x.finite() {
        lemma_round_of_reading(x, 23);
    }
}

/// Adding positive zero changes nothing but the bits of a NaN and the sign
/// of negative zero.
pub proof fn lemma_sum_with_zero(x: Scalar)
    ensures
        x.nan() ==> x.sum(Scalar { bits: 0 }).nan(),
        !x.nan() && !x.zero() ==> x.sum(Scalar { bits: 0 }) == x,
        x.zero() ==> x.sum(Scalar { bits: 0 }) == (Scalar { bits: 0 }),
{
    let zero = Scalar { bits: 0 };
    lemma2_to64();
    assert(zero.biased_exponent() == 0 && zero.fraction() == 0);
    if x.finite() {
        lemma_magnitude_from_reading(x);
        let k = (x.exponent() + 149) as nat;
        lemma_pow2_pos(k);
        let m = x.significand();
        assert(0 * pow2(0) == 0);
        let shifted = m * pow2(k);
        assert(x.signed_significand() * pow2(k) == if x.negative() {
            -(shifted as int)
        } else {
            shifted as int
        }) by (nonlinear_arith)
            requires
                shifted == m * pow2(k),
                x.signed_significand() == if x.negative() { -(m as int) } else { m as int },
        ;
        assert(x.aligned_total(zero) == if x.negative() {
            -(shifted as int)
        } else {
            shifted as int
        });
        if m == 0 {
            assert(shifted == 0) by (nonlinear_arith)
                requires
                    shifted == m * pow2(k),
                    m == 0,
            ;
        } else {
            assert(shifted > 0) by (nonlinear_arith)
                requires
                    shifted == m * pow2(k),
                    m > 0,
                    pow2(k) > 0,
            ;
            lemma_round_of_reading(x, k);
        }
    }
}

/// The order of the operands does not change a sum.
pub proof fn lemma_sum_commutes(a: Scalar, b: Scalar)
    ensures
        a.sum(b) == b.sum(a),
{
}

/// The order of the operands does not change a product.
pub proof fn lemma_product_commutes(a: Scalar, b: Scalar)
    ensures
        a.product(b) == b.product(a),
{
    assert(a.significand() * b.significand() == b.significand() * a.significand())
        by (nonlinear_arith);
}

/// Among finite scalars the keys are ordered as the values are: the key of
/// `a` is below that of `b` exactly when the exact difference `a - b` is
/// negative.
pub proof fn lemma_order_key_orders_values(a: Scalar, b: Scalar)
    requires
        a.finite(),
        b.finite(),
    ensures
        a.order_key() < b.order_key() <==> a.aligned_total(b.negated()) < 0,
        a.order_key() == b.order_key() <==> a.aligned_total(b.negated()) == 0,
{
    lemma_magnitude_from_reading(a);
    lemma_magnitude_from_reading(b);
    lemma2_to64();
    let nb = b.negated();
    assert(nb.magnitude() == b.magnitude());
    assert(nb.significand() == b.significand() && nb.exponent() == b.exponent());
    assert(nb.negative() == !b.negative());
    let ma = a.significand() as int;
    let mb = b.significand() as int;
    let e = if a.exponent() <= b.exponent() {
        a.exponent()
    } else {
        b.exponent()
    };
    let ga = (a.exponent() - e) as nat;
    let gb = (b.exponent() - e) as nat;
    let wa = ma * pow2(ga);
    let wb = mb * pow2(gb);
    lemma_pow2_pos(ga);
    lemma_pow2_pos(gb);
    assert(pow2(0) == 1);
    // The magnitudes are ordered as the aligned significands are.
    if ga > 0 {
        lemma_pow2_monotone(1, ga);
        assert(wa >= 0x100_0000 && wb == mb) by (nonlinear_arith)
            requires
                wa == ma * pow2(ga),
                wb == mb * pow2(gb),
                ma >= 0x80_0000,
                pow2(ga) >= 2,
                pow2(gb) == 1,
        ;
    } else if gb > 0 {
        lemma_pow2_monotone(1, gb);
        assert(wb >= 0x100_0000 && wa == ma) by (nonlinear_arith)
            requires
                wa == ma * pow2(ga),
                wb == mb * pow2(gb),
                mb >= 0x80_0000,
                pow2(gb) >= 2,
                pow2(ga) == 1,
        ;
    } else {
        assert(wa == ma && wb == mb) by (nonlinear_arith)
            requires
                wa == ma * pow2(ga),
                wb == mb * pow2(gb),
                pow2(ga) == 1,
                pow2(gb) == 1,
        ;
    }
    assert(a.magnitude() < b.magnitude() <==> wa < wb);
    assert(a.magnitude() == b.magnitude() <==> wa == wb);
    assert(a.signed_significand() * pow2(ga) == if a.negative() { -wa } else { wa })
        by (nonlinear_arith)
        requires
            wa == ma * pow2(ga),
            a.signed_significand() == if a.negative() { -ma } else { ma },
    ;
    assert(nb.signed_significand() * pow2(gb) == if nb.negative() { -wb } else { wb })
        by (nonlinear_arith)
        requires
            wb == mb * pow2(gb),
            nb.signed_significand() == if nb.negative() { -mb } else { mb },
    ;
    assert(wa >= 0 && wb >= 0) by (nonlinear_arith)
        requires
            wa == ma * pow2(ga),
            wb == mb * pow2(gb),
            ma >= 0,
            mb >= 0,
    ;
    assert(wa == 0 <==> ma == 0) by (nonlinear_arith)
        requires
            wa == ma * pow2(ga),
            pow2(ga) > 0,
            ma >= 0,
    ;
    assert(wb == 0 <==> mb == 0) by (nonlinear_arith)
        requires
            wb == mb * pow2(gb),
            pow2(gb) > 0,
            mb >= 0,
    ;
}

} // verus!
