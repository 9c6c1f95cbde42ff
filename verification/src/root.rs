//! The square root of a scalar, correctly rounded.
use vstd::prelude::*;
use vstd::arithmetic::power2::*;
use crate::scalar::{Scalar, HIDDEN_BIT, NAN_BITS};
use crate::rounding::{lemma_pow2_monotone, power_of_two};

verus! {

/// `r` is the integer square root of `n`: the greatest integer whose
/// square is not above `n`.
pub open spec fn is_integer_sqrt(n: nat, r: nat) -> bool {
    r * r <= n < (r + 1) * (r + 1)
}

/// The integer square root of `n`.
pub open spec fn integer_sqrt(n: nat) -> nat {
    choose|r: nat| is_integer_sqrt(n, r)
}

/// No number has two integer square roots.
pub proof fn lemma_integer_sqrt_unique(n: nat, a: nat, b: nat)
    requires
        is_integer_sqrt(n, a),
        is_integer_sqrt(n, b),
    ensures
        a == b,
{
    if a < b {
        assert((a + 1) * (a + 1) <= b * b) by (nonlinear_arith)
            requires
                a + 1 <= b,
        ;
    } else if b < a {
        assert((b + 1) * (b + 1) <= a * a) by (nonlinear_arith)
            requires
                b + 1 <= a,
        ;
    }
}

/// The integer square root of `n`, by bisection.
pub(crate) fn integer_sqrt_of(n: u64) -> (r: u64)
    requires
        n < 0x10_0000_0000_0000,
    ensures
        r == integer_sqrt(n as nat),
        is_integer_sqrt(n as nat, r as nat),
{
    let mut low: u64 = 0;
    let mut high: u64 = 0x400_0000;
    while high - low > 1
        invariant
            low < high <= 0x400_0000,
            low * low <= n < high * high,
            n < 0x10_0000_0000_0000,
        decreases high - low,
    {
        let middle: u64 = low + (high - low) / 2;
        assert(middle * middle < 0x400_0000 * 0x400_0000) by (nonlinear_arith)
            requires
                middle < 0x400_0000,
        ;
        if middle * middle <= n {
            low = middle;
        } else {
            high = middle;
        }
    }
    proof {
        assert(is_integer_sqrt(n as nat, low as nat));
        lemma_integer_sqrt_unique(n as nat, low as nat, integer_sqrt(n as nat));
    }
    low
}

impl Scalar {
    /// Half the exponent of a positive scalar, rounded down so that what
    /// is left of the value has forty-seven or forty-eight bits.
    pub open spec fn root_exponent(self) -> int {
        (self.normal_exponent() - 23) / 2
    }

    /// The value of a positive scalar in units of `4^root_exponent`.
    pub open spec fn root_radicand(self) -> nat {
        self.normal_significand() * pow2(
            (self.normal_exponent() - 2 * self.root_exponent()) as nat,
        )
    }

    /// The square root of `self`, rounded. The integer nearest to the root
    /// of `x` is half of `isqrt(4x) + 1`, rounded down; a root is never
    /// half-way between two integers.
    pub open spec fn square_root(self) -> Scalar {
        if self.nan() || (self.negative() && !self.zero()) {
            Scalar::canonical_nan()
        } else if self.zero() || self.infinite() {
            self
        } else {
            Scalar {
                bits: ((self.root_exponent() + 149) * (HIDDEN_BIT as int) + (integer_sqrt(
                    4 * self.root_radicand(),
                ) + 1) / 2) as u32,
            }
        }
    }

    /// The square root of `self`, rounded to nearest.
    pub fn sqrt(self) -> (r: Scalar)
        ensures
            r == self.square_root(),
    {
        if self.is_nan() || (self.is_sign_negative() && !self.is_zero()) {
            return Scalar { bits: NAN_BITS };
        }
        if self.is_zero() || self.is_infinite() {
            return self;
        }
        let (m, e) = self.normalize();
        let half: i32 = ((e - 23 + 400) as u32 / 2) as i32 - 200;
        let shift: u32 = (e - 2 * half) as u32;
        let unit: u128 = power_of_two(shift);
        proof {
            lemma2_to64();
            lemma_pow2_monotone(shift as nat, 24);
            lemma_pow2_monotone(23, shift as nat);
            assert(4 * (m * unit) < 0x4_0000_0000_0000) by (nonlinear_arith)
                requires
                    m < 0x100_0000,
                    unit <= 0x100_0000,
            ;
            assert(4 * (m * unit) >= 0x1_0000_0000_0000) by (nonlinear_arith)
                requires
                    m >= 0x80_0000,
                    unit >= 0x80_0000,
            ;
        }
        let radicand: u64 = ((m as u128) * unit) as u64;
        let root: u64 = integer_sqrt_of(4 * radicand);
        proof {
            let r = root as nat;
            assert(r < 0x200_0000) by (nonlinear_arith)
                requires
                    r * r < 0x4_0000_0000_0000,
            ;
        }
        let k: u32 = ((root + 1) / 2) as u32;
        Scalar { bits: ((half + 149) as u32) * HIDDEN_BIT + k }
    }
}

/// Half of `isqrt(4x) + 1`, rounded down, is the integer nearest to the
/// square root of a positive `x`: the root lies between `k - 1/2` and
/// `k + 1/2`.
pub proof fn lemma_root_is_nearest(x: nat, r: nat)
    requires
        x > 0,
        is_integer_sqrt(4 * x, r),
    ensures
        ({
            let k = (r + 1) / 2;
            (2 * k - 1) * (2 * k - 1) <= 4 * x < (2 * k + 1) * (2 * k + 1)
        }),
{
    let k = (r + 1) / 2;
    if r % 2 == 1 {
        assert(2 * k - 1 == r);
        assert((2 * k + 1) * (2 * k + 1) >= (r + 1) * (r + 1)) by (nonlinear_arith)
            requires
                2 * k + 1 >= r + 1,
                r >= 0,
        ;
    } else {
        assert(2 * k == r);
        assert(r >= 1) by (nonlinear_arith)
            requires
                4 * x < (r + 1) * (r + 1),
                x > 0,
        ;
        assert((2 * k - 1) * (2 * k - 1) <= r * r) by (nonlinear_arith)
            requires
                2 * k == r,
                r >= 1,
        ;
    }
}

} // verus!
