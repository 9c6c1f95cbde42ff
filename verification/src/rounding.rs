//! Rounding an exact value `n * 2^e` to the nearest scalar, ties to even.
use vstd::prelude::*;
use vstd::arithmetic::power2::*;
use vstd::arithmetic::div_mod::*;
use vstd::arithmetic::mul::*;
use crate::scalar::{Scalar, HIDDEN_BIT, INFINITY_BITS, SIGN_BIT};

verus! {

/// The number of binary digits of `n`: the least `k` with `n < 2^k`.
pub open spec fn bit_length(n: nat) -> nat
    decreases n,
{
    if n == 0 {
        0
    } else {
        1 + bit_length(n / 2)
    }
}

/// The integer nearest to `n / d`; of two equally near, the even one.
pub open spec fn round_half_even(n: nat, d: nat) -> nat {
    let q = n / d;
    let r = n % d;
    if 2 * r > d || (2 * r == d && q % 2 == 1) {
        q + 1
    } else {
        q
    }
}

/// The exponent of the unit in which `n * 2^e` is rounded: the value keeps
/// twenty-four significant bits, and no unit is finer than `2^-149`.
pub open spec fn quantum(n: nat, e: int) -> int {
    let fine = e + bit_length(n) - 24;
    if fine < -149 {
        -149
    } else {
        fine
    }
}

/// `n * 2^e` in units of `2^quantum(n, e)`, rounded to an integer.
pub open spec fn quanta(n: nat, e: int) -> nat {
    let q = quantum(n, e);
    if q > e {
        round_half_even(n, pow2((q - e) as nat))
    } else {
        n * pow2((e - q) as nat)
    }
}

/// The magnitude bits of the scalar nearest to `n * 2^e`. The quanta are
/// added to the exponent field, so a significand that rounds up to `2^24`
/// carries into the exponent; what reaches the exponent 255 is infinity.
pub open spec fn rounded_magnitude(n: nat, e: int) -> nat {
    if n == 0 {
        0
    } else {
        let raw = (quantum(n, e) + 149) * (HIDDEN_BIT as int) + quanta(n, e);
        if raw >= INFINITY_BITS {
            INFINITY_BITS as nat
        } else {
            raw as nat
        }
    }
}

/// The scalar nearest to `(-1)^negative * n * 2^e`, ties to even.
pub open spec fn round_to_scalar(negative: bool, n: nat, e: int) -> Scalar {
    Scalar {
        bits: (rounded_magnitude(n, e) + if negative { SIGN_BIT as nat } else { 0 }) as u32,
    }
}

/// A number of `k` digits lies from `2^(k-1)` up to, not including, `2^k`.
pub proof fn lemma_bit_length_bounds(n: nat)
    requires
        n > 0,
    ensures
        bit_length(n) >= 1,
        pow2((bit_length(n) - 1) as nat) <= n < pow2(bit_length(n)),
    decreases n,
{
    lemma2_to64();
    if n == 1 {
        assert(bit_length(1) == 1 + bit_length(0));
    } else {
        lemma_bit_length_bounds(n / 2);
        let k = bit_length(n / 2);
        lemma_pow2_unfold(k);
        lemma_pow2_unfold(k + 1);
        assert(bit_length(n) == k + 1);
    }
}

/// `bit_length(n)` is the only `k` with `2^(k-1) <= n < 2^k`.
pub proof fn lemma_bit_length_unique(n: nat, k: nat)
    requires
        k >= 1,
        pow2((k - 1) as nat) <= n < pow2(k),
    ensures
        bit_length(n) == k,
{
    lemma_pow2_pos((k - 1) as nat);
    lemma_bit_length_bounds(n);
    let b = bit_length(n);
    if b < k {
        if b < k - 1 {
            lemma_pow2_strictly_increases(b, (k - 1) as nat);
        }
    } else if b > k {
        if k < b - 1 {
            lemma_pow2_strictly_increases(k, (b - 1) as nat);
        }
    }
}

/// Powers of two grow with the exponent.
pub proof fn lemma_pow2_monotone(a: nat, b: nat)
    requires
        a <= b,
    ensures
        pow2(a) <= pow2(b),
{
    if a < b {
        lemma_pow2_strictly_increases(a, b);
    }
}

/// `2^k` for `k` up to 127.
pub(crate) fn power_of_two(k: u32) -> (r: u128)
    requires
        k <= 127,
    ensures
        r == pow2(k as nat),
{
    let mut r: u128 = 1;
    let mut i: u32 = 0;
    proof {
        lemma2_to64();
    }
    while i < k
        invariant
            i <= k <= 127,
            r == pow2(i as nat),
        decreases k - i,
    {
        proof {
            lemma_pow2_unfold((i + 1) as nat);
            lemma_pow2_wide();
            lemma_pow2_monotone(i as nat, 126);
        }
        r = r * 2;
        i = i + 1;
    }
    r
}

/// The powers of two at the top of 128 bits.
pub proof fn lemma_pow2_wide()
    ensures
        pow2(127) == 0x8000_0000_0000_0000_0000_0000_0000_0000,
        pow2(126) == 0x4000_0000_0000_0000_0000_0000_0000_0000,
        pow2(128) == 0x1_0000_0000_0000_0000_0000_0000_0000_0000,
{
    lemma2_to64();
    lemma_pow2_adds(64, 64);
    lemma_pow2_adds(64, 63);
    lemma_pow2_adds(64, 62);
    lemma2_to64_rest();
}

/// The number of binary digits of `n`.
pub(crate) fn bit_length_of(n: u128) -> (len: u32)
    ensures
        len == bit_length(n as nat),
        len <= 128,
{
    let mut rest: u128 = n;
    let mut len: u32 = 0;
    proof {
        lemma2_to64();
    }
    while rest > 0
        invariant
            len <= 128,
            bit_length(n as nat) == len + bit_length(rest as nat),
            rest * pow2(len as nat) <= n,
        decreases rest,
    {
        proof {
            lemma_pow2_unfold((len + 1) as nat);
            lemma_pow2_128_bound(rest, len, n);
            assert((rest / 2) * pow2((len + 1) as nat) <= rest * pow2(len as nat)) by (nonlinear_arith)
                requires
                    pow2((len + 1) as nat) == 2 * pow2(len as nat),
            ;
        }
        rest = rest / 2;
        len = len + 1;
    }
    len
}

proof fn lemma_pow2_128_bound(rest: u128, len: u32, n: u128)
    requires
        rest > 0,
        rest * pow2(len as nat) <= n,
    ensures
        len < 128,
{
    if len >= 128 {
        lemma_pow2_wide();
        lemma_pow2_monotone(128, len as nat);
        assert(rest * pow2(len as nat) >= pow2(len as nat)) by (nonlinear_arith)
            requires
                rest >= 1,
        ;
    }
}

/// Below half a unit nothing is left: `n / d` rounds to 0 when `2 * n < d`.
pub proof fn lemma_round_half_even_small(n: nat, d: nat)
    requires
        2 * n < d,
    ensures
        round_half_even(n, d) == 0,
{
    lemma_small_mod(n, d);
    lemma_basic_div(n as int, d as int);
}

/// A multiple of the unit is rounded to itself.
pub proof fn lemma_round_half_even_exact(m: nat, d: nat)
    requires
        d > 0,
    ensures
        round_half_even(m * d, d) == m,
{
    lemma_div_by_multiple(m as int, d as int);
    lemma_mod_multiples_basic(m as int, d as int);
}

/// The rounded quotient is within half a unit of `n / d`.
pub proof fn lemma_round_half_even_nearest(n: nat, d: nat)
    requires
        d > 0,
    ensures
        2 * (round_half_even(n, d) * d - n) <= d,
        2 * (n - round_half_even(n, d) * d) <= d,
{
    lemma_fundamental_div_mod(n as int, d as int);
    lemma_mod_bound(n as int, d as int);
    let q = n / d;
    assert((q + 1) * d == q * d + d) by (nonlinear_arith);
    assert(d * q == q * d) by (nonlinear_arith);
}

/// The integer nearest to `n / d`; of two equally near, the even one.
pub(crate) fn round_half_even_of(n: u128, d: u128) -> (r: u128)
    requires
        d > 0,
    ensures
        r == round_half_even(n as nat, d as nat),
{
    let q: u128 = n / d;
    let rest: u128 = n % d;
    proof {
        lemma_mod_bound(n as int, d as int);
        if d >= 2 {
            lemma_div_is_ordered_by_denominator(n as int, 2, d as int);
        }
    }
    if rest > d - rest || (rest == d - rest && q % 2 == 1) {
        q + 1
    } else {
        q
    }
}

/// The scalar nearest to `(-1)^negative * n * 2^e`, ties to even; beyond
/// the largest finite magnitude, infinity.
pub(crate) fn round_pack(negative: bool, n: u128, e: i32) -> (r: Scalar)
    requires
        n < 0x4000_0000_0000_0000_0000_0000_0000_0000,
        -1000 <= e <= 1000,
    ensures
        r == round_to_scalar(negative, n as nat, e as int),
{
    let sign: u32 = if negative { SIGN_BIT } else { 0 };
    if n == 0 {
        return Scalar { bits: sign };
    }
    let len: u32 = bit_length_of(n);
    proof {
        lemma_bit_length_bounds(n as nat);
        lemma_pow2_wide();
        if len >= 127 {
            lemma_pow2_monotone(126, (len - 1) as nat);
        }
        lemma2_to64();
    }
    let fine: i32 = e + len as i32 - 24;
    let q: i32 = if fine < -149 { -149 } else { fine };
    if q > 105 {
        return Scalar { bits: sign + INFINITY_BITS };
    }
    let k: u128;
    if q > e {
        let s: u32 = (q - e) as u32;
        if s > len {
            proof {
                lemma_pow2_monotone(len as nat, (s - 1) as nat);
                lemma_pow2_unfold(s as nat);
                lemma_round_half_even_small(n as nat, pow2(s as nat));
            }
            k = 0;
        } else {
            let d: u128 = power_of_two(s);
            proof {
                lemma_pow2_pos(s as nat);
                lemma_pow2_monotone(s as nat, 126);
                lemma_pow2_monotone(len as nat, (s + 24) as nat);
                lemma_pow2_adds(s as nat, 24);
                lemma_mul_is_commutative(pow2(s as nat) as int, pow2(24) as int);
                lemma_multiply_divide_lt(n as int, d as int, pow2(24) as int);
            }
            k = round_half_even_of(n, d);
        }
    } else {
        let sh: u32 = (e - q) as u32;
        let d: u128 = power_of_two(sh);
        proof {
            lemma_pow2_pos(sh as nat);
            lemma_pow2_adds(len as nat, sh as nat);
            lemma_pow2_monotone((len + sh) as nat, 24);
            lemma_mul_strict_inequality(n as int, pow2(len as nat) as int, d as int);
        }
        k = n * d;
    }
    let raw: u32 = ((q + 149) as u32) * HIDDEN_BIT + k as u32;
    if raw >= INFINITY_BITS {
        Scalar { bits: sign + INFINITY_BITS }
    } else {
        Scalar { bits: sign + raw }
    }
}

/// Shifting left adds digits: `bit_length(m * 2^k) == bit_length(m) + k`.
pub proof fn lemma_bit_length_shifted(m: nat, k: nat)
    requires
        m > 0,
    ensures
        bit_length(m * pow2(k)) == bit_length(m) + k,
{
    lemma_bit_length_bounds(m);
    let len = bit_length(m);
    lemma_pow2_pos(k);
    lemma_pow2_adds((len - 1) as nat, k);
    lemma_pow2_adds(len, k);
    lemma_mul_inequality(pow2((len - 1) as nat) as int, m as int, pow2(k) as int);
    lemma_mul_strict_inequality(m as int, pow2(len) as int, pow2(k) as int);
    lemma_bit_length_unique(m * pow2(k), len + k);
}

/// A value that a scalar can hold is rounded to that scalar: for a
/// significand `m` and an exponent `e` as a finite scalar has them, the
/// value `m * 2^e`, written with `k` more binary places, rounds to the
/// magnitude bits `(e + 149) * 2^23 + m`.
pub proof fn lemma_rounding_keeps_scalars(m: nat, e: int, k: nat)
    requires
        m < 0x100_0000,
        -149 <= e <= 104,
        e > -149 ==> m >= HIDDEN_BIT,
    ensures
        rounded_magnitude(m * pow2(k), e - k) == (e + 149) * (HIDDEN_BIT as int) + m,
{
    lemma2_to64();
    lemma_pow2_pos(k);
    if m == 0 {
        assert(m * pow2(k) == 0) by (nonlinear_arith)
            requires
                m == 0,
        ;
    } else {
        let n = m * pow2(k);
        assert(n > 0) by (nonlinear_arith)
            requires
                n == m * pow2(k),
                m > 0,
                pow2(k) > 0,
        ;
        lemma_bit_length_shifted(m, k);
        lemma_bit_length_bounds(m);
        let len = bit_length(m);
        if len > 24 {
            lemma_pow2_monotone(24, (len - 1) as nat);
        }
        if m >= HIDDEN_BIT && len < 24 {
            lemma_pow2_monotone(len, 23);
        }
        assert(quantum(n, e - k) == e);
        if k > 0 {
            lemma_round_half_even_exact(m, pow2(k));
        } else {
            assert(n * pow2(0) == n) by (nonlinear_arith)
                requires
                    pow2(0) == 1,
            ;
            assert(n == m) by (nonlinear_arith)
                requires
                    n == m * pow2(k),
                    pow2(k) == 1,
            ;
        }
        assert(quanta(n, e - k) == m);
    }
}

/// Rounding moves a value by at most half a unit, and not at all where
/// the unit is no coarser than that of the value.
pub proof fn lemma_rounding_is_nearest(n: nat, e: int)
    requires
        n > 0,
    ensures
        quantum(n, e) <= e ==> quanta(n, e) == n * pow2((e - quantum(n, e)) as nat),
        quantum(n, e) > e ==> ({
            let unit = pow2((quantum(n, e) - e) as nat);
            2 * (quanta(n, e) * unit - n) <= unit && 2 * (n - quanta(n, e) * unit) <= unit
        }),
{
    if quantum(n, e) > e {
        let unit = pow2((quantum(n, e) - e) as nat);
        lemma_pow2_pos((quantum(n, e) - e) as nat);
        lemma_round_half_even_nearest(n, unit);
    }
}

/// The unit is the finest that leaves at most twenty-four bits: the
/// rounded value counts at most `2^24` units, and at least `2^23` unless
/// the unit is `2^-149`.
pub proof fn lemma_quanta_fill_the_significand(n: nat, e: int)
    requires
        n > 0,
    ensures
        quanta(n, e) <= 0x100_0000,
        quantum(n, e) > -149 ==> quanta(n, e) >= 0x80_0000,
{
    lemma2_to64();
    lemma_bit_length_bounds(n);
    let len = bit_length(n);
    let q = quantum(n, e);
    if q > e {
        let s = (q - e) as nat;
        let unit = pow2(s);
        lemma_pow2_pos(s);
        lemma_pow2_monotone(len, s + 24);
        lemma_pow2_adds(s, 24);
        lemma_mul_is_commutative(pow2(s) as int, pow2(24) as int);
        lemma_multiply_divide_lt(n as int, unit as int, pow2(24) as int);
        if q > -149 {
            lemma_pow2_adds(23, s);
            lemma_div_is_ordered((pow2(23) * unit) as int, n as int, unit as int);
            lemma_div_by_multiple(pow2(23) as int, unit as int);
        }
    } else {
        let sh = (e - q) as nat;
        lemma_pow2_pos(sh);
        lemma_pow2_adds(len, sh);
        lemma_pow2_monotone(len + sh, 24);
        lemma_mul_strict_inequality(n as int, pow2(len) as int, pow2(sh) as int);
        if q > -149 {
            lemma_pow2_adds((len - 1) as nat, sh);
            lemma_mul_inequality(pow2((len - 1) as nat) as int, n as int, pow2(sh) as int);
        }
    }
}

} // verus!
