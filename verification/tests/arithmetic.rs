//! The scalar operations against the machine's own single precision.
use grunge::scalar::Scalar;

fn s(x: f32) -> Scalar {
    Scalar::from_bits(x.to_bits())
}

fn f(x: Scalar) -> f32 {
    f32::from_bits(x.to_bits())
}

/// Equal bit for bit, or both a NaN.
fn agree(got: Scalar, want: f32) -> bool {
    if want.is_nan() {
        got.is_nan()
    } else {
        got.to_bits() == want.to_bits()
    }
}

/// A fixed walk through the bit patterns, mixed with the values at which
/// single precision changes its behaviour.
fn samples() -> Vec<f32> {
    let mut out: Vec<f32> = vec![
        0.0,
        -0.0,
        1.0,
        -1.0,
        0.5,
        -0.5,
        1.5,
        2.5,
        -2.5,
        3.0,
        289.0,
        0.1,
        16777216.0,
        16777217.0,
        8388608.0,
        8388607.5,
        -8388607.5,
        1e-40,
        -1e-40,
        1e-45,
        3.4028235e38,
        -3.4028235e38,
        1.1754944e-38,
        1.1754942e-38,
        f32::INFINITY,
        f32::NEG_INFINITY,
        f32::NAN,
        0.99999994,
        1.0000001,
        4.0,
        9.0,
        2.0,
        1e30,
        1e-30,
    ];
    let mut state: u32 = 0x1234_5678;
    let mut i: u32 = 0;
    while i < 120 {
        state = state.wrapping_mul(1664525).wrapping_add(1013904223);
        out.push(f32::from_bits(state));
        // Values of moderate size, where sums and differences are not
        // decided by the exponents alone.
        let exponent: u32 = 100 + (state >> 8) % 56;
        let moderate: u32 = (state & 0x807f_ffff) | (exponent << 23);
        out.push(f32::from_bits(moderate));
        i += 1;
    }
    out
}

/// Operands at the edges of the format: the least and greatest exponents,
/// those around one, and significands that produce ties and carries.
fn edge_operands() -> Vec<f32> {
    let exponents: Vec<u32> = vec![0, 1, 2, 23, 24, 25, 102, 103, 126, 127, 128, 150, 151, 253, 254];
    let fractions: Vec<u32> = vec![
        0, 1, 2, 3, 0x20_0000, 0x3f_ffff, 0x40_0000, 0x40_0001, 0x5f_ffff, 0x60_0000, 0x7f_fffe,
        0x7f_ffff,
    ];
    let mut out: Vec<f32> = Vec::new();
    for e in exponents.iter() {
        for m in fractions.iter() {
            out.push(f32::from_bits((*e << 23) | *m));
            out.push(f32::from_bits(0x8000_0000 | (*e << 23) | *m));
        }
    }
    out
}

#[test]
fn edge_operands_match_hardware() {
    let xs: Vec<f32> = edge_operands();
    for a in xs.iter() {
        assert!(agree(s(*a).sqrt(), a.sqrt()), "sqrt {:?}", a);
        assert!(agree(s(*a).floor(), a.floor()), "floor {:?}", a);
        assert!(agree(s(*a).trunc(), a.trunc()), "trunc {:?}", a);
        assert!(agree(s(*a).fract(), a.fract()), "fract {:?}", a);
        for b in xs.iter() {
            assert!(agree(s(*a).add(s(*b)), *a + *b), "{:?} + {:?}", a, b);
            assert!(agree(s(*a).sub(s(*b)), *a - *b), "{:?} - {:?}", a, b);
            assert!(agree(s(*a).mul(s(*b)), *a * *b), "{:?} * {:?}", a, b);
            assert!(agree(s(*a).div(s(*b)), *a / *b), "{:?} / {:?}", a, b);
            assert!(agree(s(*a).rem(s(*b)), *a % *b), "{:?} % {:?}", a, b);
            assert_eq!(s(*a).lt(s(*b)), *a < *b, "{:?} < {:?}", a, b);
        }
    }
}

#[test]
fn addition_matches_hardware() {
    let xs: Vec<f32> = samples();
    for a in xs.iter() {
        for b in xs.iter() {
            let got: Scalar = s(*a).add(s(*b));
            assert!(agree(got, *a + *b), "{:?} + {:?}: got {:?}, want {:?}", a, b, f(got), *a + *b);
        }
    }
}

#[test]
fn subtraction_matches_hardware() {
    let xs: Vec<f32> = samples();
    for a in xs.iter() {
        for b in xs.iter() {
            let got: Scalar = s(*a).sub(s(*b));
            assert!(agree(got, *a - *b), "{:?} - {:?}: got {:?}, want {:?}", a, b, f(got), *a - *b);
        }
    }
}

#[test]
fn multiplication_matches_hardware() {
    let xs: Vec<f32> = samples();
    for a in xs.iter() {
        for b in xs.iter() {
            let got: Scalar = s(*a).mul(s(*b));
            assert!(agree(got, *a * *b), "{:?} * {:?}: got {:?}, want {:?}", a, b, f(got), *a * *b);
        }
    }
}

#[test]
fn division_matches_hardware() {
    let xs: Vec<f32> = samples();
    for a in xs.iter() {
        for b in xs.iter() {
            let got: Scalar = s(*a).div(s(*b));
            assert!(agree(got, *a / *b), "{:?} / {:?}: got {:?}, want {:?}", a, b, f(got), *a / *b);
        }
    }
}

#[test]
fn remainder_matches_hardware() {
    let xs: Vec<f32> = samples();
    for a in xs.iter() {
        for b in xs.iter() {
            let got: Scalar = s(*a).rem(s(*b));
            assert!(agree(got, *a % *b), "{:?} % {:?}: got {:?}, want {:?}", a, b, f(got), *a % *b);
        }
    }
}

#[test]
fn square_root_matches_hardware() {
    for a in samples().iter() {
        let got: Scalar = s(*a).sqrt();
        assert!(agree(got, a.sqrt()), "sqrt {:?}: got {:?}, want {:?}", a, f(got), a.sqrt());
    }
    let mut n: u32 = 0;
    while n < 5000 {
        let x: f32 = n as f32 * 0.37;
        assert!(agree(s(x).sqrt(), x.sqrt()), "sqrt {:?}", x);
        n += 1;
    }
}

#[test]
fn floor_trunc_fract_match_hardware() {
    for a in samples().iter() {
        assert!(agree(s(*a).floor(), a.floor()), "floor {:?}", a);
        assert!(agree(s(*a).trunc(), a.trunc()), "trunc {:?}", a);
        assert!(agree(s(*a).fract(), a.fract()), "fract {:?}", a);
    }
    let mut n: i32 = -4000;
    while n < 4000 {
        let x: f32 = n as f32 * 0.013;
        assert!(agree(s(x).floor(), x.floor()), "floor {:?}", x);
        assert!(agree(s(x).trunc(), x.trunc()), "trunc {:?}", x);
        assert!(agree(s(x).fract(), x.fract()), "fract {:?}", x);
        n += 1;
    }
}

#[test]
fn floor_exact_values() {
    assert_eq!(s(2.5).floor(), s(2.0));
    assert_eq!(s(-2.5).floor(), s(-3.0));
    assert_eq!(s(-0.25).floor(), s(-1.0));
    assert_eq!(s(0.25).floor(), s(0.0));
    assert_eq!(s(-0.0).floor(), s(-0.0));
    assert_eq!(s(7.0).floor(), s(7.0));
    assert_eq!(s(-0.25).trunc(), s(-0.0));
    assert_eq!(s(2.75).fract(), s(0.75));
    assert_eq!(s(-2.75).fract(), s(-0.75));
}

#[test]
fn floor_parity() {
    assert!(!s(0.0).floor_is_odd());
    assert!(s(1.0).floor_is_odd());
    assert!(s(1.99).floor_is_odd());
    assert!(!s(2.0).floor_is_odd());
    assert!(s(-0.5).floor_is_odd());
    assert!(s(-1.0).floor_is_odd());
    assert!(!s(-1.5).floor_is_odd());
    assert!(!s(-2.0).floor_is_odd());
    assert!(s(16777215.0).floor_is_odd());
    assert!(!s(16777216.0).floor_is_odd());
    assert!(!s(1e30).floor_is_odd());
    assert!(!s(f32::INFINITY).floor_is_odd());
    assert!(!s(f32::NAN).floor_is_odd());
}

#[test]
fn comparisons_match_hardware() {
    let xs: Vec<f32> = samples();
    for a in xs.iter() {
        for b in xs.iter() {
            assert_eq!(s(*a).lt(s(*b)), *a < *b, "{:?} < {:?}", a, b);
            assert_eq!(s(*a).gt(s(*b)), *a > *b, "{:?} > {:?}", a, b);
            assert_eq!(s(*a).eq_number(s(*b)), *a == *b, "{:?} == {:?}", a, b);
        }
    }
}

#[test]
fn min_max_match_hardware() {
    let xs: Vec<f32> = samples();
    for a in xs.iter() {
        for b in xs.iter() {
            let low: f32 = f(s(*a).min(s(*b)));
            let high: f32 = f(s(*a).max(s(*b)));
            let want_low: f32 = a.min(*b);
            let want_high: f32 = a.max(*b);
            assert!(low == want_low || (low.is_nan() && want_low.is_nan()), "min {:?} {:?}", a, b);
            assert!(high == want_high || (high.is_nan() && want_high.is_nan()), "max {:?} {:?}", a, b);
        }
    }
}

#[test]
fn sign_operations() {
    assert_eq!(s(1.5).neg(), s(-1.5));
    assert_eq!(s(-1.5).neg(), s(1.5));
    assert_eq!(s(0.0).neg(), s(-0.0));
    assert_eq!(s(-1.5).abs(), s(1.5));
    assert_eq!(s(1.5).abs(), s(1.5));
    assert!(s(f32::NAN).neg().is_nan());
    assert!(s(-0.0).is_sign_negative());
    assert!(s(-0.0).is_zero());
    assert!(!s(0.0).is_sign_negative());
    assert!(s(f32::INFINITY).is_infinite());
    assert!(!s(f32::INFINITY).is_finite());
    assert!(s(1e-45).is_finite());
}

#[test]
fn integers_convert_as_casts_do() {
    let values: Vec<u64> = vec![
        0,
        1,
        2,
        41,
        289,
        16777215,
        16777216,
        16777217,
        16777218,
        16777219,
        33554431,
        4294967295,
        4294967296,
        1 << 40,
        (1 << 40) + (1 << 16),
        (1 << 40) + (1 << 16) + 1,
        u64::MAX,
        u64::MAX - (1 << 39),
        u64::MAX - (1 << 40),
    ];
    for n in values.iter() {
        assert_eq!(Scalar::from_integer(*n).to_bits(), (*n as f32).to_bits(), "{}", n);
    }
}

#[test]
fn exact_sums_and_products() {
    assert_eq!(s(1.0).add(s(2.0)), s(3.0));
    assert_eq!(s(0.1).add(s(0.2)), s(0.1 + 0.2));
    assert_eq!(s(1.5).mul(s(-2.0)), s(-3.0));
    assert_eq!(s(1.0).div(s(4.0)), s(0.25));
    assert_eq!(s(7.0).rem(s(3.0)), s(1.0));
    assert_eq!(s(-7.0).rem(s(3.0)), s(-1.0));
    assert_eq!(s(9.0).sqrt(), s(3.0));
    assert_eq!(s(2.0).sqrt(), s(1.4142135));
    // Ties go to the even neighbour.
    assert_eq!(s(16777216.0).add(s(1.0)), s(16777216.0));
    assert_eq!(s(16777218.0).add(s(1.0)), s(16777220.0));
    // An exact zero is positive unless both operands are negative.
    assert_eq!(s(1.0).sub(s(1.0)).to_bits(), 0);
    assert_eq!(s(-0.0).add(s(-0.0)).to_bits(), 0x8000_0000);
    // Overflow gives infinity.
    assert_eq!(s(3.0e38).add(s(3.0e38)), s(f32::INFINITY));
    assert_eq!(s(3.0e38).mul(s(-10.0)), s(f32::NEG_INFINITY));
    // What has no value is a NaN.
    assert!(s(f32::INFINITY).sub(s(f32::INFINITY)).is_nan());
    assert!(s(0.0).mul(s(f32::INFINITY)).is_nan());
    assert!(s(0.0).div(s(0.0)).is_nan());
    assert!(s(-1.0).sqrt().is_nan());
    assert!(s(1.0).rem(s(0.0)).is_nan());
}
