//! The simplex primitive against the same formula in machine arithmetic.
use grunge::primitives::{snoise_2d, McEwanPermutable, HAIRY_2D, SKEW_2D};
use grunge::scalar::Scalar;
use grunge::vectors::{Vector2, Vector3};

fn s(x: f32) -> Scalar {
    Scalar::from_bits(x.to_bits())
}

fn f(x: Scalar) -> f32 {
    f32::from_bits(x.to_bits())
}

fn point(x: f32, y: f32) -> Vector2 {
    Vector2::new(s(x), s(y))
}

fn hash(t: f32) -> f32 {
    ((t * 34.0 + 1.0) * t) % 289.0
}

fn falloff(x: f32, y: f32) -> f32 {
    let m: f32 = (0.5f32 - (x * x + y * y)).max(0.0f32);
    m * m * m
}

/// The formula of the primitive, written out in machine single precision.
fn by_machine(vx: f32, vy: f32, seed: usize) -> f32 {
    let hairy: f32 = 0.366025403784439;
    let skew: f32 = 0.211324865405187;
    let i0x: f32 = (vx + (vx + vy) * hairy).floor();
    let i0y: f32 = (vy + (vx + vy) * hairy).floor();
    let x0x: f32 = vx - i0x + skew * (i0x + i0y);
    let x0y: f32 = vy - i0y + skew * (i0x + i0y);
    let (i1x, i1y): (f32, f32) = if x0x > x0y { (1.0, 0.0) } else { (0.0, 1.0) };
    let x1x: f32 = x0x - i1x + skew;
    let x1y: f32 = x0y - i1y + skew;
    let x2x: f32 = x0x + (-1.0 + 2.0 * skew);
    let x2y: f32 = x0y + (-1.0 + 2.0 * skew);
    let m: [f32; 3] = [falloff(x0x, x0y), falloff(x1x, x1y), falloff(x2x, x2y)];
    let fseed: f32 = seed as f32;
    let ys: [f32; 3] = [i0y, i0y + i1y, i0y + 1.0];
    let xs: [f32; 3] = [i0x, i0x + i1x, i0x + 1.0];
    let corners: [(f32, f32); 3] = [(x0x, x0y), (x1x, x1y), (x2x, x2y)];
    let mut weights: [f32; 3] = [0.0; 3];
    let mut slopes: [f32; 3] = [0.0; 3];
    let mut k: usize = 0;
    while k < 3 {
        let p: f32 = hash(hash(hash(ys[k]) + xs[k]) + fseed);
        let h1: f32 = 2.0 * (p * 0.024390243902439).fract() - 1.0;
        let h2: f32 = h1.abs() - 0.5;
        let h3: f32 = (h1 + 0.5).floor();
        let h4: f32 = h1 - h3;
        weights[k] = m[k] * (1.79284291400159 - 0.85373472095314 * (h4 * h4 + h2 * h2));
        slopes[k] = h4 * corners[k].0 + h2 * corners[k].1;
        k += 1;
    }
    130.0 * (weights[0] * slopes[0] + weights[1] * slopes[1] + weights[2] * slopes[2])
}

#[test]
fn constants_are_the_nearest_scalars() {
    assert_eq!(HAIRY_2D, 0.366025403784439f32.to_bits());
    assert_eq!(SKEW_2D, 0.211324865405187f32.to_bits());
    assert_eq!(grunge::primitives::HALF, 0.5f32.to_bits());
    assert_eq!(grunge::primitives::TWO, 2.0f32.to_bits());
    assert_eq!(grunge::primitives::MINUS_ONE, (-1.0f32).to_bits());
    assert_eq!(grunge::primitives::PERMUTATION_FACTOR, 34.0f32.to_bits());
    assert_eq!(grunge::primitives::PERMUTATION_MODULUS, 289.0f32.to_bits());
    assert_eq!(grunge::primitives::GRADIENT_STEP, 0.024390243902439f32.to_bits());
    assert_eq!(grunge::primitives::NORMALISE_BASE, 1.79284291400159f32.to_bits());
    assert_eq!(grunge::primitives::NORMALISE_SLOPE, 0.85373472095314f32.to_bits());
    assert_eq!(grunge::primitives::OUTPUT_SCALE, 130.0f32.to_bits());
    assert_eq!(grunge::scalar::ONE_BITS, 1.0f32.to_bits());
    assert_eq!(grunge::geometry::RING_SLOPE, 4.0f32.to_bits());
    assert_eq!(grunge::fractal::RIDGE_GAIN, 2.0f32.to_bits());
}

#[test]
fn permutation_hash_values() {
    let mut one: Scalar = s(1.0);
    assert_eq!(one.permutation_hash(), s(35.0));
    assert_eq!(one, s(1.0));
    let mut three: Scalar = s(3.0);
    assert_eq!(three.permutation_hash(), s(20.0));
    let mut negative: Scalar = s(-3.0);
    assert_eq!(negative.permutation_hash(), s(14.0));
    let mut zero: Scalar = s(0.0);
    assert_eq!(zero.permutation_hash(), s(0.0));
    let mut pair: Vector2 = point(1.0, 3.0);
    assert_eq!(pair.permutation_hash(), point(35.0, 20.0));
    let mut triple: Vector3 = Vector3::new(s(1.0), s(3.0), s(288.0));
    assert_eq!(triple.permutation_hash(), Vector3::new(s(35.0), s(20.0), s(hash(288.0))));
}

#[test]
fn permutation_hash_matches_hardware() {
    let mut t: i32 = -700;
    while t <= 700 {
        let x: f32 = t as f32;
        let mut value: Scalar = s(x);
        assert_eq!(value.permutation_hash().to_bits(), hash(x).to_bits(), "{}", t);
        t += 1;
    }
    let mut big: Scalar = s(1.0e9);
    assert_eq!(big.permutation_hash().to_bits(), hash(1.0e9).to_bits());
}

#[test]
fn simplex_matches_hardware_on_a_grid() {
    let mut iy: i32 = -30;
    while iy < 30 {
        let mut ix: i32 = -30;
        while ix < 30 {
            let x: f32 = ix as f32 * 0.173 + 0.05;
            let y: f32 = iy as f32 * 0.291 - 0.02;
            let got: f32 = f(snoise_2d(point(x, y), 0));
            let want: f32 = by_machine(x, y, 0);
            assert!(got == want, "({}, {}): got {}, want {}", x, y, got, want);
            ix += 1;
        }
        iy += 1;
    }
}

#[test]
fn simplex_matches_hardware_for_seeds() {
    let seeds: Vec<usize> = vec![0, 1, 2, 7, 37, 288, 289, 1000, 65535, 123456789];
    for seed in seeds.iter() {
        let mut n: i32 = 0;
        while n < 60 {
            let x: f32 = n as f32 * 1.37 - 40.0;
            let y: f32 = n as f32 * -0.77 + 13.5;
            let got: f32 = f(snoise_2d(point(x, y), *seed));
            let want: f32 = by_machine(x, y, *seed);
            assert!(
                got == want || (got.is_nan() && want.is_nan()),
                "seed {} at ({}, {}): got {}, want {}",
                seed,
                x,
                y,
                got,
                want
            );
            n += 1;
        }
    }
}

#[test]
fn simplex_at_the_origin_is_zero() {
    assert_eq!(f(snoise_2d(point(0.0, 0.0), 0)), 0.0);
}

#[test]
fn simplex_is_deterministic() {
    let a: Scalar = snoise_2d(point(0.05, 0.05), 0);
    let b: Scalar = snoise_2d(point(0.05, 0.05), 0);
    assert_eq!(a, b);
    assert_eq!(f(a), by_machine(0.05, 0.05, 0));
}

#[test]
fn simplex_stays_bounded() {
    let mut n: i32 = 0;
    while n < 2000 {
        let x: f32 = (n % 50) as f32 * 0.21 - 5.0;
        let y: f32 = (n / 50) as f32 * 0.19 - 4.0;
        let value: f32 = f(snoise_2d(point(x, y), 3));
        assert!(value.is_finite() && value.abs() < 4.0, "({}, {}): {}", x, y, value);
        n += 1;
    }
}

#[test]
fn simplex_is_continuous() {
    let epsilon: f32 = 1.0e-4;
    let mut n: i32 = 0;
    while n < 1500 {
        let x: f32 = (n % 40) as f32 * 0.137 - 2.7;
        let y: f32 = (n / 40) as f32 * 0.211 - 3.9;
        let here: f32 = f(snoise_2d(point(x, y), 5));
        let right: f32 = f(snoise_2d(point(x + epsilon, y), 5));
        let up: f32 = f(snoise_2d(point(x, y + epsilon), 5));
        assert!((here - right).abs() < 0.01, "({}, {}): {} then {}", x, y, here, right);
        assert!((here - up).abs() < 0.01, "({}, {}): {} then {}", x, y, here, up);
        n += 1;
    }
}
