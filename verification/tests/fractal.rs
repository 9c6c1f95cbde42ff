//! The fractal sources.
use grunge::fractal::{BillowNoise, FractalParameters, PinkNoise, RidgedMultifractalNoise, Shape};
use grunge::primitives::{snoise_2d, NoiseError, NoiseModule};
use grunge::scalar::Scalar;
use grunge::vectors::Vector2;

fn s(x: f32) -> Scalar {
    Scalar::from_bits(x.to_bits())
}

fn f(x: Scalar) -> f32 {
    f32::from_bits(x.to_bits())
}

fn point(x: f32, y: f32) -> Vector2 {
    Vector2::new(s(x), s(y))
}

fn simplex(x: f32, y: f32, seed: usize) -> f32 {
    f(snoise_2d(point(x, y), seed))
}

#[test]
fn test_octave_requirements() {
    let mut pink = PinkNoise::new(0);
    pink.octaves = 1;
    let mut billow = BillowNoise::new(0);
    billow.octaves = 31;

    assert!(pink.generate_2d(point(0.05, 0.05)).is_err());
    assert!(billow.generate_2d(point(0.05, 0.05)).is_err());
}

#[test]
fn octave_bounds() {
    let at: Vector2 = point(0.05, 0.05);
    let mut octaves: usize = 0;
    while octaves <= 40 {
        let mut pink = PinkNoise::new(0);
        pink.octaves = octaves;
        let mut billow = BillowNoise::new(0);
        billow.octaves = octaves;
        let mut ridged = RidgedMultifractalNoise::new(0);
        ridged.octaves = octaves;
        if octaves >= 2 && octaves <= 30 {
            assert!(pink.generate_2d(at).is_ok(), "{}", octaves);
            assert!(billow.generate_2d(at).is_ok(), "{}", octaves);
            assert!(ridged.generate_2d(at).is_ok(), "{}", octaves);
        } else {
            assert!(matches!(pink.generate_2d(at), Err(NoiseError::InvalidOctaveCount)));
            assert!(matches!(billow.generate_2d(at), Err(NoiseError::InvalidOctaveCount)));
            assert!(matches!(ridged.generate_2d(at), Err(NoiseError::InvalidOctaveCount)));
        }
        octaves += 1;
    }
    let mut huge = PinkNoise::new(0);
    huge.octaves = usize::MAX;
    assert!(matches!(huge.generate_2d(at), Err(NoiseError::InvalidOctaveCount)));
}

#[test]
fn a_failed_evaluation_leaves_the_source_usable() {
    let mut pink = PinkNoise::new(4);
    let before: Scalar = pink.generate_2d(point(0.3, 0.7)).unwrap();
    pink.octaves = 1;
    assert!(pink.generate_2d(point(0.3, 0.7)).is_err());
    pink.octaves = 6;
    assert_eq!(pink.generate_2d(point(0.3, 0.7)).unwrap(), before);
}

#[test]
fn defaults() {
    let pink = PinkNoise::new(37);
    assert_eq!(pink.seed, 37);
    assert_eq!(f(pink.frequency), 1.0);
    assert_eq!(f(pink.persistence), 0.5);
    assert_eq!(f(pink.lacunarity), 2.0);
    assert_eq!(pink.octaves, 6);
    let billow = BillowNoise::default();
    assert_eq!(billow, BillowNoise::new(0));
    assert_eq!(PinkNoise::default(), PinkNoise::new(0));
    assert_eq!(RidgedMultifractalNoise::default(), RidgedMultifractalNoise::new(0));
    let parameters = FractalParameters::new(9);
    assert_eq!(parameters.seed, 9);
    assert_eq!(parameters.octaves, 6);
    assert!(parameters.check_octaves().is_ok());
}

#[test]
fn pink_sums_the_octaves() {
    let mut pink = PinkNoise::new(3);
    pink.octaves = 2;
    let x: f32 = 0.35;
    let y: f32 = -1.2;
    let first: f32 = simplex(x, y, 3);
    let second: f32 = simplex(x * 2.0, y * 2.0, 4);
    let want: f32 = (0.0 + 1.0 * first + 0.5 * second) / (0.0 + 1.0 + 0.5);
    assert_eq!(f(pink.generate_2d(point(x, y)).unwrap()), want);
}

#[test]
fn pink_uses_frequency_persistence_and_lacunarity() {
    let pink = PinkNoise {
        seed: 11,
        frequency: s(0.25),
        persistence: s(0.75),
        lacunarity: s(3.0),
        octaves: 3,
    };
    let x: f32 = 4.5;
    let y: f32 = 2.25;
    let mut sum: f32 = 0.0;
    let mut total: f32 = 0.0;
    let mut amplitude: f32 = 1.0;
    let mut frequency: f32 = 0.25;
    let mut k: usize = 0;
    while k < 3 {
        sum = sum + amplitude * simplex(x * frequency, y * frequency, 11 + k);
        total = total + amplitude;
        amplitude = amplitude * 0.75;
        frequency = frequency * 3.0;
        k += 1;
    }
    assert_eq!(f(pink.generate_2d(point(x, y)).unwrap()), sum / total);
}

#[test]
fn billow_folds_each_octave() {
    let mut billow = BillowNoise::new(5);
    billow.octaves = 2;
    let x: f32 = 0.85;
    let y: f32 = 0.4;
    let first: f32 = 2.0 * simplex(x, y, 5).abs() - 1.0;
    let second: f32 = 2.0 * simplex(x * 2.0, y * 2.0, 6).abs() - 1.0;
    let want: f32 = (0.0 + 1.0 * first + 0.5 * second) / (0.0 + 1.0 + 0.5);
    assert_eq!(f(billow.generate_2d(point(x, y)).unwrap()), want);
}

#[test]
fn ridged_feeds_the_weight_forward() {
    let mut ridged = RidgedMultifractalNoise::new(8);
    ridged.octaves = 3;
    let x: f32 = -0.6;
    let y: f32 = 1.7;
    let mut sum: f32 = 0.0;
    let mut total: f32 = 0.0;
    let mut amplitude: f32 = 1.0;
    let mut frequency: f32 = 1.0;
    let mut weight: f32 = 1.0;
    let mut k: usize = 0;
    while k < 3 {
        let ridge: f32 = 1.0 - simplex(x * frequency, y * frequency, 8 + k).abs();
        let signal: f32 = ridge * ridge * weight;
        let fed: f32 = signal * 2.0;
        weight = if fed > 1.0 {
            1.0
        } else if fed < 0.0 {
            0.0
        } else {
            fed
        };
        sum = sum + amplitude * signal;
        total = total + amplitude;
        amplitude = amplitude * 0.5;
        frequency = frequency * 2.0;
        k += 1;
    }
    assert_eq!(f(ridged.generate_2d(point(x, y)).unwrap()), sum / total);
}

#[test]
fn shapes_share_the_octave_loop() {
    let parameters = FractalParameters::new(2);
    let at: Vector2 = point(0.4, 0.9);
    assert_eq!(parameters.generate(Shape::Pink, at), PinkNoise::new(2).generate_2d(at));
    assert_eq!(parameters.generate(Shape::Billow, at), BillowNoise::new(2).generate_2d(at));
    assert_eq!(
        parameters.generate(Shape::Ridged, at),
        RidgedMultifractalNoise::new(2).generate_2d(at)
    );
}

#[test]
fn the_seed_wraps_around() {
    let mut pink = PinkNoise::new(usize::MAX);
    pink.octaves = 2;
    let x: f32 = 0.35;
    let y: f32 = -1.2;
    let first: f32 = simplex(x, y, usize::MAX);
    let second: f32 = simplex(x * 2.0, y * 2.0, 0);
    let got: f32 = f(pink.generate_2d(point(x, y)).unwrap());
    let want: f32 = (0.0 + 1.0 * first + 0.5 * second) / (0.0 + 1.0 + 0.5);
    assert!(got == want || (got.is_nan() && want.is_nan()));
}

#[test]
fn evaluation_is_deterministic() {
    let pink = PinkNoise::new(1);
    let copy = pink.clone();
    let mut n: i32 = 0;
    while n < 50 {
        let at: Vector2 = point(n as f32 * 0.31, n as f32 * -0.07);
        assert_eq!(pink.generate_2d(at), pink.generate_2d(at));
        assert_eq!(pink.generate_2d(at), copy.generate_2d(at));
        n += 1;
    }
}
