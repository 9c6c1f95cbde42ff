//! Pink noise brought into `[0, 1]`, over a grid of integer coordinates.
use grunge::fractal::PinkNoise;
use grunge::modifiers::Modifiable;
use grunge::primitives::NoiseModule;
use grunge::scalar::Scalar;
use grunge::vectors::Vector2;

fn s(x: f32) -> Scalar {
    Scalar::from_bits(x.to_bits())
}

fn f(x: Scalar) -> f32 {
    f32::from_bits(x.to_bits())
}

/// Evaluates the rows `from..to` of the 200 by 200 grid.
fn rows_stay_in_range(from: u32, to: u32) {
    let mut pink = PinkNoise::new(0);
    pink.frequency = s(0.01);
    let noise = pink.scalebias(s(0.5), s(0.5)).clamp(s(0.0), s(1.0));
    let mut y: u32 = from;
    while y < to {
        let mut x: u32 = 0;
        while x < 200 {
            let value: f32 = f(noise.generate_2d(Vector2::new(s(x as f32), s(y as f32))).unwrap());
            assert!(value >= 0.0 && value <= 1.0, "({}, {}): {}", x, y, value);
            x += 1;
        }
        y += 1;
    }
}

#[test]
fn pink_in_unit_range_rows_0_to_50() {
    rows_stay_in_range(0, 50);
}

#[test]
fn pink_in_unit_range_rows_50_to_100() {
    rows_stay_in_range(50, 100);
}

#[test]
fn pink_in_unit_range_rows_100_to_150() {
    rows_stay_in_range(100, 150);
}

#[test]
fn pink_in_unit_range_rows_150_to_200() {
    rows_stay_in_range(150, 200);
}

#[test]
fn pink_varies_over_the_grid() {
    let mut pink = PinkNoise::new(0);
    pink.frequency = s(0.01);
    let noise = pink.scalebias(s(0.5), s(0.5)).clamp(s(0.0), s(1.0));
    let mut low: f32 = 1.0;
    let mut high: f32 = 0.0;
    let mut n: u32 = 0;
    while n < 200 {
        let value: f32 = f(noise.generate_2d(Vector2::new(s(n as f32), s((n * 7 % 200) as f32))).unwrap());
        low = low.min(value);
        high = high.max(value);
        n += 1;
    }
    assert!(high - low > 0.1, "from {} to {}", low, high);
}
