//! A source of the caller's own, chained like the library's.
use grunge::modifiers::Modifiable;
use grunge::primitives::{NoiseError, NoiseModule};
use grunge::scalar::Scalar;
use grunge::vectors::Vector2;

fn s(x: f32) -> Scalar {
    Scalar::from_bits(x.to_bits())
}

fn f(x: Scalar) -> f32 {
    f32::from_bits(x.to_bits())
}

/// A plane that rises along x: `slope * x + y`.
#[derive(Clone)]
struct Plane {
    slope: Scalar,
}

impl NoiseModule for Plane {
    fn generate_2d(&self, v: Vector2) -> Result<Scalar, NoiseError> {
        Ok(self.slope.mul(v.x).add(v.y))
    }

    fn to_box(&self) -> Box<Plane> {
        Box::new(self.clone())
    }
}

impl Modifiable for Plane {}

#[test]
fn a_custom_source_can_be_modified() {
    let plane = Plane { slope: s(2.0) };
    let at: Vector2 = Vector2::new(s(1.5), s(0.25));
    assert_eq!(f(plane.generate_2d(at).unwrap()), 3.25);
    let noise = plane.scalebias(s(0.85), s(-0.2)).clamp(s(0.0), s(1.0));
    assert_eq!(f(noise.generate_2d(at).unwrap()), 1.0);
    let low: Vector2 = Vector2::new(s(0.25), s(0.125));
    assert_eq!(f(noise.generate_2d(low).unwrap()), 0.625f32 * 0.85 + -0.2);
    let moved = plane.translate(Vector2::new(s(1.0), s(1.0)));
    assert_eq!(f(moved.generate_2d(low).unwrap()), 2.0 * 1.25 + 1.125);
}
