//! Types for generating noise with geometric forms.
//!
//! While these types do not produce "coherent" noise per se, they can be
//! very useful when constructing complex, multi-component noise.
use vstd::prelude::*;
use crate::scalar::{Scalar, ONE_BITS};
use crate::vectors::Vector2;
use crate::primitives::{bits_of, NoiseError, NoiseModule, MINUS_ONE};
use crate::modifiers::Modifiable;

verus! {

/// `4.0`: the slope of the triangle wave of the rings.
pub const RING_SLOPE: u32 = 0x4080_0000;

/// ConstNoise will generate the same value of noise for any input
/// coordinate.
#[derive(Clone, Copy, PartialEq, Eq, Structural, Debug)]
pub struct ConstNoise {
    /// The value of noise to output.
    pub value: Scalar,
}

impl ConstNoise {
    /// Create a new ConstNoise with the given value.
    pub fn new(value: Scalar) -> (r: ConstNoise)
        ensures
            r.value == value,
    {
        ConstNoise { value }
    }
}

impl NoiseModule for ConstNoise {
    open spec fn value_at(&self, v: Vector2) -> Result<Scalar, NoiseError> {
        Ok(self.value)
    }

    fn generate_2d(&self, v: Vector2) -> (r: Result<Scalar, NoiseError>)
        ensures
            r == Ok::<Scalar, NoiseError>(self.value),
    {
        Ok(self.value)
    }

    fn to_box(&self) -> (r: Box<ConstNoise>) {
        Box::new(ConstNoise { value: self.value })
    }
}

impl Modifiable for ConstNoise {

}

/// CheckerboardNoise will generate a checkerboard pattern: `1` on the unit
/// squares whose corner coordinates are both even or both odd, `-1` on the
/// others. A coordinate that is no finite number counts as even.
#[derive(Clone, Copy, PartialEq, Eq, Structural, Debug)]
pub struct CheckerboardNoise;

/// The colour of the square that holds `v`: `-1` where exactly one of the
/// floors of the two coordinates is odd, else `1`.
pub open spec fn checker(v: Vector2) -> Scalar {
    if v.x.floor_odd() != v.y.floor_odd() {
        bits_of(MINUS_ONE)
    } else {
        bits_of(ONE_BITS)
    }
}

/// Two points whose floors sum to the same parity lie on squares of one
/// colour; two whose sums differ in parity, on squares of opposite colours.
pub proof fn lemma_checker_parity(a: Vector2, b: Vector2)
    requires
        a.x.finite() && a.y.finite(),
        b.x.finite() && b.y.finite(),
    ensures
        (a.x.floor_integer() + a.y.floor_integer()) % 2 == (b.x.floor_integer()
            + b.y.floor_integer()) % 2 ==> checker(a) == checker(b),
        (a.x.floor_integer() + a.y.floor_integer()) % 2 != (b.x.floor_integer()
            + b.y.floor_integer()) % 2 ==> checker(a) == checker(b).negated(),
{
}

impl NoiseModule for CheckerboardNoise {
    open spec fn value_at(&self, v: Vector2) -> Result<Scalar, NoiseError> {
        Ok(checker(v))
    }

    fn generate_2d(&self, v: Vector2) -> (r: Result<Scalar, NoiseError>) {
        if v.x.floor_is_odd() != v.y.floor_is_odd() {
            Ok(Scalar { bits: MINUS_ONE })
        } else {
            Ok(Scalar { bits: ONE_BITS })
        }
    }

    fn to_box(&self) -> (r: Box<CheckerboardNoise>) {
        Box::new(CheckerboardNoise)
    }
}

impl Modifiable for CheckerboardNoise {

}

/// CylinderNoise will generate noise around concentric cylinders whose base
/// is in the x-y plane.
#[derive(Clone, Copy, PartialEq, Eq, Structural, Debug)]
pub struct CylinderNoise {
    /// The frequency of the cylinders. This value can be used to
    /// effectively change how far the rings are apart, but really just
    /// scales the input.
    pub frequency: Scalar,
}

/// This implementation is stubbed until there is 3D support.
pub type SphereNoise = CylinderNoise;

/// The height of the rings at `v`: a triangle wave of the distance of the
/// scaled point from the origin, `1 - 4 * min(f, 1 - f)` where `f` is the
/// fractional part of that distance.
pub open spec fn ring(frequency: Scalar, v: Vector2) -> Scalar {
    let one = bits_of(ONE_BITS);
    let fract = v.scaled(frequency).norm().fractional();
    one.difference(fract.minimum(one.difference(fract)).product(bits_of(RING_SLOPE)))
}

impl CylinderNoise {
    /// Create a new CylinderNoise with the given frequency.
    pub fn new(frequency: Scalar) -> (r: CylinderNoise)
        ensures
            r.frequency == frequency,
    {
        CylinderNoise { frequency }
    }
}

impl NoiseModule for CylinderNoise {
    open spec fn value_at(&self, v: Vector2) -> Result<Scalar, NoiseError> {
        Ok(ring(self.frequency, v))
    }

    fn generate_2d(&self, v: Vector2) -> (r: Result<Scalar, NoiseError>) {
        let one: Scalar = Scalar { bits: ONE_BITS };
        let fract: Scalar = v.mul_s(self.frequency).length().fract();
        Ok(one.sub(fract.min(one.sub(fract)).mul(Scalar { bits: RING_SLOPE })))
    }

    fn to_box(&self) -> (r: Box<CylinderNoise>) {
        Box::new(CylinderNoise { frequency: self.frequency })
    }
}

impl Modifiable for CylinderNoise {

}

/// FunctionNoise allows the use of an arbitrary function to generate noise.
pub struct FunctionNoise<F> {
    /// The function which maps points to a noise value.
    pub func: F,
}

impl<F: Fn(Scalar, Scalar) -> Result<Scalar, NoiseError> + Copy> FunctionNoise<F> {
    /// Create a new FunctionNoise with the given function.
    pub fn new(func: F) -> (r: FunctionNoise<F>)
        ensures
            r.func == func,
    {
        FunctionNoise { func }
    }
}

impl<F: Fn(Scalar, Scalar) -> Result<Scalar, NoiseError> + Copy> Clone for FunctionNoise<F> {
    fn clone(&self) -> (r: FunctionNoise<F>)
        ensures
            r == *self,
    {
        FunctionNoise { func: self.func }
    }
}

impl<F: Fn(Scalar, Scalar) -> Result<Scalar, NoiseError> + Copy> NoiseModule for FunctionNoise<F> {
    /// The function takes every pair of scalars, and gives one result for
    /// each.
    open spec fn well_formed(&self) -> bool {
        &&& forall|x: Scalar, y: Scalar| call_requires(self.func, (x, y))
        &&& forall|x: Scalar, y: Scalar, a: Result<Scalar, NoiseError>, b: Result<Scalar, NoiseError>|
            call_ensures(self.func, (x, y), a) && call_ensures(self.func, (x, y), b) ==> a == b
    }

    /// What the function gives for the two components of `v`.
    open spec fn value_at(&self, v: Vector2) -> Result<Scalar, NoiseError> {
        choose|r: Result<Scalar, NoiseError>| call_ensures(self.func, (v.x, v.y), r)
    }

    fn generate_2d(&self, v: Vector2) -> (r: Result<Scalar, NoiseError>) {
        (self.func)(v.x, v.y)
    }

    fn to_box(&self) -> (r: Box<FunctionNoise<F>>) {
        Box::new(FunctionNoise { func: self.func })
    }
}

impl<F: Fn(Scalar, Scalar) -> Result<Scalar, NoiseError> + Copy> Modifiable for FunctionNoise<F> {

}

} // verus!
