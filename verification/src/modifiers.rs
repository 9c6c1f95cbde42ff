//! Types for generating noise by taking a source noise generator and
//! modifying its output in some way.
//!
//! The documentation for [`Modifiable`] provides some more detail on their
//! use.
use vstd::prelude::*;
use crate::scalar::{Scalar, ONE_BITS};
use crate::vectors::Vector2;
use crate::primitives::{bits_of, NoiseError, NoiseModule, MINUS_ONE};

verus! {

/// A duplicate of `t`, as its own `clone` makes it.
pub fn clone<T: Clone>(t: &T) -> (r: T)
    ensures
        cloned(*t, r),
{
    t.clone()
}

/// A rotation of the plane about the origin, by the cosine and the sine of
/// its angle.
#[derive(Clone, Copy, PartialEq, Eq, Structural, Debug)]
pub struct Rotation {
    pub cos: Scalar,
    pub sin: Scalar,
}

impl Rotation {
    /// `v` turned by the angle: `(cos * x + (-sin) * y, sin * x + cos * y)`,
    /// each step rounded.
    pub open spec fn applied(self, v: Vector2) -> Vector2 {
        Vector2 {
            x: self.cos.product(v.x).sum(self.sin.negated().product(v.y)),
            y: self.sin.product(v.x).sum(self.cos.product(v.y)),
        }
    }

    /// The rotation with the given cosine and sine.
    pub fn new(cos: Scalar, sin: Scalar) -> (r: Rotation)
        ensures
            r.cos == cos,
            r.sin == sin,
    {
        Rotation { cos, sin }
    }

    /// Rotate a vector using this rotation.
    pub fn rotate_vector(&self, v: Vector2) -> (r: Vector2)
        ensures
            r == self.applied(v),
    {
        Vector2 {
            x: self.cos.mul(v.x).add(self.sin.neg().mul(v.y)),
            y: self.sin.mul(v.x).add(self.cos.mul(v.y)),
        }
    }
}

/// This trait provides a nice way of turning unmodified noise into modified
/// noise. All NoiseModule implementations of this library also implement
/// this trait, so that you can usually call `noise.clamp(min, max)` instead
/// of instantiating the ClampedNoise type directly. Its methods may be
/// chained.
pub trait Modifiable: NoiseModule {
    /// Modifies a source noise module by bounding its output between a
    /// `min` and `max` value.
    fn clamp(&self, min: Scalar, max: Scalar) -> (r: ClampedNoise<Self>)
        ensures
            *r.source == *self,
            r.min == min,
            r.max == max,
    {
        ClampedNoise { source: self.to_box(), min: min, max: max }
    }

    /// Modifies a source noise module by multiplying its output by a
    /// constant `scale` and applying a constant `bias` shift up or
    /// downwards.
    fn scalebias(&self, scale: Scalar, bias: Scalar) -> (r: ScaledBiasedNoise<Self>)
        ensures
            *r.source == *self,
            r.scale == scale,
            r.bias == bias,
    {
        ScaledBiasedNoise { source: self.to_box(), scale: scale, bias: bias }
    }

    /// Modifies a source noise module by translating its input by a
    /// constant vector.
    fn translate(&self, translation: Vector2) -> (r: TranslatedNoise<Self>)
        ensures
            *r.source == *self,
            r.translation == translation,
    {
        TranslatedNoise { source: self.to_box(), translation: translation }
    }

    /// Modifies a source noise module by rotating its input by an angle.
    fn rotate(&self, rotation: Rotation) -> (r: RotatedNoise<Self>)
        ensures
            *r.source == *self,
            r.rotation == rotation,
    {
        RotatedNoise { source: self.to_box(), rotation: rotation }
    }
}

/// `value` bounded: `max` where it is above `max`, else `min` where it is
/// below `min`, else itself. A NaN is neither and stays.
pub open spec fn clamped(value: Scalar, min: Scalar, max: Scalar) -> Scalar {
    if max.less_than(value) {
        max
    } else if value.less_than(min) {
        min
    } else {
        value
    }
}

/// `value * scale + bias`, each step rounded.
pub open spec fn scaled_biased(value: Scalar, scale: Scalar, bias: Scalar) -> Scalar {
    value.product(scale).sum(bias)
}

/// Modifies a source noise module by bounding its output between a `min`
/// and `max` value.
///
/// ClampedNoise can be created one of three ways: with `new()`, which uses
/// the default min and max values of `-1.0` and `1.0`, respectively; with a
/// struct literal, or with the `clamp()` method on a source module itself.
pub struct ClampedNoise<S> {
    /// The source module.
    pub source: Box<S>,
    /// The absolute lower bound for the noise output.
    pub min: Scalar,
    /// The absolute upper bound for the noise output.
    pub max: Scalar,
}

impl<S: NoiseModule> ClampedNoise<S> {
    /// Creates a new ClampedNoise with a default min and max value of
    /// `-1.0` and `1.0`, respectively.
    pub fn new(source: &S) -> (r: ClampedNoise<S>)
        ensures
            *r.source == *source,
            r.min == bits_of(MINUS_ONE),
            r.max == bits_of(ONE_BITS),
    {
        ClampedNoise {
            source: source.to_box(),
            min: Scalar { bits: MINUS_ONE },
            max: Scalar { bits: ONE_BITS },
        }
    }
}

impl<S: NoiseModule> Clone for ClampedNoise<S> {
    fn clone(&self) -> (r: ClampedNoise<S>)
        ensures
            r == *self,
    {
        ClampedNoise { source: self.source.to_box(), min: self.min, max: self.max }
    }
}

impl<S: NoiseModule> NoiseModule for ClampedNoise<S> {
    open spec fn well_formed(&self) -> bool {
        self.source.well_formed()
    }

    /// The value of the source, bounded; its error unchanged.
    open spec fn value_at(&self, v: Vector2) -> Result<Scalar, NoiseError> {
        match self.source.value_at(v) {
            Ok(val) => Ok(clamped(val, self.min, self.max)),
            Err(e) => Err(e),
        }
    }

    fn generate_2d(&self, v: Vector2) -> (r: Result<Scalar, NoiseError>) {
        match self.source.generate_2d(v) {
            Ok(val) => if val.gt(self.max) {
                Ok(self.max)
            } else if val.lt(self.min) {
                Ok(self.min)
            } else {
                Ok(val)
            },
            Err(e) => Err(e),
        }
    }

    fn to_box(&self) -> (r: Box<ClampedNoise<S>>) {
        Box::new(ClampedNoise { source: self.source.to_box(), min: self.min, max: self.max })
    }
}

impl<S: NoiseModule> Modifiable for ClampedNoise<S> {

}

/// Modifies a source noise module by multiplying its output by a constant
/// and applying a constant shift up or downwards.
pub struct ScaledBiasedNoise<S> {
    /// The source module.
    pub source: Box<S>,
    /// The linear scaling to apply to noise output.
    pub scale: Scalar,
    /// The linear transformation to apply to noise output.
    pub bias: Scalar,
}

impl<S: NoiseModule> ScaledBiasedNoise<S> {
    /// Creates a new ScaledBiasedNoise with a default scale and bias values
    /// of `1.0` and `0.0`, respectively (i.e. no change in output).
    pub fn new(source: &S) -> (r: ScaledBiasedNoise<S>)
        ensures
            *r.source == *source,
            r.scale == bits_of(ONE_BITS),
            r.bias == bits_of(0),
    {
        ScaledBiasedNoise {
            source: source.to_box(),
            scale: Scalar { bits: ONE_BITS },
            bias: Scalar { bits: 0 },
        }
    }
}

impl<S: NoiseModule> Clone for ScaledBiasedNoise<S> {
    fn clone(&self) -> (r: ScaledBiasedNoise<S>)
        ensures
            r == *self,
    {
        ScaledBiasedNoise { source: self.source.to_box(), scale: self.scale, bias: self.bias }
    }
}

impl<S: NoiseModule> NoiseModule for ScaledBiasedNoise<S> {
    open spec fn well_formed(&self) -> bool {
        self.source.well_formed()
    }

    /// The value of the source times the scale plus the bias; its error
    /// unchanged.
    open spec fn value_at(&self, v: Vector2) -> Result<Scalar, NoiseError> {
        match self.source.value_at(v) {
            Ok(val) => Ok(scaled_biased(val, self.scale, self.bias)),
            Err(e) => Err(e),
        }
    }

    fn generate_2d(&self, v: Vector2) -> (r: Result<Scalar, NoiseError>) {
        match self.source.generate_2d(v) {
            Ok(val) => Ok(val.mul(self.scale).add(self.bias)),
            Err(e) => Err(e),
        }
    }

    fn to_box(&self) -> (r: Box<ScaledBiasedNoise<S>>) {
        Box::new(
            ScaledBiasedNoise { source: self.source.to_box(), scale: self.scale, bias: self.bias },
        )
    }
}

impl<S: NoiseModule> Modifiable for ScaledBiasedNoise<S> {

}

/// Modifies a source noise module by shifting its input by a constant
/// vector.
pub struct TranslatedNoise<S> {
    /// The source module.
    pub source: Box<S>,
    /// The shift to apply to input coordinates.
    pub translation: Vector2,
}

impl<S: NoiseModule> TranslatedNoise<S> {
    /// Creates a new TranslatedNoise with the given source and translation.
    pub fn new(source: &S, translation: Vector2) -> (r: TranslatedNoise<S>)
        ensures
            *r.source == *source,
            r.translation == translation,
    {
        TranslatedNoise { source: source.to_box(), translation: translation }
    }
}

impl<S: NoiseModule> Clone for TranslatedNoise<S> {
    fn clone(&self) -> (r: TranslatedNoise<S>)
        ensures
            r == *self,
    {
        TranslatedNoise { source: self.source.to_box(), translation: self.translation }
    }
}

impl<S: NoiseModule> NoiseModule for TranslatedNoise<S> {
    open spec fn well_formed(&self) -> bool {
        self.source.well_formed()
    }

    /// The source at `v + translation`.
    open spec fn value_at(&self, v: Vector2) -> Result<Scalar, NoiseError> {
        self.source.value_at(v.plus(self.translation))
    }

    fn generate_2d(&self, v: Vector2) -> (r: Result<Scalar, NoiseError>) {
        self.source.generate_2d(v.add_v(self.translation))
    }

    fn to_box(&self) -> (r: Box<TranslatedNoise<S>>) {
        Box::new(TranslatedNoise { source: self.source.to_box(), translation: self.translation })
    }
}

impl<S: NoiseModule> Modifiable for TranslatedNoise<S> {

}

/// Modifies a source noise module by rotating its input by some angle.
pub struct RotatedNoise<S> {
    /// The source module.
    pub source: Box<S>,
    /// The rotation to apply to input coordinates.
    pub rotation: Rotation,
}

impl<S: NoiseModule> RotatedNoise<S> {
    /// Creates a new RotatedNoise with the given source and rotation.
    pub fn new(source: &S, rotation: Rotation) -> (r: RotatedNoise<S>)
        ensures
            *r.source == *source,
            r.rotation == rotation,
    {
        RotatedNoise { source: source.to_box(), rotation: rotation }
    }
}

impl<S: NoiseModule> Clone for RotatedNoise<S> {
    fn clone(&self) -> (r: RotatedNoise<S>)
        ensures
            r == *self,
    {
        RotatedNoise { source: self.source.to_box(), rotation: self.rotation }
    }
}

impl<S: NoiseModule> NoiseModule for RotatedNoise<S> {
    open spec fn well_formed(&self) -> bool {
        self.source.well_formed()
    }

    /// The source at `v` rotated.
    open spec fn value_at(&self, v: Vector2) -> Result<Scalar, NoiseError> {
        self.source.value_at(self.rotation.applied(v))
    }

    fn generate_2d(&self, v: Vector2) -> (r: Result<Scalar, NoiseError>) {
        self.source.generate_2d(self.rotation.rotate_vector(v))
    }

    fn to_box(&self) -> (r: Box<RotatedNoise<S>>) {
        Box::new(RotatedNoise { source: self.source.to_box(), rotation: self.rotation })
    }
}

impl<S: NoiseModule> Modifiable for RotatedNoise<S> {

}

/// ModifierNoise allows the use of an arbitrary function to modify noise.
pub struct ModifierNoise<S, F> {
    /// The source module.
    pub source: Box<S>,
    /// The function which maps points and initial output to a noise value.
    pub func: F,
}

impl<S: NoiseModule, F: Fn(Scalar, Scalar, Scalar) -> Result<Scalar, NoiseError> + Copy> ModifierNoise<
    S,
    F,
> {
    /// Create a new ModifierNoise with the given function.
    pub fn new(source: &S, func: F) -> (r: ModifierNoise<S, F>)
        ensures
            *r.source == *source,
            r.func == func,
    {
        ModifierNoise { source: source.to_box(), func: func }
    }
}

impl<S: NoiseModule, F: Fn(Scalar, Scalar, Scalar) -> Result<Scalar, NoiseError> + Copy> Clone for ModifierNoise<
    S,
    F,
> {
    fn clone(&self) -> (r: ModifierNoise<S, F>)
        ensures
            r == *self,
    {
        ModifierNoise { source: self.source.to_box(), func: self.func }
    }
}

impl<S: NoiseModule, F: Fn(Scalar, Scalar, Scalar) -> Result<Scalar, NoiseError> + Copy> NoiseModule for ModifierNoise<
    S,
    F,
> {
    /// The source is well formed, and the function takes every triple of
    /// scalars and gives one result for each.
    open spec fn well_formed(&self) -> bool {
        &&& self.source.well_formed()
        &&& forall|x: Scalar, y: Scalar, out: Scalar| call_requires(self.func, (x, y, out))
        &&& forall|
            x: Scalar,
            y: Scalar,
            out: Scalar,
            a: Result<Scalar, NoiseError>,
            b: Result<Scalar, NoiseError>,
        |
            call_ensures(self.func, (x, y, out), a) && call_ensures(self.func, (x, y, out), b)
                ==> a == b
    }

    /// What the function gives for the components of `v` and the value of
    /// the source; the error of the source unchanged.
    open spec fn value_at(&self, v: Vector2) -> Result<Scalar, NoiseError> {
        match self.source.value_at(v) {
            Ok(out) => choose|r: Result<Scalar, NoiseError>|
                call_ensures(self.func, (v.x, v.y, out), r),
            Err(e) => Err(e),
        }
    }

    fn generate_2d(&self, v: Vector2) -> (r: Result<Scalar, NoiseError>) {
        match self.source.generate_2d(v) {
            Ok(output) => (self.func)(v.x, v.y, output),
            Err(e) => Err(e),
        }
    }

    fn to_box(&self) -> (r: Box<ModifierNoise<S, F>>) {
        Box::new(ModifierNoise { source: self.source.to_box(), func: self.func })
    }
}

impl<S: NoiseModule, F: Fn(Scalar, Scalar, Scalar) -> Result<Scalar, NoiseError> + Copy> Modifiable for ModifierNoise<
    S,
    F,
> {

}

/// `value` is neither above `max` nor below `min`.
pub open spec fn within(value: Scalar, min: Scalar, max: Scalar) -> bool {
    !max.less_than(value) && !value.less_than(min)
}

/// Where `max` is not below `min`, a bounded value lies within the bounds,
/// unless it is a NaN, which is neither above nor below anything.
pub proof fn lemma_clamped_is_within(value: Scalar, min: Scalar, max: Scalar)
    requires
        !max.less_than(min),
    ensures
        within(clamped(value, min, max), min, max),
{
}

/// Bounding a source twice by the same bounds gives what bounding it once
/// gives, at every coordinate at which the inner bounding yields a value
/// within the bounds.
pub proof fn lemma_clamp_is_idempotent<S: NoiseModule>(
    twice: ClampedNoise<ClampedNoise<S>>,
    p: Vector2,
)
    requires
        twice.min == twice.source.min,
        twice.max == twice.source.max,
        twice.source.value_at(p) matches Ok(w) ==> within(w, twice.min, twice.max),
    ensures
        twice.value_at(p) == twice.source.value_at(p),
{
}

/// Bounding a source twice by the same bounds gives what bounding it once
/// gives, at every coordinate, where `max` is not below `min`.
pub proof fn lemma_clamp_is_idempotent_for_ordered_bounds<S: NoiseModule>(
    twice: ClampedNoise<ClampedNoise<S>>,
    p: Vector2,
)
    requires
        twice.min == twice.source.min,
        twice.max == twice.source.max,
        !twice.max.less_than(twice.min),
    ensures
        twice.value_at(p) == twice.source.value_at(p),
{
}

/// Scaling by one and shifting by zero leaves a source as it is: an error
/// stays that error, a NaN stays a NaN, and every other value stays the
/// same number, bit for bit unless it is negative zero, which becomes
/// positive zero.
pub proof fn lemma_scale_bias_identity<S: NoiseModule>(noise: ScaledBiasedNoise<S>, p: Vector2)
    requires
        noise.scale == bits_of(ONE_BITS),
        noise.bias == bits_of(0),
    ensures
        match noise.source.value_at(p) {
            Ok(v) => noise.value_at(p) matches Ok(w) && if v.nan() {
                w.nan()
            } else {
                w.same_number(v) && (!v.zero() ==> w == v)
            },
            Err(e) => noise.value_at(p) == Err::<Scalar, NoiseError>(e),
        },
{
    match noise.source.value_at(p) {
        Ok(v) => {
            crate::arith::lemma_product_with_one(v);
            crate::arith::lemma_sum_with_zero(v.product(bits_of(ONE_BITS)));
        },
        Err(e) => {},
    }
}

/// Translating by `v1` and then by `v2` evaluates the source at
/// `(p + v2) + v1`. Where that is the point `(p + v1) + v2`, the two
/// translations act as one by `v1 + v2` applied in that order.
pub proof fn lemma_translate_composition<S: NoiseModule>(
    outer: TranslatedNoise<TranslatedNoise<S>>,
    p: Vector2,
)
    requires
        p.plus(outer.translation).plus(outer.source.translation) == p.plus(
            outer.source.translation,
        ).plus(outer.translation),
    ensures
        outer.value_at(p) == outer.source.source.value_at(
            p.plus(outer.source.translation).plus(outer.translation),
        ),
{
}

} // verus!
