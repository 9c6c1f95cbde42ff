//! Primitive noise-making functions and traits.
//!
//! Usually the sources of the other modules are more convenient than the
//! functions here.
use vstd::prelude::*;
use crate::scalar::{Scalar, ONE_BITS};
use crate::vectors::{Vector2, Vector3};

verus! {

/// Why a noise source gave no value.
#[derive(Clone, Copy, PartialEq, Eq, Debug)]
pub enum NoiseError {
    /// A fractal source was asked for fewer than two or more than thirty
    /// octaves.
    InvalidOctaveCount,
    /// The source cannot produce a value the way it was asked; the text
    /// says why.
    Unsupported(&'static str),
}

impl NoiseError {
    /// The text that goes with the error.
    pub open spec fn text(self) -> Seq<char> {
        match self {
            NoiseError::InvalidOctaveCount => "the number of octaves must be from 2 to 30"@,
            NoiseError::Unsupported(reason) => reason@,
        }
    }

    /// The text that goes with the error: for an unsupported evaluation,
    /// the reason it carries.
    pub fn reason(&self) -> (r: &'static str)
        ensures
            r@ == self.text(),
    {
        match self {
            NoiseError::InvalidOctaveCount => "the number of octaves must be from 2 to 30",
            NoiseError::Unsupported(reason) => reason,
        }
    }
}

/// NoiseModules are objects that can be asked to generate procedural noise
/// values for a given coordinate.
///
/// A source is a function of its own state and of the coordinate:
/// `value_at` names what it yields, and `generate_2d` computes exactly
/// that, so two evaluations at one coordinate agree bit for bit.
pub trait NoiseModule: Clone {
    /// What has to hold of a source before it is evaluated. Nothing, unless
    /// the source says otherwise.
    open spec fn well_formed(&self) -> bool {
        true
    }

    /// The value of the source at `v`, or the reason why it has none. A
    /// source that does not say what it yields leaves it open.
    open spec fn value_at(&self, v: Vector2) -> Result<Scalar, NoiseError> {
        arbitrary()
    }

    /// Generates a noise value for the given coordinates. It is possible
    /// for this method to fail, and in this case the result holds the
    /// reason.
    fn generate_2d(&self, v: Vector2) -> (r: Result<Scalar, NoiseError>)
        requires
            self.well_formed(),
        ensures
            r == self.value_at(v),
    ;

    /// An owned duplicate of the source, for a modifier to hold.
    fn to_box(&self) -> (r: Box<Self>)
        ensures
            *r == *self,
    ;
}

/// The factor needed to skew x-y coordinates to coordinates on the grid of
/// simplexes in two dimensions. Approximates `(sqrt(3) - 1) / 2`.
pub const HAIRY_2D: u32 = 0x3ebb_67af;

/// The factor needed to unskew coordinates in the grid of simplexes to x-y
/// coordinates in two dimensions. Approximates `(3 - sqrt(3)) / 6`.
pub const SKEW_2D: u32 = 0x3e58_658c;

/// `0.5`: the squared radius beyond which a corner has no influence.
pub const HALF: u32 = 0x3f00_0000;

/// `2.0`.
pub const TWO: u32 = 0x4000_0000;

/// `-1.0`.
pub const MINUS_ONE: u32 = 0xbf80_0000;

/// `34.0`, the coefficient of the permutation polynomial.
pub const PERMUTATION_FACTOR: u32 = 0x4208_0000;

/// `289.0`, the modulus of the permutation polynomial.
pub const PERMUTATION_MODULUS: u32 = 0x4390_8000;

/// The scalar nearest to `1 / 41`, which spreads a hash over the gradients.
pub const GRADIENT_STEP: u32 = 0x3cc7_ce0c;

/// `1.79284291400159`, first coefficient of the gradient normalisation.
pub const NORMALISE_BASE: u32 = 0x3fe5_7be0;

/// `0.85373472095314`, second coefficient of the gradient normalisation.
pub const NORMALISE_SLOPE: u32 = 0x3f5a_8e5c;

/// `130.0`, which brings the sum to within about `[-1, 1]`.
pub const OUTPUT_SCALE: u32 = 0x4302_0000;

/// The scalar with the given bits.
pub open spec fn bits_of(bits: u32) -> Scalar {
    Scalar { bits }
}

fn scalar_of(bits: u32) -> (r: Scalar)
    ensures
        r == bits_of(bits),
{
    Scalar { bits }
}

/// For convenience, this trait is implemented by scalars and vectors in
/// order to make it simple to compute pseudo-random gradient indices. It
/// follows the method laid out in McEwan et al. (2012).
pub trait McEwanPermutable: Sized {
    /// The value that the permutation polynomial gives for `self`. An
    /// implementation that does not say leaves it open.
    open spec fn permuted(&self) -> Self {
        arbitrary()
    }

    /// Hashes the value using the permutation polynomial given by McEwan
    /// et al. (2012), i.e. `(34x^2 + x) mod 289`. This map has reasonably
    /// good shuffling, but should not be construed as a reliable hash for
    /// other applications.
    fn permutation_hash(&mut self) -> (r: Self)
        ensures
            *final(self) == *old(self),
            r == old(self).permuted(),
    ;
}

impl McEwanPermutable for Scalar {
    /// `((x * 34 + 1) * x) % 289`, each step rounded.
    open spec fn permuted(&self) -> Scalar {
        self.product(bits_of(PERMUTATION_FACTOR)).sum(bits_of(ONE_BITS)).product(*self).remainder(
            bits_of(PERMUTATION_MODULUS),
        )
    }

    fn permutation_hash(&mut self) -> (r: Scalar) {
        let x: Scalar = *self;
        x.mul(scalar_of(PERMUTATION_FACTOR)).add(scalar_of(ONE_BITS)).mul(x).rem(
            scalar_of(PERMUTATION_MODULUS),
        )
    }
}

impl McEwanPermutable for Vector2 {
    open spec fn permuted(&self) -> Vector2 {
        Vector2 { x: self.x.permuted(), y: self.y.permuted() }
    }

    fn permutation_hash(&mut self) -> (r: Vector2) {
        let mut x: Scalar = self.x;
        let mut y: Scalar = self.y;
        Vector2 { x: x.permutation_hash(), y: y.permutation_hash() }
    }
}

impl McEwanPermutable for Vector3 {
    open spec fn permuted(&self) -> Vector3 {
        Vector3 { x: self.x.permuted(), y: self.y.permuted(), z: self.z.permuted() }
    }

    fn permutation_hash(&mut self) -> (r: Vector3) {
        let mut x: Scalar = self.x;
        let mut y: Scalar = self.y;
        let mut z: Scalar = self.z;
        Vector3 { x: x.permutation_hash(), y: y.permutation_hash(), z: z.permutation_hash() }
    }
}

/// The corner nearest the origin of the cell of simplexes that holds `v`:
/// `v` skewed onto the grid and floored.
pub open spec fn simplex_cell(v: Vector2) -> Vector2 {
    let skew = v.x.sum(v.y).product(bits_of(HAIRY_2D));
    Vector2 { x: v.x.sum(skew).floored(), y: v.y.sum(skew).floored() }
}

/// The vector from the corner `cell`, unskewed, to `v`.
pub open spec fn cell_offset(v: Vector2, cell: Vector2) -> Vector2 {
    let back = bits_of(SKEW_2D).product(cell.x.sum(cell.y));
    v.minus(cell).plus(Vector2 { x: back, y: back })
}

/// The step from the first corner to the middle one: along x in the lower
/// simplex of the cell, where the offset's x exceeds its y, else along y.
pub open spec fn middle_step(offset: Vector2) -> Vector2 {
    if offset.y.less_than(offset.x) {
        Vector2 { x: bits_of(ONE_BITS), y: bits_of(0) }
    } else {
        Vector2 { x: bits_of(0), y: bits_of(ONE_BITS) }
    }
}

/// The vector from the middle corner to the point.
pub open spec fn middle_offset(offset: Vector2, step: Vector2) -> Vector2 {
    offset.minus(step).plus(Vector2 { x: bits_of(SKEW_2D), y: bits_of(SKEW_2D) })
}

/// The vector from the last corner to the point.
pub open spec fn last_offset(offset: Vector2) -> Vector2 {
    let shift = bits_of(MINUS_ONE).sum(bits_of(TWO).product(bits_of(SKEW_2D)));
    offset.plus(Vector2 { x: shift, y: shift })
}

/// How much a corner at the given offset counts: `max(0.5 - |d|^2, 0)^3`.
pub open spec fn falloff(offset: Vector2) -> Scalar {
    let inside = bits_of(HALF).difference(offset.dot_product(offset)).maximum(bits_of(0));
    inside.product(inside).product(inside)
}

/// The hashes of the three corners: the y coordinates permuted, the x
/// coordinates added and permuted, the seed added and permuted.
pub open spec fn corner_hashes(cell: Vector2, step: Vector2, seed: Scalar) -> Vector3 {
    let one = bits_of(ONE_BITS);
    let ys = Vector3 { x: cell.y, y: cell.y.sum(step.y), z: cell.y.sum(one) };
    let xs = Vector3 { x: cell.x, y: cell.x.sum(step.x), z: cell.x.sum(one) };
    let seeds = Vector3 { x: seed, y: seed, z: seed };
    ys.permuted().plus(xs).permuted().plus(seeds).permuted()
}

/// The x component of the gradient that a hash selects, before
/// normalisation.
pub open spec fn gradient_x(hash: Scalar) -> Scalar {
    let spread = gradient_spread(hash);
    spread.difference(spread.sum(bits_of(HALF)).floored())
}

/// The y component of the gradient that a hash selects, before
/// normalisation.
pub open spec fn gradient_y(hash: Scalar) -> Scalar {
    gradient_spread(hash).absolute().difference(bits_of(HALF))
}

/// A hash spread over `[-1, 1)`: `2 * fract(hash / 41) - 1`.
pub open spec fn gradient_spread(hash: Scalar) -> Scalar {
    bits_of(TWO).product(hash.product(bits_of(GRADIENT_STEP)).fractional()).difference(
        bits_of(ONE_BITS),
    )
}

/// The factor that brings the gradient of a hash to about unit length.
pub open spec fn gradient_scale(hash: Scalar) -> Scalar {
    let gx = gradient_x(hash);
    let gy = gradient_y(hash);
    bits_of(NORMALISE_BASE).difference(
        bits_of(NORMALISE_SLOPE).product(gx.product(gx).sum(gy.product(gy))),
    )
}

/// The gradient of a hash along an offset.
pub open spec fn gradient_along(hash: Scalar, offset: Vector2) -> Scalar {
    gradient_x(hash).product(offset.x).sum(gradient_y(hash).product(offset.y))
}

/// The simplex noise value at `v` for the seed `seed`: the falloff of each
/// corner of the simplex around `v`, times the scale of its gradient, times
/// the gradient along the offset from that corner, summed and scaled by 130.
#[verifier::opaque]
pub open spec fn simplex(v: Vector2, seed: nat) -> Scalar {
    let cell = simplex_cell(v);
    let first = cell_offset(v, cell);
    let step = middle_step(first);
    let middle = middle_offset(first, step);
    let last = last_offset(first);
    let hashes = corner_hashes(cell, step, Scalar::nearest_to(seed));
    let weights = Vector3 {
        x: falloff(first).product(gradient_scale(hashes.x)),
        y: falloff(middle).product(gradient_scale(hashes.y)),
        z: falloff(last).product(gradient_scale(hashes.z)),
    };
    let slopes = Vector3 {
        x: gradient_along(hashes.x, first),
        y: gradient_along(hashes.y, middle),
        z: gradient_along(hashes.z, last),
    };
    bits_of(OUTPUT_SCALE).product(weights.dot_product(slopes))
}

fn falloff_of(offset: Vector2) -> (r: Scalar)
    ensures
        r == falloff(offset),
{
    let inside: Scalar = scalar_of(HALF).sub(offset.dot(offset)).max(scalar_of(0));
    inside.mul(inside).mul(inside)
}

fn gradient_spread_of(hash: Scalar) -> (r: Scalar)
    ensures
        r == gradient_spread(hash),
{
    scalar_of(TWO).mul(hash.mul(scalar_of(GRADIENT_STEP)).fract()).sub(scalar_of(ONE_BITS))
}

/// Generate the coherent noise value for a point using the Simplex Noise
/// method proposed by Ken Perlin.
///
/// Simplex noise in 2D essentially works by overlaying the plane with a grid
/// of equilateral triangles (which are 2-simplexes) and pre-assigning a
/// gradient to the vertices of these triangles. Then, we simply find which
/// triangle the desired point is in, and interpolate from the vertices of
/// that triangle to the point.
///
/// This implementation follows the GLSL code of McEwan et al. (2012), with
/// some changes based on Stefan Gustavson's Java code.
pub fn snoise_2d(v: Vector2, seed: usize) -> (r: Scalar)
    ensures
        r == simplex(v, seed as nat),
{
    proof {
        reveal(simplex);
    }
    // Skew the input onto the grid of simplexes and take the floor to get
    // the corner of the cell closest to the origin.
    let skew: Scalar = v.x.add(v.y).mul(scalar_of(HAIRY_2D));
    let cell: Vector2 = Vector2::new(v.x.add(skew).floor(), v.y.add(skew).floor());

    // Where the point lies within the cell.
    let back: Scalar = scalar_of(SKEW_2D).mul(cell.x.add(cell.y));
    let first: Vector2 = v.sub_v(cell).add_v(Vector2::new(back, back));

    // Which of the two simplexes of the cell holds the point decides the
    // middle corner.
    let step: Vector2 = if first.x.gt(first.y) {
        Vector2::unit_x()
    } else {
        Vector2::unit_y()
    };
    let middle: Vector2 = first.sub_v(step).add_v(
        Vector2::new(scalar_of(SKEW_2D), scalar_of(SKEW_2D)),
    );
    let shift: Scalar = scalar_of(MINUS_ONE).add(scalar_of(TWO).mul(scalar_of(SKEW_2D)));
    let last: Vector2 = first.add_v(Vector2::new(shift, shift));

    let one: Scalar = scalar_of(ONE_BITS);
    let fseed: Scalar = Scalar::from_integer(seed as u64);
    let mut ys: Vector3 = Vector3::new(cell.y, cell.y.add(step.y), cell.y.add(one));
    let xs: Vector3 = Vector3::new(cell.x, cell.x.add(step.x), cell.x.add(one));
    let mut mixed: Vector3 = ys.permutation_hash().add_v(xs);
    let mut seeded: Vector3 = mixed.permutation_hash().add_v(Vector3::new(fseed, fseed, fseed));
    let hashes: Vector3 = seeded.permutation_hash();

    let spread: Vector3 = Vector3::new(
        gradient_spread_of(hashes.x),
        gradient_spread_of(hashes.y),
        gradient_spread_of(hashes.z),
    );
    let half: Scalar = scalar_of(HALF);
    let gy: Vector3 = Vector3::new(
        spread.x.abs().sub(half),
        spread.y.abs().sub(half),
        spread.z.abs().sub(half),
    );
    let whole: Vector3 = Vector3::new(
        spread.x.add(half).floor(),
        spread.y.add(half).floor(),
        spread.z.add(half).floor(),
    );
    let gx: Vector3 = spread.sub_v(whole);

    let base: Scalar = scalar_of(NORMALISE_BASE);
    let slope: Scalar = scalar_of(NORMALISE_SLOPE);
    let weights: Vector3 = Vector3::new(
        falloff_of(first),
        falloff_of(middle),
        falloff_of(last),
    ).mul_v(
        Vector3::new(
            base.sub(slope.mul(gx.x.mul(gx.x).add(gy.x.mul(gy.x)))),
            base.sub(slope.mul(gx.y.mul(gx.y).add(gy.y.mul(gy.y)))),
            base.sub(slope.mul(gx.z.mul(gx.z).add(gy.z.mul(gy.z)))),
        ),
    );
    let slopes: Vector3 = Vector3::new(
        gx.x.mul(first.x).add(gy.x.mul(first.y)),
        gx.y.mul(middle.x).add(gy.y.mul(middle.y)),
        gx.z.mul(last.x).add(gy.z.mul(last.y)),
    );

    // Scale the result to within about [-1, 1].
    scalar_of(OUTPUT_SCALE).mul(weights.dot(slopes))
}

} // verus!
