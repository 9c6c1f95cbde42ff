//! Fractal noise: several octaves of simplex noise, each at a higher
//! frequency and a lower amplitude than the one before, summed and divided
//! by the sum of the amplitudes.
use vstd::prelude::*;
use crate::scalar::{Scalar, ONE_BITS};
use crate::vectors::Vector2;
use crate::primitives::{bits_of, simplex, snoise_2d, NoiseError, NoiseModule, HALF, TWO};
use crate::modifiers::{clamped, Modifiable};

verus! {

/// The least number of octaves a fractal source accepts.
pub const MIN_OCTAVES: usize = 2;

/// The greatest number of octaves a fractal source accepts.
pub const MAX_OCTAVES: usize = 30;

/// The number of octaves of a source made from a seed alone.
pub const DEFAULT_OCTAVES: usize = 6;

/// `2.0`: how strongly a ridge feeds the weight of the next octave.
pub const RIDGE_GAIN: u32 = 0x4000_0000;

/// How the simplex value of an octave enters the sum.
#[derive(Clone, Copy, PartialEq, Eq, Structural, Debug)]
pub enum Shape {
    /// The value as it is.
    Pink,
    /// The value folded about zero: `2 * |n| - 1`.
    Billow,
    /// The value turned into a ridge, `(1 - |n|)^2`, and weighted by the
    /// ridge of the octave before.
    Ridged,
}

/// What a fractal source is made of.
#[derive(Clone, Copy, PartialEq, Eq, Structural, Debug)]
pub struct FractalParameters {
    /// The seed of the first octave; each further octave takes the next.
    pub seed: usize,
    /// The frequency of the first octave.
    pub frequency: Scalar,
    /// The factor by which the amplitude falls from octave to octave.
    pub persistence: Scalar,
    /// The factor by which the frequency grows from octave to octave.
    pub lacunarity: Scalar,
    /// The number of octaves, from 2 to 30.
    pub octaves: usize,
}

/// The sums of a fractal source after some octaves, and what the next
/// octave starts from.
#[derive(Clone, Copy, PartialEq, Eq, Structural, Debug)]
pub struct Octaves {
    /// The weighted sum of the octaves so far.
    pub sum: Scalar,
    /// The sum of their amplitudes.
    pub total: Scalar,
    /// The amplitude of the next octave.
    pub amplitude: Scalar,
    /// The frequency of the next octave.
    pub frequency: Scalar,
    /// The weight that the ridge of the last octave gives the next.
    pub weight: Scalar,
}

/// The seed of octave `k`: the seed of the source plus `k`, starting again
/// from zero beyond the greatest `usize`.
pub open spec fn octave_seed(seed: usize, k: nat) -> nat {
    if seed + k > usize::MAX {
        (seed + k - usize::MAX - 1) as nat
    } else {
        (seed + k) as nat
    }
}

/// `2 * |n| - 1`.
pub open spec fn billowed(n: Scalar) -> Scalar {
    bits_of(TWO).product(n.absolute()).difference(bits_of(ONE_BITS))
}

/// `(1 - |n|)^2 * weight`.
pub open spec fn ridged(n: Scalar, weight: Scalar) -> Scalar {
    let ridge = bits_of(ONE_BITS).difference(n.absolute());
    ridge.product(ridge).product(weight)
}

/// What an octave adds to the sum, from its simplex value.
pub open spec fn shaped(shape: Shape, n: Scalar, weight: Scalar) -> Scalar {
    match shape {
        Shape::Pink => n,
        Shape::Billow => billowed(n),
        Shape::Ridged => ridged(n, weight),
    }
}

/// The weight that an octave leaves for the next one: for ridges the
/// signal times the gain, bounded to `[0, 1]`; else unchanged.
pub open spec fn next_weight(shape: Shape, signal: Scalar, weight: Scalar) -> Scalar {
    match shape {
        Shape::Ridged => clamped(
            signal.product(bits_of(RIDGE_GAIN)),
            bits_of(0),
            bits_of(ONE_BITS),
        ),
        _ => weight,
    }
}

impl FractalParameters {
    /// The octave count is one that a fractal source accepts.
    pub open spec fn octaves_valid(self) -> bool {
        MIN_OCTAVES <= self.octaves <= MAX_OCTAVES
    }

    /// Before the first octave: nothing summed, amplitude and weight one.
    pub open spec fn start(self) -> Octaves {
        Octaves {
            sum: bits_of(0),
            total: bits_of(0),
            amplitude: bits_of(ONE_BITS),
            frequency: self.frequency,
            weight: bits_of(ONE_BITS),
        }
    }

    /// The sums with octave `k` added to `before`.
    pub open spec fn with_octave(self, shape: Shape, v: Vector2, before: Octaves, k: nat) -> Octaves {
        let n = simplex(v.scaled(before.frequency), octave_seed(self.seed, k));
        let signal = shaped(shape, n, before.weight);
        Octaves {
            sum: before.sum.sum(before.amplitude.product(signal)),
            total: before.total.sum(before.amplitude),
            amplitude: before.amplitude.product(self.persistence),
            frequency: before.frequency.product(self.lacunarity),
            weight: next_weight(shape, signal, before.weight),
        }
    }

    /// The sums after the octaves `0` to `count - 1`.
    pub open spec fn after(self, shape: Shape, v: Vector2, count: nat) -> Octaves
        decreases count,
    {
        if count == 0 {
            self.start()
        } else {
            self.with_octave(
                shape,
                v,
                self.after(shape, v, (count - 1) as nat),
                (count - 1) as nat,
            )
        }
    }

    /// The value of the fractal at `v`: the weighted sum of all octaves
    /// over the sum of the amplitudes. There is none when the octave count
    /// is below 2 or above 30.
    pub open spec fn value(self, shape: Shape, v: Vector2) -> Result<Scalar, NoiseError> {
        if self.octaves_valid() {
            let all = self.after(shape, v, self.octaves as nat);
            Ok(all.sum.quotient(all.total))
        } else {
            Err(NoiseError::InvalidOctaveCount)
        }
    }

    /// The parameters of a source made from a seed alone: frequency `1.0`,
    /// persistence `0.5`, lacunarity `2.0`, six octaves.
    pub open spec fn defaults(seed: usize) -> FractalParameters {
        FractalParameters {
            seed: seed,
            frequency: bits_of(ONE_BITS),
            persistence: bits_of(HALF),
            lacunarity: bits_of(TWO),
            octaves: DEFAULT_OCTAVES,
        }
    }

    /// The parameters of a source made from a seed alone.
    pub fn new(seed: usize) -> (r: FractalParameters)
        ensures
            r == FractalParameters::defaults(seed),
    {
        FractalParameters {
            seed: seed,
            frequency: Scalar { bits: ONE_BITS },
            persistence: Scalar { bits: HALF },
            lacunarity: Scalar { bits: TWO },
            octaves: DEFAULT_OCTAVES,
        }
    }

    /// Whether the octave count is within `[2, 30]`.
    pub fn check_octaves(&self) -> (r: Result<(), NoiseError>)
        ensures
            self.octaves_valid() ==> r is Ok,
            !self.octaves_valid() ==> r == Err::<(), NoiseError>(NoiseError::InvalidOctaveCount),
    {
        if self.octaves < MIN_OCTAVES || self.octaves > MAX_OCTAVES {
            Err(NoiseError::InvalidOctaveCount)
        } else {
            Ok(())
        }
    }

    /// Adds octave `k` to the sums `before`.
    fn add_octave(&self, shape: Shape, v: Vector2, before: Octaves, k: usize) -> (r: Octaves)
        requires
            k < MAX_OCTAVES,
        ensures
            r == self.with_octave(shape, v, before, k as nat),
    {
        let one: Scalar = Scalar { bits: ONE_BITS };
        let seed: usize = if self.seed > usize::MAX - k {
            k - (usize::MAX - self.seed) - 1
        } else {
            self.seed + k
        };
        let n: Scalar = snoise_2d(v.mul_s(before.frequency), seed);
        let signal: Scalar = match shape {
            Shape::Pink => n,
            Shape::Billow => Scalar { bits: TWO }.mul(n.abs()).sub(one),
            Shape::Ridged => {
                let ridge: Scalar = one.sub(n.abs());
                ridge.mul(ridge).mul(before.weight)
            },
        };
        let weight: Scalar = match shape {
            Shape::Ridged => {
                let fed: Scalar = signal.mul(Scalar { bits: RIDGE_GAIN });
                if fed.gt(one) {
                    one
                } else if fed.lt(Scalar { bits: 0 }) {
                    Scalar { bits: 0 }
                } else {
                    fed
                }
            },
            _ => before.weight,
        };
        Octaves {
            sum: before.sum.add(before.amplitude.mul(signal)),
            total: before.total.add(before.amplitude),
            amplitude: before.amplitude.mul(self.persistence),
            frequency: before.frequency.mul(self.lacunarity),
            weight: weight,
        }
    }

    /// The value of the fractal at `v`.
    pub fn generate(&self, shape: Shape, v: Vector2) -> (r: Result<Scalar, NoiseError>)
        ensures
            r == self.value(shape, v),
            r is Ok <==> self.octaves_valid(),
    {
        match self.check_octaves() {
            Err(e) => {
                return Err(e);
            },
            Ok(_) => {},
        }
        let one: Scalar = Scalar { bits: ONE_BITS };
        let mut state: Octaves = Octaves {
            sum: Scalar { bits: 0 },
            total: Scalar { bits: 0 },
            amplitude: one,
            frequency: self.frequency,
            weight: one,
        };
        let mut k: usize = 0;
        while k < self.octaves
            invariant
                k <= self.octaves <= MAX_OCTAVES,
                state == self.after(shape, v, k as nat),
            decreases self.octaves - k,
        {
            state = self.add_octave(shape, v, state, k);
            k = k + 1;
        }
        Ok(state.sum.div(state.total))
    }
}

/// Noise whose octaves enter the sum as they are.
#[derive(Clone, Copy, PartialEq, Eq, Structural, Debug)]
pub struct PinkNoise {
    /// The seed of the first octave.
    pub seed: usize,
    /// The frequency of the first octave.
    pub frequency: Scalar,
    /// The factor by which the amplitude falls from octave to octave.
    pub persistence: Scalar,
    /// The factor by which the frequency grows from octave to octave.
    pub lacunarity: Scalar,
    /// The number of octaves, from 2 to 30; checked at every evaluation.
    pub octaves: usize,
}

/// Noise whose octaves are folded about zero, which gives it a billowy
/// look.
#[derive(Clone, Copy, PartialEq, Eq, Structural, Debug)]
pub struct BillowNoise {
    /// The seed of the first octave.
    pub seed: usize,
    /// The frequency of the first octave.
    pub frequency: Scalar,
    /// The factor by which the amplitude falls from octave to octave.
    pub persistence: Scalar,
    /// The factor by which the frequency grows from octave to octave.
    pub lacunarity: Scalar,
    /// The number of octaves, from 2 to 30; checked at every evaluation.
    pub octaves: usize,
}

/// Noise whose octaves are turned into ridges, each weighted by the ridge
/// of the octave before, which gives sharp crests.
#[derive(Clone, Copy, PartialEq, Eq, Structural, Debug)]
pub struct RidgedMultifractalNoise {
    /// The seed of the first octave.
    pub seed: usize,
    /// The frequency of the first octave.
    pub frequency: Scalar,
    /// The factor by which the amplitude falls from octave to octave.
    pub persistence: Scalar,
    /// The factor by which the frequency grows from octave to octave.
    pub lacunarity: Scalar,
    /// The number of octaves, from 2 to 30; checked at every evaluation.
    pub octaves: usize,
}

impl PinkNoise {
    /// The parameters of the source, as the octave sums take them.
    pub open spec fn parameters(self) -> FractalParameters {
        FractalParameters {
            seed: self.seed,
            frequency: self.frequency,
            persistence: self.persistence,
            lacunarity: self.lacunarity,
            octaves: self.octaves,
        }
    }

    /// A source with the given seed, frequency `1.0`, persistence `0.5`,
    /// lacunarity `2.0` and six octaves.
    pub fn new(seed: usize) -> (r: PinkNoise)
        ensures
            r.parameters() == FractalParameters::defaults(seed),
    {
        PinkNoise {
            seed: seed,
            frequency: Scalar { bits: ONE_BITS },
            persistence: Scalar { bits: HALF },
            lacunarity: Scalar { bits: TWO },
            octaves: DEFAULT_OCTAVES,
        }
    }
}

impl Default for PinkNoise {
    fn default() -> (r: PinkNoise)
        ensures
            r.parameters() == FractalParameters::defaults(0),
    {
        PinkNoise::new(0)
    }
}

impl NoiseModule for PinkNoise {
    open spec fn value_at(&self, v: Vector2) -> Result<Scalar, NoiseError> {
        self.parameters().value(Shape::Pink, v)
    }

    fn generate_2d(&self, v: Vector2) -> (r: Result<Scalar, NoiseError>)
        ensures
            r is Ok <==> MIN_OCTAVES <= self.octaves <= MAX_OCTAVES,
            r is Err ==> r == Err::<Scalar, NoiseError>(NoiseError::InvalidOctaveCount),
    {
        let parameters: FractalParameters = FractalParameters {
            seed: self.seed,
            frequency: self.frequency,
            persistence: self.persistence,
            lacunarity: self.lacunarity,
            octaves: self.octaves,
        };
        parameters.generate(Shape::Pink, v)
    }

    fn to_box(&self) -> (r: Box<PinkNoise>) {
        Box::new(*self)
    }
}

impl Modifiable for PinkNoise {

}

impl BillowNoise {
    /// The parameters of the source, as the octave sums take them.
    pub open spec fn parameters(self) -> FractalParameters {
        FractalParameters {
            seed: self.seed,
            frequency: self.frequency,
            persistence: self.persistence,
            lacunarity: self.lacunarity,
            octaves: self.octaves,
        }
    }

    /// A source with the given seed, frequency `1.0`, persistence `0.5`,
    /// lacunarity `2.0` and six octaves.
    pub fn new(seed: usize) -> (r: BillowNoise)
        ensures
            r.parameters() == FractalParameters::defaults(seed),
    {
        BillowNoise {
            seed: seed,
            frequency: Scalar { bits: ONE_BITS },
            persistence: Scalar { bits: HALF },
            lacunarity: Scalar { bits: TWO },
            octaves: DEFAULT_OCTAVES,
        }
    }
}

impl Default for BillowNoise {
    fn default() -> (r: BillowNoise)
        ensures
            r.parameters() == FractalParameters::defaults(0),
    {
        BillowNoise::new(0)
    }
}

impl NoiseModule for BillowNoise {
    open spec fn value_at(&self, v: Vector2) -> Result<Scalar, NoiseError> {
        self.parameters().value(Shape::Billow, v)
    }

    fn generate_2d(&self, v: Vector2) -> (r: Result<Scalar, NoiseError>)
        ensures
            r is Ok <==> MIN_OCTAVES <= self.octaves <= MAX_OCTAVES,
            r is Err ==> r == Err::<Scalar, NoiseError>(NoiseError::InvalidOctaveCount),
    {
        let parameters: FractalParameters = FractalParameters {
            seed: self.seed,
            frequency: self.frequency,
            persistence: self.persistence,
            lacunarity: self.lacunarity,
            octaves: self.octaves,
        };
        parameters.generate(Shape::Billow, v)
    }

    fn to_box(&self) -> (r: Box<BillowNoise>) {
        Box::new(*self)
    }
}

impl Modifiable for BillowNoise {

}

impl RidgedMultifractalNoise {
    /// The parameters of the source, as the octave sums take them.
    pub open spec fn parameters(self) -> FractalParameters {
        FractalParameters {
            seed: self.seed,
            frequency: self.frequency,
            persistence: self.persistence,
            lacunarity: self.lacunarity,
            octaves: self.octaves,
        }
    }

    /// A source with the given seed, frequency `1.0`, persistence `0.5`,
    /// lacunarity `2.0` and six octaves.
    pub fn new(seed: usize) -> (r: RidgedMultifractalNoise)
        ensures
            r.parameters() == FractalParameters::defaults(seed),
    {
        RidgedMultifractalNoise {
            seed: seed,
            frequency: Scalar { bits: ONE_BITS },
            persistence: Scalar { bits: HALF },
            lacunarity: Scalar { bits: TWO },
            octaves: DEFAULT_OCTAVES,
        }
    }
}

impl Default for RidgedMultifractalNoise {
    fn default() -> (r: RidgedMultifractalNoise)
        ensures
            r.parameters() == FractalParameters::defaults(0),
    {
        RidgedMultifractalNoise::new(0)
    }
}

impl NoiseModule for RidgedMultifractalNoise {
    open spec fn value_at(&self, v: Vector2) -> Result<Scalar, NoiseError> {
        self.parameters().value(Shape::Ridged, v)
    }

    fn generate_2d(&self, v: Vector2) -> (r: Result<Scalar, NoiseError>)
        ensures
            r is Ok <==> MIN_OCTAVES <= self.octaves <= MAX_OCTAVES,
            r is Err ==> r == Err::<Scalar, NoiseError>(NoiseError::InvalidOctaveCount),
    {
        let parameters: FractalParameters = FractalParameters {
            seed: self.seed,
            frequency: self.frequency,
            persistence: self.persistence,
            lacunarity: self.lacunarity,
            octaves: self.octaves,
        };
        parameters.generate(Shape::Ridged, v)
    }

    fn to_box(&self) -> (r: Box<RidgedMultifractalNoise>) {
        Box::new(*self)
    }
}

impl Modifiable for RidgedMultifractalNoise {

}

} // verus!
