//! Re-exports NoiseModule and all types that implement it.
//!
//! This is intended to serve as the primary API for the library.
pub use crate::primitives::{NoiseError, NoiseModule};
pub use crate::modifiers::Modifiable;
pub use crate::fractal::{BillowNoise, PinkNoise, RidgedMultifractalNoise};
pub use crate::geometry::{
    CheckerboardNoise, ConstNoise, CylinderNoise, FunctionNoise, SphereNoise,
};
pub use crate::modifiers::{
    ClampedNoise, ModifierNoise, RotatedNoise, Rotation, ScaledBiasedNoise, TranslatedNoise,
};
pub use crate::scalar::Scalar;
pub use crate::vectors::Vector2;
