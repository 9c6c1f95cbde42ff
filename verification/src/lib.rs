//! Coherent noise over two-dimensional coordinates, computed bit for bit in
//! IEEE-754 single precision.
//!
//! The sources of [`modules`] are the primary interface: generators such as
//! `PinkNoise`, and modifiers that wrap any source and can be chained, as in
//! `source.scalebias(half, half).clamp(zero, one)`.
//!
//! Numbers are [`scalar::Scalar`]s, single-precision values held by their
//! bits. Their arithmetic is defined over the integers in [`rounding`],
//! [`arith`], [`integral`], [`division`] and [`root`], and every source
//! states the value it yields over that arithmetic.
pub mod scalar;
pub mod rounding;
pub mod arith;
pub mod integral;
pub mod division;
pub mod root;
pub mod vectors;
pub mod primitives;
pub mod fractal;
pub mod geometry;
pub mod modifiers;
pub mod modules;
