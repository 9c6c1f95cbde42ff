//! Vectors of two and three scalars, with the operations the noise
//! functions use. Every operation works component by component, in the
//! order written in its spec function.
use vstd::prelude::*;
use crate::scalar::{Scalar, ONE_BITS};

verus! {

/// A point or an offset of the plane.
#[derive(Clone, Copy, PartialEq, Eq, Structural, Debug)]
pub struct Vector2 {
    pub x: Scalar,
    pub y: Scalar,
}

/// Three scalars that go through the same steps side by side.
#[derive(Clone, Copy, PartialEq, Eq, Structural, Debug)]
pub struct Vector3 {
    pub x: Scalar,
    pub y: Scalar,
    pub z: Scalar,
}

impl Vector2 {
    /// The sum component by component.
    pub open spec fn plus(self, other: Vector2) -> Vector2 {
        Vector2 { x: self.x.sum(other.x), y: self.y.sum(other.y) }
    }

    /// The difference component by component.
    pub open spec fn minus(self, other: Vector2) -> Vector2 {
        Vector2 { x: self.x.difference(other.x), y: self.y.difference(other.y) }
    }

    /// Each component times `factor`.
    pub open spec fn scaled(self, factor: Scalar) -> Vector2 {
        Vector2 { x: self.x.product(factor), y: self.y.product(factor) }
    }

    /// `x * x' + y * y'`, each step rounded.
    pub open spec fn dot_product(self, other: Vector2) -> Scalar {
        self.x.product(other.x).sum(self.y.product(other.y))
    }

    /// The rounded square root of the dot product of `self` with itself.
    pub open spec fn norm(self) -> Scalar {
        self.dot_product(self).square_root()
    }

    /// The vector `(x, y)`.
    pub fn new(x: Scalar, y: Scalar) -> (r: Vector2)
        ensures
            r.x == x,
            r.y == y,
    {
        Vector2 { x, y }
    }

    /// The vector `(1, 0)`.
    pub fn unit_x() -> (r: Vector2)
        ensures
            r.x.bits == ONE_BITS,
            r.y.bits == 0,
    {
        Vector2 { x: Scalar { bits: ONE_BITS }, y: Scalar { bits: 0 } }
    }

    /// The vector `(0, 1)`.
    pub fn unit_y() -> (r: Vector2)
        ensures
            r.x.bits == 0,
            r.y.bits == ONE_BITS,
    {
        Vector2 { x: Scalar { bits: 0 }, y: Scalar { bits: ONE_BITS } }
    }

    /// `self + other`.
    pub fn add_v(self, other: Vector2) -> (r: Vector2)
        ensures
            r == self.plus(other),
    {
        Vector2 { x: self.x.add(other.x), y: self.y.add(other.y) }
    }

    /// `self - other`.
    pub fn sub_v(self, other: Vector2) -> (r: Vector2)
        ensures
            r == self.minus(other),
    {
        Vector2 { x: self.x.sub(other.x), y: self.y.sub(other.y) }
    }

    /// `self` scaled by `factor`.
    pub fn mul_s(self, factor: Scalar) -> (r: Vector2)
        ensures
            r == self.scaled(factor),
    {
        Vector2 { x: self.x.mul(factor), y: self.y.mul(factor) }
    }

    /// The dot product of `self` and `other`.
    pub fn dot(self, other: Vector2) -> (r: Scalar)
        ensures
            r == self.dot_product(other),
    {
        self.x.mul(other.x).add(self.y.mul(other.y))
    }

    /// The distance from the tail to the tip of the vector.
    pub fn length(self) -> (r: Scalar)
        ensures
            r == self.norm(),
    {
        self.dot(self).sqrt()
    }
}

impl Vector3 {
    /// The sum component by component.
    pub open spec fn plus(self, other: Vector3) -> Vector3 {
        Vector3 {
            x: self.x.sum(other.x),
            y: self.y.sum(other.y),
            z: self.z.sum(other.z),
        }
    }

    /// The difference component by component.
    pub open spec fn minus(self, other: Vector3) -> Vector3 {
        Vector3 {
            x: self.x.difference(other.x),
            y: self.y.difference(other.y),
            z: self.z.difference(other.z),
        }
    }

    /// The product component by component.
    pub open spec fn times(self, other: Vector3) -> Vector3 {
        Vector3 {
            x: self.x.product(other.x),
            y: self.y.product(other.y),
            z: self.z.product(other.z),
        }
    }

    /// `(x * x' + y * y') + z * z'`, each step rounded.
    pub open spec fn dot_product(self, other: Vector3) -> Scalar {
        self.x.product(other.x).sum(self.y.product(other.y)).sum(self.z.product(other.z))
    }

    /// The vector `(x, y, z)`.
    pub fn new(x: Scalar, y: Scalar, z: Scalar) -> (r: Vector3)
        ensures
            r.x == x,
            r.y == y,
            r.z == z,
    {
        Vector3 { x, y, z }
    }

    /// `self + other`.
    pub fn add_v(self, other: Vector3) -> (r: Vector3)
        ensures
            r == self.plus(other),
    {
        Vector3 { x: self.x.add(other.x), y: self.y.add(other.y), z: self.z.add(other.z) }
    }

    /// `self - other`.
    pub fn sub_v(self, other: Vector3) -> (r: Vector3)
        ensures
            r == self.minus(other),
    {
        Vector3 { x: self.x.sub(other.x), y: self.y.sub(other.y), z: self.z.sub(other.z) }
    }

    /// The product component by component.
    pub fn mul_v(self, other: Vector3) -> (r: Vector3)
        ensures
            r == self.times(other),
    {
        Vector3 { x: self.x.mul(other.x), y: self.y.mul(other.y), z: self.z.mul(other.z) }
    }

    /// The dot product of `self` and `other`.
    pub fn dot(self, other: Vector3) -> (r: Scalar)
        ensures
            r == self.dot_product(other),
    {
        self.x.mul(other.x).add(self.y.mul(other.y)).add(self.z.mul(other.z))
    }
}

} // verus!
