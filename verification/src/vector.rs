//! Points and vectors of three fixed-point coordinates.

use vstd::prelude::*;
use crate::fixed::{product, saturated, saturating_sum, scale, UNIT};

verus! {

/// A vector of three mathematical integers: what a [`Point3`] stands for.
pub struct Vector {
    pub x: int,
    pub y: int,
    pub z: int,
}

impl Vector {
    /// The sum of two vectors.
    pub open spec fn plus(self, other: Vector) -> Vector {
        Vector { x: self.x + other.x, y: self.y + other.y, z: self.z + other.z }
    }

    /// The vector stretched by a fixed-point factor, each coordinate rounded toward zero.
    pub open spec fn scaled(self, factor: int) -> Vector {
        Vector {
            x: product(self.x, factor),
            y: product(self.y, factor),
            z: product(self.z, factor),
        }
    }

    /// Each coordinate held to the range of an `i64`.
    pub open spec fn saturated(self) -> Vector {
        Vector { x: saturated(self.x), y: saturated(self.y), z: saturated(self.z) }
    }

    /// Whether every coordinate fits an `i64`.
    pub open spec fn fits(self) -> bool {
        &&& i64::MIN <= self.x <= i64::MAX
        &&& i64::MIN <= self.y <= i64::MAX
        &&& i64::MIN <= self.z <= i64::MAX
    }

    /// The square of the length, in steps squared.
    pub open spec fn norm_squared(self) -> int {
        self.x * self.x + self.y * self.y + self.z * self.z
    }
}

/// A point, or a vector, in world space.
#[derive(Clone, Copy, Debug, PartialEq, Eq, Structural)]
pub struct Point3 {
    pub x: i64,
    pub y: i64,
    pub z: i64,
}

impl View for Point3 {
    type V = Vector;

    open spec fn view(&self) -> Vector {
        Vector { x: self.x as int, y: self.y as int, z: self.z as int }
    }
}

impl Point3 {
    /// The point with the given coordinates.
    pub fn new(x: i64, y: i64, z: i64) -> (r: Point3)
        ensures
            r == (Point3 { x, y, z }),
    {
        Point3 { x, y, z }
    }

    /// The origin of world space.
    pub fn origin() -> (r: Point3)
        ensures
            r == (Point3 { x: 0, y: 0, z: 0 }),
    {
        Point3 { x: 0, y: 0, z: 0 }
    }

    /// The vertical axis: the direction that counts as "up".
    pub fn unit_y() -> (r: Point3)
        ensures
            r == (Point3 { x: 0, y: UNIT, z: 0 }),
    {
        Point3 { x: 0, y: UNIT, z: 0 }
    }

    /// This point moved by `offset`; a coordinate that would leave the range of
    /// an `i64` stops at its end.
    pub fn offset_by(&self, offset: &Point3) -> (r: Point3)
        ensures
            r@ == self@.plus(offset@).saturated(),
    {
        Point3 {
            x: saturating_sum(self.x, offset.x),
            y: saturating_sum(self.y, offset.y),
            z: saturating_sum(self.z, offset.z),
        }
    }

    /// This vector stretched by a fixed-point factor; a coordinate that would
    /// leave the range of an `i64` stops at its end.
    pub fn scaled_by(&self, factor: i64) -> (r: Point3)
        ensures
            r@ == self@.scaled(factor as int).saturated(),
    {
        Point3 { x: scale(self.x, factor), y: scale(self.y, factor), z: scale(self.z, factor) }
    }
}

} // verus!
