//! Triples of ordinals: points and directions as far as order goes.

use vstd::prelude::*;
use crate::ordinal::{
    check_finite, check_infinite, clamp, clamped, greater, is_finite, is_infinite, is_nan,
    is_ordinal, lesser, max, min, negate, Ordinal, ONE, ZERO,
};

verus! {

/// One of the three coordinate axes.
#[derive(Clone, Copy, Debug, PartialEq, Eq, Structural)]
pub enum Axis {
    X,
    Y,
    Z,
}

/// A point or a direction, each coordinate given by its ordinal.
#[derive(Clone, Copy, Debug, PartialEq, Eq, Structural)]
pub struct Vec3 {
    pub x: Ordinal,
    pub y: Ordinal,
    pub z: Ordinal,
}

impl Vec3 {
    /// No coordinate is a NaN.
    pub open spec fn is_number(self) -> bool {
        !is_nan(self.x) && !is_nan(self.y) && !is_nan(self.z)
    }

    /// Every coordinate is an ordinal whose sign can be flipped.
    pub open spec fn is_ordinal(self) -> bool {
        is_ordinal(self.x) && is_ordinal(self.y) && is_ordinal(self.z)
    }

    /// The coordinate on an axis.
    pub open spec fn coordinate(self, axis: Axis) -> Ordinal {
        match axis {
            Axis::X => self.x,
            Axis::Y => self.y,
            Axis::Z => self.z,
        }
    }

    /// Coordinate by coordinate, the lesser.
    pub open spec fn meet(self, rhs: Vec3) -> Vec3 {
        Vec3 { x: min(self.x, rhs.x), y: min(self.y, rhs.y), z: min(self.z, rhs.z) }
    }

    /// Coordinate by coordinate, the greater.
    pub open spec fn join(self, rhs: Vec3) -> Vec3 {
        Vec3 { x: max(self.x, rhs.x), y: max(self.y, rhs.y), z: max(self.z, rhs.z) }
    }

    /// The least coordinate.
    pub open spec fn least(self) -> Ordinal {
        min(self.x, min(self.y, self.z))
    }

    /// The greatest coordinate.
    pub open spec fn greatest(self) -> Ordinal {
        max(self.x, max(self.y, self.z))
    }

    /// Every coordinate of `self` is at most that of `rhs`.
    pub open spec fn below(self, rhs: Vec3) -> bool {
        self.x <= rhs.x && self.y <= rhs.y && self.z <= rhs.z
    }

    /// Some coordinate is infinite.
    pub open spec fn some_infinite(self) -> bool {
        is_infinite(self.x) || is_infinite(self.y) || is_infinite(self.z)
    }

    /// Every coordinate is a real number.
    pub open spec fn all_finite(self) -> bool {
        is_finite(self.x) && is_finite(self.y) && is_finite(self.z)
    }

    #[inline]
    pub fn new(x: Ordinal, y: Ordinal, z: Ordinal) -> (vector: Vec3)
        ensures
            vector == (Vec3 { x, y, z }),
    {
        Vec3 { x, y, z }
    }

    /// The vector with one value in every coordinate.
    #[inline]
    pub fn splat(value: Ordinal) -> (vector: Vec3)
        ensures
            vector == (Vec3 { x: value, y: value, z: value }),
    {
        Vec3 { x: value, y: value, z: value }
    }

    /// The origin.
    #[inline]
    pub fn zero() -> (vector: Vec3)
        ensures
            vector == (Vec3 { x: ZERO, y: ZERO, z: ZERO }),
    {
        Vec3::splat(ZERO)
    }

    /// The vector of ones.
    #[inline]
    pub fn one() -> (vector: Vec3)
        ensures
            vector == (Vec3 { x: ONE, y: ONE, z: ONE }),
    {
        Vec3::splat(ONE)
    }

    /// The coordinate on an axis.
    #[inline]
    pub fn along(self, axis: Axis) -> (coordinate: Ordinal)
        ensures
            coordinate == self.coordinate(axis),
    {
        match axis {
            Axis::X => self.x,
            Axis::Y => self.y,
            Axis::Z => self.z,
        }
    }

    /// Coordinate by coordinate, the greater.
    #[inline]
    pub fn max(self, rhs: Vec3) -> (vector: Vec3)
        ensures
            vector == self.join(rhs),
    {
        Vec3 { x: greater(self.x, rhs.x), y: greater(self.y, rhs.y), z: greater(self.z, rhs.z) }
    }

    /// The greatest coordinate.
    #[inline]
    pub fn max_element(self) -> (greatest: Ordinal)
        ensures
            greatest == self.greatest(),
    {
        greater(self.x, greater(self.y, self.z))
    }

    /// Coordinate by coordinate, the lesser.
    #[inline]
    pub fn min(self, rhs: Vec3) -> (vector: Vec3)
        ensures
            vector == self.meet(rhs),
    {
        Vec3 { x: lesser(self.x, rhs.x), y: lesser(self.y, rhs.y), z: lesser(self.z, rhs.z) }
    }

    /// The least coordinate.
    #[inline]
    pub fn min_element(self) -> (least: Ordinal)
        ensures
            least == self.least(),
    {
        lesser(self.x, lesser(self.y, self.z))
    }

    /// Tells whether every coordinate is a real number.
    #[inline]
    pub fn is_finite(self) -> (finite: bool)
        ensures
            finite == self.all_finite(),
    {
        check_finite(self.x) && check_finite(self.y) && check_finite(self.z)
    }

    /// Tells whether some coordinate is infinite.
    #[inline]
    pub fn is_infinite(self) -> (infinite: bool)
        ensures
            infinite == self.some_infinite(),
    {
        check_infinite(self.x) || check_infinite(self.y) || check_infinite(self.z)
    }

    /// The opposite vector.
    #[inline]
    pub fn neg(self) -> (vector: Vec3)
        requires
            self.is_ordinal(),
        ensures
            vector == (Vec3 { x: (-self.x) as i64, y: (-self.y) as i64, z: (-self.z) as i64 }),
            vector.is_ordinal(),
    {
        Vec3 { x: negate(self.x), y: negate(self.y), z: negate(self.z) }
    }

    /// Each coordinate held between those of `min` and `max`.
    #[inline]
    pub fn clamp(self, min: Vec3, max: Vec3) -> (vector: Vec3)
        requires
            min.is_number(),
            max.is_number(),
            min.below(max),
        ensures
            vector == (Vec3 {
                x: clamped(self.x, min.x, max.x),
                y: clamped(self.y, min.y, max.y),
                z: clamped(self.z, min.z, max.z),
            }),
            self.is_number() ==> min.below(vector) && vector.below(max),
    {
        Vec3 {
            x: clamp(self.x, min.x, max.x),
            y: clamp(self.y, min.y, max.y),
            z: clamp(self.z, min.z, max.z),
        }
    }
}

} // verus!
