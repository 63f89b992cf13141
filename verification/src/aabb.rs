//! Axis-aligned bounding boxes and the slab test.

use vstd::prelude::*;
use crate::ordinal::{greater, is_nan, le, less, less_eq, lesser, lt, max, min, Ordinal, ZERO};
use crate::vec3::Vec3;

verus! {

/// The distances along a ray at which a hit counts: from `start`, short of
/// `end`.
#[derive(Clone, Copy, Debug, PartialEq, Eq, Structural)]
pub struct DistanceRange {
    pub start: Ordinal,
    pub end: Ordinal,
}

impl DistanceRange {
    /// `start <= distance < end`.
    pub open spec fn holds(self, distance: Ordinal) -> bool {
        le(self.start, distance) && lt(distance, self.end)
    }

    /// Tells whether a distance lies in the range.
    #[inline]
    pub fn contains(&self, distance: Ordinal) -> (inside: bool)
        ensures
            inside == self.holds(distance),
    {
        less_eq(self.start, distance) && less(distance, self.end)
    }
}

/// An axis-aligned box, given by its corner of least and its corner of
/// greatest coordinates.
#[derive(Clone, Copy, Debug, PartialEq, Eq, Structural)]
pub struct Aabb {
    pub min_point: Vec3,
    pub max_point: Vec3,
}

impl Aabb {
    /// Both corners are numbers, and the least corner is below the greatest.
    pub open spec fn wf(self) -> bool {
        &&& self.min_point.is_number()
        &&& self.max_point.is_number()
        &&& self.min_point.below(self.max_point)
    }

    /// The box that denotes all of space: both corners have an infinite
    /// coordinate.
    pub open spec fn unbounded(self) -> bool {
        self.min_point.some_infinite() && self.max_point.some_infinite()
    }

    /// The least box that holds both `self` and `rhs`.
    pub open spec fn union(self, rhs: Aabb) -> Aabb {
        Aabb {
            min_point: self.min_point.meet(rhs.min_point),
            max_point: self.max_point.join(rhs.max_point),
        }
    }

    /// `inner` lies within `self`.
    pub open spec fn encloses(self, inner: Aabb) -> bool {
        self.min_point.below(inner.min_point) && inner.max_point.below(self.max_point)
    }

    /// Where a ray is inside all three slabs, given the distances at which
    /// it meets the planes through the two corners.
    pub open spec fn entry(min_plane_distances: Vec3, max_plane_distances: Vec3) -> Ordinal {
        min_plane_distances.meet(max_plane_distances).greatest()
    }

    /// Where a ray has left one of the three slabs.
    pub open spec fn exit(min_plane_distances: Vec3, max_plane_distances: Vec3) -> Ordinal {
        min_plane_distances.join(max_plane_distances).least()
    }

    /// The stretch of a ray inside the box and inside `distance_range`, if
    /// there is one.
    pub open spec fn slab_interval(
        self,
        min_plane_distances: Vec3,
        max_plane_distances: Vec3,
        distance_range: DistanceRange,
    ) -> Option<(Ordinal, Ordinal)> {
        let far = min(Self::exit(min_plane_distances, max_plane_distances), distance_range.end);
        let near = max(
            Self::entry(min_plane_distances, max_plane_distances),
            distance_range.start,
        );
        if self.unbounded() {
            Some((distance_range.start, distance_range.end))
        } else if lt(far, ZERO) {
            None
        } else if le(near, far) {
            Some((near, far))
        } else {
            None
        }
    }

    /// Tells whether the box denotes all of space.
    #[inline]
    pub fn is_unbounded(&self) -> (unbounded: bool)
        ensures
            unbounded == self.unbounded(),
    {
        self.min_point.is_infinite() && self.max_point.is_infinite()
    }

    /// Tells whether `inner` lies within the box.
    #[inline]
    pub fn contains(&self, inner: &Aabb) -> (enclosed: bool)
        ensures
            enclosed == self.encloses(*inner),
    {
        self.min_point.x <= inner.min_point.x && self.min_point.y <= inner.min_point.y
            && self.min_point.z <= inner.min_point.z && inner.max_point.x <= self.max_point.x
            && inner.max_point.y <= self.max_point.y && inner.max_point.z <= self.max_point.z
    }

    /// The slab test. The caller supplies, per axis, the distance along the
    /// ray to the plane through the least corner and to the plane through the
    /// greatest corner (infinite where the ray runs parallel to the plane).
    /// The result is the stretch of the ray that lies in the box and in
    /// `distance_range`; a box that is wholly behind the ray, or that the ray
    /// passes by, gives none. The unbounded box gives `distance_range` back.
    pub fn hit(
        &self,
        min_plane_distances: Vec3,
        max_plane_distances: Vec3,
        distance_range: &DistanceRange,
    ) -> (stretch: Option<(Ordinal, Ordinal)>)
        ensures
            stretch == self.slab_interval(
                min_plane_distances,
                max_plane_distances,
                *distance_range,
            ),
    {
        if self.is_unbounded() {
            return Some((distance_range.start, distance_range.end));
        }
        let distance_max = lesser(
            min_plane_distances.max(max_plane_distances).min_element(),
            distance_range.end,
        );
        if less(distance_max, ZERO) {
            return None;
        }
        let distance_min = greater(
            min_plane_distances.min(max_plane_distances).max_element(),
            distance_range.start,
        );
        if less_eq(distance_min, distance_max) {
            Some((distance_min, distance_max))
        } else {
            None
        }
    }

    /// The least box that holds both `self` and `rhs`.
    #[inline]
    pub fn bitor(self, rhs: Aabb) -> (both: Aabb)
        ensures
            both == self.union(rhs),
    {
        Aabb {
            min_point: self.min_point.min(rhs.min_point),
            max_point: self.max_point.max(rhs.max_point),
        }
    }
}

/// The union of two boxes is a box that holds both.
pub proof fn lemma_union_encloses(a: Aabb, b: Aabb)
    requires
        a.wf(),
        b.wf(),
    ensures
        a.union(b).wf(),
        a.union(b).encloses(a),
        a.union(b).encloses(b),
{
}

/// The union of two boxes does not depend on their order.
pub proof fn lemma_union_commutative(a: Aabb, b: Aabb)
    requires
        a.wf(),
        b.wf(),
    ensures
        a.union(b) == b.union(a),
{
}

/// The union of three boxes does not depend on how they are grouped.
pub proof fn lemma_union_associative(a: Aabb, b: Aabb, c: Aabb)
    requires
        a.wf(),
        b.wf(),
        c.wf(),
    ensures
        a.union(b).union(c) == a.union(b.union(c)),
{
}

/// The union is the least box that holds both: whatever holds both holds
/// the union.
pub proof fn lemma_union_least(a: Aabb, b: Aabb, outer: Aabb)
    requires
        a.wf(),
        b.wf(),
        outer.encloses(a),
        outer.encloses(b),
    ensures
        outer.encloses(a.union(b)),
{
}

/// A hit of the slab test lies in the range it was asked for, and is a
/// stretch that begins no later than it ends.
pub proof fn lemma_slab_interval_in_range(
    aabb: Aabb,
    min_plane_distances: Vec3,
    max_plane_distances: Vec3,
    distance_range: DistanceRange,
)
    requires
        !aabb.unbounded(),
        !is_nan(distance_range.start),
        !is_nan(distance_range.end),
    ensures
        aabb.slab_interval(min_plane_distances, max_plane_distances, distance_range) matches Some(
            (near, far),
        ) ==> distance_range.start <= near <= far <= distance_range.end && far >= ZERO,
{
}

/// A ray that meets a box meets every box around it. Where, axis by axis,
/// the stretch between the two planes of the outer box holds that of the
/// inner box, a hit of the slab test on the inner box is a hit on the outer
/// box, and the stretch of the ray in the outer box holds that in the inner.
pub proof fn lemma_slab_monotone(
    inner: Aabb,
    outer: Aabb,
    inner_min: Vec3,
    inner_max: Vec3,
    outer_min: Vec3,
    outer_max: Vec3,
    distance_range: DistanceRange,
)
    requires
        !inner.unbounded(),
        inner_min.is_number() && inner_max.is_number(),
        outer_min.is_number() && outer_max.is_number(),
        !is_nan(distance_range.start) && !is_nan(distance_range.end),
        outer_min.meet(outer_max).below(inner_min.meet(inner_max)),
        inner_min.join(inner_max).below(outer_min.join(outer_max)),
        inner.slab_interval(inner_min, inner_max, distance_range) is Some,
    ensures
        outer.slab_interval(outer_min, outer_max, distance_range) matches Some((near, far))
            && inner.slab_interval(inner_min, inner_max, distance_range) matches Some(
            (inner_near, inner_far),
        ) && near <= inner_near && inner_far <= far,
{
}

} // verus!
