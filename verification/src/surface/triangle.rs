//! Ray–triangle intersection after Möller and Trumbore.

use vstd::prelude::*;
use crate::aabb::{Aabb, DistanceRange};
use crate::hit::{Hit, HitType};
use crate::ordinal::{le, less, less_eq, lt, Ordinal, ONE, ZERO};
use crate::vec3::Vec3;

verus! {

/// A ray hits a triangle where the barycentric coordinates `u` and `v` of
/// the point in the triangle's plane lie in the triangle, and the distance
/// in the range: `0 <= u <= 1`, `v >= 0`, `u + v <= 1`.
pub open spec fn inside(
    u: Ordinal,
    v: Ordinal,
    u_plus_v: Ordinal,
    distance: Ordinal,
    distance_range: DistanceRange,
) -> bool {
    &&& le(ZERO, u) && le(u, ONE)
    &&& !lt(v, ZERO)
    &&& !lt(ONE, u_plus_v)
    &&& distance_range.holds(distance)
}

/// Tells whether the point at which a ray meets a triangle's plane is a hit.
pub fn accepts(
    u: Ordinal,
    v: Ordinal,
    u_plus_v: Ordinal,
    distance: Ordinal,
    distance_range: &DistanceRange,
) -> (hit: bool)
    ensures
        hit == inside(u, v, u_plus_v, distance, *distance_range),
{
    if !(less_eq(ZERO, u) && less_eq(u, ONE)) {
        return false;
    }
    if less(v, ZERO) || less(ONE, u_plus_v) {
        return false;
    }
    distance_range.contains(distance)
}

/// Completes a hit on a triangle. `normal` is the unit normal of the
/// triangle's plane and `normal_dot_direction` its product with the ray's
/// direction. The hit carries the normal that faces the incoming ray, and
/// passes through: a triangle bounds no body.
pub fn hit(
    distance: Ordinal,
    location: Vec3,
    normal: Vec3,
    normal_dot_direction: Ordinal,
    surface: usize,
) -> (hit: Hit)
    requires
        normal.is_ordinal(),
    ensures
        hit.distance == distance,
        hit.location == location,
        hit.surface == surface,
        hit.type_ == HitType::Refract,
        lt(ZERO, normal_dot_direction) ==> hit.normal == (Vec3 {
            x: (-normal.x) as i64,
            y: (-normal.y) as i64,
            z: (-normal.z) as i64,
        }),
        !lt(ZERO, normal_dot_direction) ==> hit.normal == normal,
{
    let facing = if less(ZERO, normal_dot_direction) {
        normal.neg()
    } else {
        normal
    };
    Hit { location, normal: facing, distance, type_: HitType::Refract, surface }
}

/// The box around a triangle: coordinate by coordinate, the least and the
/// greatest of its three vertices.
pub fn aabb(v0: Vec3, v1: Vec3, v2: Vec3) -> (aabb: Aabb)
    ensures
        aabb.min_point == v0.meet(v1.meet(v2)),
        aabb.max_point == v0.join(v1.join(v2)),
        v0.is_number() && v1.is_number() && v2.is_number() ==> {
            &&& aabb.wf()
            &&& aabb.min_point.below(v0) && v0.below(aabb.max_point)
            &&& aabb.min_point.below(v1) && v1.below(aabb.max_point)
            &&& aabb.min_point.below(v2) && v2.below(aabb.max_point)
        },
{
    Aabb { min_point: v0.min(v1.min(v2)), max_point: v0.max(v1.max(v2)) }
}

} // verus!
