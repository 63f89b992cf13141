//! Ray–sphere intersection.

use vstd::prelude::*;
use crate::aabb::DistanceRange;
use crate::hit::{Hit, HitType};
use crate::ordinal::{is_nan, less, lt, Ordinal, ZERO};
use crate::surface::facing;
use crate::vec3::Vec3;

verus! {

/// The distance at which a ray hits a sphere, given the discriminant of the
/// quadratic and its two roots: none where the discriminant is negative,
/// else the smaller root if it is in range, else the larger if that is.
pub open spec fn root_in_range(
    discriminant: Ordinal,
    smaller: Ordinal,
    larger: Ordinal,
    distance_range: DistanceRange,
) -> Option<Ordinal> {
    if lt(discriminant, ZERO) {
        None
    } else if distance_range.holds(smaller) {
        Some(smaller)
    } else if distance_range.holds(larger) {
        Some(larger)
    } else {
        None
    }
}

/// The type of a hit on a sphere, given the product of the outward normal
/// and the ray's direction: the ray enters where it runs against the normal.
pub open spec fn side(outward_dot_direction: Ordinal) -> HitType {
    if lt(outward_dot_direction, ZERO) {
        HitType::Enter
    } else {
        HitType::Leave
    }
}

/// Picks the distance of the hit among the roots of the quadratic
/// `|origin + t * direction - center|^2 = radius^2`.
pub fn pick_root(
    discriminant: Ordinal,
    smaller: Ordinal,
    larger: Ordinal,
    distance_range: &DistanceRange,
) -> (distance: Option<Ordinal>)
    ensures
        distance == root_in_range(discriminant, smaller, larger, *distance_range),
{
    if less(discriminant, ZERO) {
        None
    } else if distance_range.contains(smaller) {
        Some(smaller)
    } else if distance_range.contains(larger) {
        Some(larger)
    } else {
        None
    }
}

/// Completes a hit on a sphere. `outward_normal` is the unit vector from the
/// centre to the point of the hit and `outward_dot_direction` its product
/// with the ray's direction. A ray that runs against the outward normal
/// enters, and the hit carries that normal; any other ray leaves, and the
/// hit carries the opposite normal. Either way the normal of the hit does
/// not point along the ray.
pub fn hit(
    distance: Ordinal,
    location: Vec3,
    outward_normal: Vec3,
    outward_dot_direction: Ordinal,
    surface: usize,
) -> (hit: Hit)
    requires
        outward_normal.is_ordinal(),
    ensures
        hit.distance == distance,
        hit.location == location,
        hit.surface == surface,
        hit.type_ == side(outward_dot_direction),
        hit.type_ == HitType::Enter ==> hit.normal == outward_normal,
        hit.type_ == HitType::Leave ==> hit.normal == (Vec3 {
            x: (-outward_normal.x) as i64,
            y: (-outward_normal.y) as i64,
            z: (-outward_normal.z) as i64,
        }),
        !is_nan(outward_dot_direction) ==> facing(hit.type_, outward_dot_direction) <= 0,
{
    if less(outward_dot_direction, ZERO) {
        Hit { location, normal: outward_normal, distance, type_: HitType::Enter, surface }
    } else {
        Hit { location, normal: outward_normal.neg(), distance, type_: HitType::Leave, surface }
    }
}

} // verus!
