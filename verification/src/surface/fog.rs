//! Free flight through a fog of uniform density.

use vstd::prelude::*;
use crate::hit::{Hit, HitType};
use crate::ordinal::{less, lt, Ordinal};
use crate::vec3::Vec3;

verus! {

/// Tells whether a free flight ends inside the fog: the ray is scattered at
/// `hit_distance`, the distance at which it entered the fog's box plus the
/// length of the flight, if that is before it leaves the box at
/// `max_distance`.
pub fn accepts(hit_distance: Ordinal, max_distance: Ordinal) -> (hit: bool)
    ensures
        hit == lt(hit_distance, max_distance),
{
    less(hit_distance, max_distance)
}

/// Completes a hit in a fog: the ray passes through a scattering element
/// whose normal is the ray's direction reversed.
pub fn hit(distance: Ordinal, location: Vec3, direction: Vec3, surface: usize) -> (hit: Hit)
    requires
        direction.is_ordinal(),
    ensures
        hit.distance == distance,
        hit.location == location,
        hit.surface == surface,
        hit.type_ == HitType::Refract,
        hit.normal == (Vec3 {
            x: (-direction.x) as i64,
            y: (-direction.y) as i64,
            z: (-direction.z) as i64,
        }),
{
    Hit { location, normal: direction.neg(), distance, type_: HitType::Refract, surface }
}

} // verus!
