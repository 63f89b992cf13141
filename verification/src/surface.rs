//! The decisions that the surfaces of a scene take when a ray meets them.
//!
//! The caller solves the geometry in its own arithmetic and hands over the
//! ordinals of what it found; the functions here say whether that is a hit,
//! at which distance, of which type, and with the normal turned which way.

use vstd::prelude::*;
use crate::hit::HitType;
use crate::ordinal::Ordinal;

pub mod fog;
pub mod sphere;
pub mod triangle;

verus! {

/// The product of a hit's normal and the ray's direction, given the product
/// `outward` of the surface's outward normal and the direction: the normal of
/// a ray that leaves a body is the outward normal flipped.
pub open spec fn facing(type_: HitType, outward: Ordinal) -> int {
    match type_ {
        HitType::Leave => -outward,
        _ => outward as int,
    }
}

} // verus!
