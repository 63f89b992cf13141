//! The decisions of the path-tracing loop.
//!
//! A ray is traced bounce by bounce. The caller holds the radiance and the
//! throughput of the ray and does the arithmetic; at each step it asks here
//! whether to go on, whether the hit emits, and which one of refraction,
//! diffusion and specular reflection scatters the ray.

use vstd::prelude::*;
use crate::aabb::DistanceRange;
use crate::hit::HitType;
use crate::ordinal::{
    greater, is_nan, is_ordinal, le, less, less_eq, lt, max, negate, Ordinal, INFINITY, ONE, ZERO,
};

verus! {

/// What the loop reads of a reflectance.
#[derive(Clone, Copy, Debug, PartialEq, Eq, Structural)]
pub struct Reflectance {
    /// How far a specular direction is perturbed, from 0 to 1.
    pub fuzz: Option<Ordinal>,
    /// The probability of a Lambertian reflection, from 0 to 1.
    pub diffusion: Option<Ordinal>,
}

/// What the loop reads of a material: which of its three parts it has.
#[derive(Clone, Copy, Debug, PartialEq, Eq, Structural)]
pub struct Material {
    pub reflectance: Option<Reflectance>,
    /// The material is a dielectric.
    pub transmittance: bool,
    /// The material emits light.
    pub emittance: bool,
}

/// The limits of a trace.
#[derive(Clone, Copy, Debug, PartialEq, Eq, Structural)]
pub struct TracerOptions {
    /// The number of rays per pixel.
    pub samples_per_pixel: u32,
    /// The greatest number of bounces of a ray.
    pub n_max_bounces: u16,
    /// The least distance from a ray's origin at which a hit counts.
    pub min_hit_distance: Ordinal,
    /// The throughput below which a ray is given up.
    pub min_attenuation: Ordinal,
}

impl TracerOptions {
    /// The distances at which a hit counts: from the least distance on,
    /// without end.
    pub fn distance_range(&self) -> (range: DistanceRange)
        ensures
            range == (DistanceRange { start: self.min_hit_distance, end: INFINITY }),
    {
        DistanceRange { start: self.min_hit_distance, end: INFINITY }
    }

    /// A ray goes on to its next bounce while bounces are left and its
    /// throughput has not dropped below the least.
    pub open spec fn continues(self, bounces: u32, throughput: Ordinal) -> bool {
        bounces < self.n_max_bounces && !lt(throughput, self.min_attenuation)
    }

    /// Tells whether a ray that has bounced `bounces` times goes on.
    pub fn keeps_tracing(&self, bounces: u32, throughput: Ordinal) -> (on: bool)
        ensures
            on == self.continues(bounces, throughput),
    {
        bounces < self.n_max_bounces as u32 && !less(throughput, self.min_attenuation)
    }
}

/// A hit adds the material's emission to the ray where the ray enters an
/// emitting body.
pub open spec fn emits(type_: HitType, material: Material) -> bool {
    type_ == HitType::Enter && material.emittance
}

/// Tells whether a hit adds the material's emission to the ray.
pub fn collects_emission(type_: HitType, material: &Material) -> (collected: bool)
    ensures
        collected == emits(type_, *material),
{
    match type_ {
        HitType::Enter => material.emittance,
        _ => false,
    }
}

/// The refractive indices on the ray's side and on the far side of a
/// surface, given the index outside the body and the index inside: a ray
/// that leaves the body comes from inside.
pub fn refractive_indices(type_: HitType, outside: Ordinal, inside: Ordinal) -> (indices: (
    Ordinal,
    Ordinal,
))
    ensures
        type_ == HitType::Leave ==> indices == (inside, outside),
        type_ != HitType::Leave ==> indices == (outside, inside),
{
    match type_ {
        HitType::Leave => (inside, outside),
        _ => (outside, inside),
    }
}

/// The cosine of the angle of incidence, given the product of the hit's
/// normal and the ray's direction: the product reversed, and no less than
/// zero.
pub fn incidence_cosine(normal_dot_direction: Ordinal) -> (cosine: Ordinal)
    requires
        is_ordinal(normal_dot_direction),
    ensures
        cosine == max(ZERO, (-normal_dot_direction) as i64),
        !is_nan(normal_dot_direction) ==> cosine >= ZERO,
{
    greater(ZERO, negate(normal_dot_direction))
}

/// What becomes of a ray at the surface of a dielectric.
#[derive(Clone, Copy, Debug, PartialEq, Eq, Structural)]
pub enum Refraction {
    /// The material is no dielectric.
    Opaque,
    /// The sine of the angle of refraction would exceed one.
    TotalInternalReflection,
    /// Reflection won the draw against refraction.
    Reflected,
    /// The ray is refracted. Where it leaves the body, the stretch that it
    /// has travelled inside absorbs part of it.
    Refracted { absorbing: bool },
}

/// Refraction draws a sample where the material is a dielectric and the
/// reflection is not total.
pub open spec fn refraction_draws(material: Material, sine_squared: Ordinal) -> bool {
    material.transmittance && !lt(ONE, sine_squared)
}

/// What becomes of a ray at a surface, given the square of the sine of the
/// angle of refraction, the reflectance of the surface after Schlick, and the
/// sample `drawn` to decide between reflection and refraction.
pub open spec fn refraction_of(
    material: Material,
    type_: HitType,
    sine_squared: Ordinal,
    reflectance: Ordinal,
    drawn: Ordinal,
) -> Refraction {
    if !material.transmittance {
        Refraction::Opaque
    } else if lt(ONE, sine_squared) {
        Refraction::TotalInternalReflection
    } else if lt(drawn, reflectance) {
        Refraction::Reflected
    } else {
        Refraction::Refracted { absorbing: type_ == HitType::Leave }
    }
}

/// Diffusion draws a sample where the material reflects with a probability
/// of diffusion.
pub open spec fn diffusion_draws(material: Material) -> bool {
    material.reflectance matches Some(reflectance) && reflectance.diffusion is Some
}

/// The ray is reflected diffusely where the material has a probability of
/// diffusion and the sample `drawn` is below it.
pub open spec fn diffusion_of(material: Material, drawn: Ordinal) -> bool {
    &&& material.reflectance matches Some(reflectance)
    &&& reflectance.diffusion matches Some(probability)
    &&& !le(probability, drawn)
}

/// The one way in which a ray is scattered at a hit.
#[derive(Clone, Copy, Debug, PartialEq, Eq, Structural)]
pub enum Scatter {
    /// After Snell; `absorbing` as in [`Refraction::Refracted`].
    Refraction { absorbing: bool },
    /// Lambertian reflection.
    Diffusion,
    /// Mirror reflection, perturbed by `fuzz` where there is one.
    Specular { fuzz: Option<Ordinal> },
    /// The material scatters nothing: the trace ends.
    Absorbed,
}

/// After a refraction that did not take place, diffusion is tried.
pub open spec fn falls_through(refraction: Refraction) -> bool {
    !(refraction is Refracted)
}

/// The way in which a ray is scattered: the first that succeeds of
/// refraction, diffusion and specular reflection, in this order.
pub open spec fn scatter_of(
    material: Material,
    type_: HitType,
    sine_squared: Ordinal,
    reflectance: Ordinal,
    first_drawn: Ordinal,
    second_drawn: Ordinal,
) -> Scatter {
    match refraction_of(material, type_, sine_squared, reflectance, first_drawn) {
        Refraction::Refracted { absorbing } => Scatter::Refraction { absorbing },
        _ => if diffusion_of(material, second_drawn) {
            Scatter::Diffusion
        } else {
            match material.reflectance {
                Some(surface) => Scatter::Specular { fuzz: surface.fuzz },
                None => Scatter::Absorbed,
            }
        },
    }
}

/// Decides a possible refraction after Snell's law. A material without
/// transmittance refracts nothing. Where the square of the sine of the angle
/// of refraction exceeds one, reflection is total. Else one sample is drawn,
/// and reflection wins where the reflectance exceeds the sample.
pub fn trace_refraction<D: Fn() -> Ordinal>(
    material: &Material,
    type_: HitType,
    sine_squared: Ordinal,
    reflectance: Ordinal,
    draw: &D,
) -> (refraction: Refraction)
    requires
        call_requires(*draw, ()),
    ensures
        !refraction_draws(*material, sine_squared) ==> refraction == refraction_of(
            *material,
            type_,
            sine_squared,
            reflectance,
            ZERO,
        ),
        refraction_draws(*material, sine_squared) ==> exists|drawn: Ordinal|
            call_ensures(*draw, (), drawn) && refraction == #[trigger] refraction_of(
                *material,
                type_,
                sine_squared,
                reflectance,
                drawn,
            ),
{
    if !material.transmittance {
        return Refraction::Opaque;
    }
    if less(ONE, sine_squared) {
        return Refraction::TotalInternalReflection;
    }
    let drawn = draw();
    let refraction = if less(drawn, reflectance) {
        Refraction::Reflected
    } else {
        match type_ {
            HitType::Leave => Refraction::Refracted { absorbing: true },
            _ => Refraction::Refracted { absorbing: false },
        }
    };
    assert(refraction == refraction_of(*material, type_, sine_squared, reflectance, drawn));
    refraction
}

/// Decides a Lambertian reflection: the material must reflect with a
/// probability of diffusion, and the one sample drawn be below it.
pub fn trace_diffusion<D: Fn() -> Ordinal>(material: &Material, draw: &D) -> (diffused: bool)
    requires
        call_requires(*draw, ()),
    ensures
        !diffusion_draws(*material) ==> !diffused,
        diffusion_draws(*material) ==> exists|drawn: Ordinal|
            call_ensures(*draw, (), drawn) && diffused == #[trigger] diffusion_of(
                *material,
                drawn,
            ),
{
    match material.reflectance {
        None => false,
        Some(reflectance) => match reflectance.diffusion {
            None => false,
            Some(probability) => {
                let drawn = draw();
                let diffused = !less_eq(probability, drawn);
                assert(diffused == diffusion_of(*material, drawn));
                diffused
            },
        },
    }
}

/// Decides a specular reflection: any material with a reflectance reflects,
/// with the fuzz of that reflectance.
pub fn trace_specular_reflection(material: &Material) -> (fuzz: Option<Option<Ordinal>>)
    ensures
        fuzz == match material.reflectance {
            Some(reflectance) => Some(reflectance.fuzz),
            None => None,
        },
{
    match material.reflectance {
        Some(reflectance) => Some(reflectance.fuzz),
        None => None,
    }
}

/// Picks the one way in which a ray is scattered at a hit: refraction,
/// else diffusion, else specular reflection, else none. A sample is drawn
/// only where a decision needs it: one for refraction that is possible, and
/// one for diffusion where refraction did not take place.
pub fn scatter<D: Fn() -> Ordinal>(
    material: &Material,
    type_: HitType,
    sine_squared: Ordinal,
    reflectance: Ordinal,
    draw: &D,
) -> (scatter: Scatter)
    requires
        call_requires(*draw, ()),
    ensures
        exists|first_drawn: Ordinal, second_drawn: Ordinal|
            {
                &&& refraction_draws(*material, sine_squared) ==> call_ensures(
                    *draw,
                    (),
                    first_drawn,
                )
                &&& diffusion_draws(*material) && falls_through(
                    refraction_of(*material, type_, sine_squared, reflectance, first_drawn),
                ) ==> call_ensures(*draw, (), second_drawn)
                &&& scatter == #[trigger] scatter_of(
                    *material,
                    type_,
                    sine_squared,
                    reflectance,
                    first_drawn,
                    second_drawn,
                )
            },
{
    let refraction = trace_refraction(material, type_, sine_squared, reflectance, draw);
    let ghost first_drawn = if refraction_draws(*material, sine_squared) {
        choose|drawn: Ordinal|
            call_ensures(*draw, (), drawn) && refraction == #[trigger] refraction_of(
                *material,
                type_,
                sine_squared,
                reflectance,
                drawn,
            )
    } else {
        ZERO
    };
    assert(refraction == refraction_of(*material, type_, sine_squared, reflectance, first_drawn));
    match refraction {
        Refraction::Refracted { absorbing } => {
            let scatter = Scatter::Refraction { absorbing };
            assert(scatter == scatter_of(
                *material,
                type_,
                sine_squared,
                reflectance,
                first_drawn,
                ZERO,
            ));
            scatter
        },
        _ => {
            let diffused = trace_diffusion(material, draw);
            let ghost second_drawn = if diffusion_draws(*material) {
                choose|drawn: Ordinal|
                    call_ensures(*draw, (), drawn) && diffused == #[trigger] diffusion_of(
                        *material,
                        drawn,
                    )
            } else {
                ZERO
            };
            assert(diffused == diffusion_of(*material, second_drawn));
            let scatter = if diffused {
                Scatter::Diffusion
            } else {
                match trace_specular_reflection(material) {
                    Some(fuzz) => Scatter::Specular { fuzz },
                    None => Scatter::Absorbed,
                }
            };
            assert(scatter == scatter_of(
                *material,
                type_,
                sine_squared,
                reflectance,
                first_drawn,
                second_drawn,
            ));
            scatter
        },
    }
}

/// Where a ray is refracted, the sine of the angle of refraction does not
/// exceed one.
pub proof fn lemma_refracted_sine_bounded(
    material: Material,
    type_: HitType,
    sine_squared: Ordinal,
    reflectance: Ordinal,
    drawn: Ordinal,
)
    requires
        !is_nan(sine_squared),
        refraction_of(material, type_, sine_squared, reflectance, drawn) is Refracted,
    ensures
        sine_squared <= ONE,
{
}

/// Exactly one way is picked, and it is one that the material allows:
/// refraction needs a transmittance, diffusion a probability of diffusion,
/// specular reflection a reflectance; a ray is absorbed only by a material
/// without reflectance.
pub proof fn lemma_scatter_allowed(
    material: Material,
    type_: HitType,
    sine_squared: Ordinal,
    reflectance: Ordinal,
    first_drawn: Ordinal,
    second_drawn: Ordinal,
)
    ensures
        ({
            let scatter = scatter_of(
                material,
                type_,
                sine_squared,
                reflectance,
                first_drawn,
                second_drawn,
            );
            &&& scatter is Refraction ==> material.transmittance
            &&& scatter matches Scatter::Refraction { absorbing } ==> (absorbing <==> type_
                == HitType::Leave)
            &&& scatter is Diffusion ==> diffusion_draws(material)
            &&& scatter is Specular ==> material.reflectance is Some
            &&& scatter is Absorbed <==> (material.reflectance is None && falls_through(
                refraction_of(material, type_, sine_squared, reflectance, first_drawn),
            ))
        }),
{
}

} // verus!
