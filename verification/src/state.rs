//! The state of a ray that is traced through the whole spectrum at once.
//!
//! Such a ray does not know its wavelength yet. What it meets is recorded by
//! number: the materials that attenuate it, in the order in which it met
//! them, and the materials that emit into it, each with the count of the
//! attenuators that lay behind the ray when it met the emitter. Once a
//! wavelength is chosen, the radiance of the ray is the sum over the
//! emitters of the emission times the attenuations recorded before it.

use vstd::prelude::*;

verus! {

/// An emitter that a ray met.
#[derive(Clone, Copy, Debug, PartialEq, Eq, Structural)]
pub struct Emitter {
    /// How many attenuators the ray had met before.
    pub n_attenuators: usize,
    /// The number of the emitting material.
    pub emittance: usize,
}

/// What a ray of the whole spectrum has met.
pub struct Spectrum {
    emitters: Vec<Emitter>,
    attenuators: Vec<usize>,
}

impl Spectrum {
    /// The emitters met, in order.
    pub closed spec fn emitters(&self) -> Seq<Emitter> {
        self.emitters@
    }

    /// The attenuators met, in order.
    pub closed spec fn attenuators(&self) -> Seq<usize> {
        self.attenuators@
    }

    /// No emitter counts more attenuators than were met, and a later emitter
    /// counts no fewer than an earlier one.
    pub open spec fn wf(&self) -> bool {
        &&& forall|i: int|
            0 <= i < self.emitters().len() ==> (#[trigger] self.emitters()[i]).n_attenuators
                <= self.attenuators().len()
        &&& forall|i: int, j: int|
            0 <= i <= j < self.emitters().len() ==> (#[trigger] self.emitters()[i]).n_attenuators
                <= (#[trigger] self.emitters()[j]).n_attenuators
    }

    /// The state of a ray that has met nothing.
    #[inline]
    pub fn new() -> (spectrum: Spectrum)
        ensures
            spectrum.wf(),
            spectrum.emitters().len() == 0,
            spectrum.attenuators().len() == 0,
    {
        Spectrum { emitters: Vec::new(), attenuators: Vec::new() }
    }

    /// Records an emitter, behind all the attenuators met so far.
    #[inline]
    pub fn apply_emittance(&mut self, emittance: usize)
        requires
            old(self).wf(),
        ensures
            final(self).wf(),
            final(self).attenuators() == old(self).attenuators(),
            final(self).emitters() == old(self).emitters().push(
                Emitter { n_attenuators: old(self).attenuators().len() as usize, emittance },
            ),
    {
        let n_attenuators = self.attenuators.len();
        self.emitters.push(Emitter { n_attenuators, emittance });
        proof {
            let before = old(self).emitters();
            let after = self.emitters();
            assert forall|i: int| 0 <= i < after.len() implies (#[trigger] after[i]).n_attenuators
                <= self.attenuators().len() by {
                if i < before.len() {
                    assert(after[i] == before[i]);
                }
            }
            assert forall|i: int, j: int| 0 <= i <= j < after.len() implies (#[trigger] after[i]).n_attenuators
                <= (#[trigger] after[j]).n_attenuators by {
                if j < before.len() {
                    assert(after[i] == before[i] && after[j] == before[j]);
                } else if i < before.len() {
                    assert(after[i] == before[i]);
                }
            }
        }
    }

    /// Records an attenuator.
    #[inline]
    pub fn apply_attenuation(&mut self, attenuation: usize)
        requires
            old(self).wf(),
        ensures
            final(self).wf(),
            final(self).emitters() == old(self).emitters(),
            final(self).attenuators() == old(self).attenuators().push(attenuation),
    {
        self.attenuators.push(attenuation);
        proof {
            let emitters = self.emitters();
            assert forall|i: int| 0 <= i < emitters.len() implies (#[trigger] emitters[i]).n_attenuators
                <= self.attenuators().len() by {
                assert(old(self).emitters()[i].n_attenuators <= old(self).attenuators().len());
            }
        }
    }

    /// The emitters met, in order.
    #[inline]
    pub fn emitters_met(&self) -> (emitters: &Vec<Emitter>)
        ensures
            emitters@ == self.emitters(),
    {
        &self.emitters
    }

    /// The first `n_attenuators` of the attenuators met: those that lie
    /// between the eye and an emitter that counts so many.
    pub fn attenuators_before(&self, n_attenuators: usize) -> (attenuators: Vec<usize>)
        requires
            n_attenuators <= self.attenuators().len(),
        ensures
            attenuators@ == self.attenuators().take(n_attenuators as int),
    {
        let mut attenuators: Vec<usize> = Vec::new();
        let mut i: usize = 0;
        while i < n_attenuators
            invariant
                i <= n_attenuators <= self.attenuators@.len(),
                attenuators@ == self.attenuators@.take(i as int),
            decreases n_attenuators - i,
        {
            attenuators.push(self.attenuators[i]);
            i = i + 1;
            assert(attenuators@ =~= self.attenuators@.take(i as int));
        }
        attenuators
    }
}

/// The state of a ray: it carries one wavelength, or still the whole
/// spectrum.
pub enum TraceState {
    /// Tracing the single wavelength.
    SingleLine,
    /// Tracing the entire spectrum.
    Spectrum(Spectrum),
}

impl TraceState {
    /// Fixes the wavelength of the ray: afterwards the ray carries a single
    /// line. Where it carried the spectrum until now, what it has met is
    /// handed out, to be summed up at the wavelength chosen.
    #[inline]
    pub fn collapse(&mut self) -> (met: Option<Spectrum>)
        ensures
            *final(self) is SingleLine,
            match *old(self) {
                TraceState::SingleLine => met is None,
                TraceState::Spectrum(spectrum) => met == Some(spectrum),
            },
    {
        let mut state = TraceState::SingleLine;
        core::mem::swap(self, &mut state);
        match state {
            TraceState::SingleLine => None,
            TraceState::Spectrum(spectrum) => Some(spectrum),
        }
    }
}

} // verus!
