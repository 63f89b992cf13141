//! Wavelengths of the visible spectrum and the table of colour-matching
//! functions.

use vstd::prelude::*;
use vstd::arithmetic::div_mod::{lemma_fundamental_div_mod, lemma_mod_bound};
use crate::ordinal::{le, less_eq, Ordinal};
use crate::sequence::Fraction;

verus! {

/// The shortest wavelength that is traced, in nanometres.
pub const MIN_WAVELENGTH: u64 = 360;

/// The longest wavelength that is traced, in nanometres.
pub const MAX_WAVELENGTH: u64 = 830;

/// The width of the spectrum that is traced, in nanometres.
pub const SPECTRUM_WIDTH: u64 = 470;

/// The ordinal of 0.0031308, up to which the sRGB transfer is linear.
pub const LINEAR_LIMIT: Ordinal = 0x3F69_A5C3_7387_B719;

/// A wavelength: a whole number of nanometres and a part of the next one.
#[derive(Clone, Copy, Debug, PartialEq, Eq, Structural)]
pub struct Wavelength {
    pub nanometres: u64,
    pub part: Fraction,
}

/// The entry of the table of colour-matching functions that holds a
/// wavelength of so many whole nanometres. The table has an entry for each
/// nanometre from the shortest to the longest wavelength; a colour is
/// interpolated between the entry and the one after it, so the wavelength
/// must be short of the longest.
pub fn table_slot(nanometres: u64) -> (slot: usize)
    requires
        MIN_WAVELENGTH <= nanometres < MAX_WAVELENGTH,
    ensures
        slot == nanometres - MIN_WAVELENGTH,
        slot + 1 <= SPECTRUM_WIDTH,
{
    (nanometres - MIN_WAVELENGTH) as usize
}

/// The wavelength at a sample of the unit interval: the shortest wavelength
/// plus that part of the spectrum's width, exactly.
pub fn sample_wavelength(sample: Fraction) -> (wavelength: Wavelength)
    requires
        sample.numerator < sample.denominator,
    ensures
        wavelength.nanometres == MIN_WAVELENGTH + (SPECTRUM_WIDTH * sample.numerator)
            / sample.denominator as int,
        wavelength.part.numerator == (SPECTRUM_WIDTH * sample.numerator)
            % sample.denominator as int,
        wavelength.part.denominator == sample.denominator,
        wavelength.part.numerator < wavelength.part.denominator,
        MIN_WAVELENGTH <= wavelength.nanometres < MAX_WAVELENGTH,
{
    let scaled: u128 = (SPECTRUM_WIDTH as u128) * (sample.numerator as u128);
    let whole: u128 = scaled / (sample.denominator as u128);
    let rest: u128 = scaled % (sample.denominator as u128);
    proof {
        let n = sample.numerator as int;
        let d = sample.denominator as int;
        lemma_fundamental_div_mod(470 * n, d);
        lemma_mod_bound(470 * n, d);
        assert(whole < 470) by (nonlinear_arith)
            requires
                470 * n == d * (whole as int) + (rest as int),
                0 <= rest,
                n < d,
                0 <= n,
                0 <= whole,
        ;
    }
    Wavelength {
        nanometres: MIN_WAVELENGTH + whole as u64,
        part: Fraction { numerator: rest as u64, denominator: sample.denominator },
    }
}

/// The two branches of the sRGB transfer function.
#[derive(Clone, Copy, Debug, PartialEq, Eq, Structural)]
pub enum Transfer {
    /// `12.92 * c`.
    Linear,
    /// `1.055 * c^(1 / 2.4) - 0.055`.
    Power,
}

/// Picks the branch of the sRGB transfer function for a linear channel: the
/// linear one up to 0.0031308, the power law beyond.
pub fn srgb_transfer(linear_color: Ordinal) -> (transfer: Transfer)
    ensures
        transfer == if le(linear_color, LINEAR_LIMIT) {
            Transfer::Linear
        } else {
            Transfer::Power
        },
{
    if less_eq(linear_color, LINEAR_LIMIT) {
        Transfer::Linear
    } else {
        Transfer::Power
    }
}

} // verus!
