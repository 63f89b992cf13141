//! The order of the work on an image, and what is taken over all its pixels.

use vstd::prelude::*;
use vstd::seq_lib::{to_multiset_contains, to_multiset_len};
use crate::ordinal::{greater, is_nan, max, Ordinal, ONE};
use crate::sequence::{Fraction, Halton2, Sample2, Sequence, VanDerCorput};
use crate::vec3::Vec3;

verus! {

/// The rows `0`, `1`, ... up to `height`, in their order.
pub open spec fn rows_in_order(height: u32) -> Seq<u32> {
    Seq::new(height as nat, |y: int| y as u32)
}

/// Shuffles the rows with `fastrand::shuffle`, which only swaps items of the
/// slice: afterwards the vector holds the same rows, each as often as
/// before.
#[verifier::external_body]
fn shuffle(rows: &mut Vec<u32>)
    ensures
        final(rows)@.to_multiset() == old(rows)@.to_multiset(),
{
    fastrand::shuffle(rows.as_mut_slice());
}

/// The order in which the rows of an image are rendered: a random
/// permutation of the rows, so that each row is rendered once.
pub fn row_schedule(output_height: u32) -> (rows: Vec<u32>)
    ensures
        rows@.to_multiset() == rows_in_order(output_height).to_multiset(),
        rows.len() == output_height,
        rows@.no_duplicates(),
        forall|i: int| 0 <= i < rows.len() ==> rows[i] < output_height,
        forall|y: u32| y < output_height ==> rows@.contains(y),
{
    let mut rows: Vec<u32> = Vec::new();
    let mut y: u32 = 0;
    while y < output_height
        invariant
            y <= output_height,
            rows@ == rows_in_order(y),
        decreases output_height - y,
    {
        rows.push(y);
        y = y + 1;
        assert(rows@ =~= rows_in_order(y));
    }
    shuffle(&mut rows);
    proof {
        let sorted = rows_in_order(output_height);
        to_multiset_len(sorted);
        to_multiset_len(rows@);
        sorted.lemma_multiset_has_no_duplicates();
        rows@.lemma_multiset_has_no_duplicates_conv();
        assert forall|i: int| 0 <= i < rows.len() implies rows[i] < output_height by {
            to_multiset_contains(rows@, rows[i]);
            to_multiset_contains(sorted, rows[i]);
            assert(rows@.contains(rows[i]));
            let k = choose|k: int| 0 <= k < sorted.len() && sorted[k] == rows[i];
        }
        assert forall|y: u32| y < output_height implies rows@.contains(y) by {
            assert(sorted[y as int] == y);
            assert(sorted.contains(y));
            to_multiset_contains(rows@, y);
            to_multiset_contains(sorted, y);
        }
    }
    rows
}

/// The samples that one ray of a pixel takes from the pixel's sequences.
#[derive(Clone, Copy, Debug, PartialEq, Eq, Structural)]
pub struct PixelSample {
    /// Where in the pixel the ray starts, before the pixel's own offset.
    pub subpixel: Sample2,
    /// Where in the visible spectrum the ray's wavelength lies.
    pub wavelength: Fraction,
}

/// The sequences of a pixel: the Halton sequence in bases 5 and 3 for the
/// positions in the pixel, the Van der Corput sequence in base 2 for the
/// wavelengths.
pub struct PixelSequences {
    pub subpixel: Halton2,
    pub wavelength: VanDerCorput,
}

impl PixelSequences {
    /// Both sequences are well formed.
    pub open spec fn wf(&self) -> bool {
        self.subpixel.first().wf() && self.subpixel.second().wf() && self.wavelength.wf()
    }

    /// The sequences of a pixel, before its first ray.
    pub fn new() -> (sequences: PixelSequences)
        ensures
            sequences.wf(),
            sequences.subpixel.first().base() == 5,
            sequences.subpixel.second().base() == 3,
            sequences.wavelength.base() == 2,
            sequences.subpixel.first().drawn() == 0,
            sequences.subpixel.second().drawn() == 0,
            sequences.wavelength.drawn() == 0,
    {
        PixelSequences { subpixel: Halton2::new(5, 3), wavelength: VanDerCorput::new(2) }
    }

    /// Tells whether the samples of another ray fit the machine's integers.
    pub fn has_next(&self) -> (ready: bool)
        requires
            self.wf(),
        ensures
            ready == self.ready(),
    {
        self.subpixel.has_next() && self.wavelength.has_next()
    }
}

impl Sequence<PixelSample> for PixelSequences {
    /// Both sequences are ready.
    open spec fn ready(&self) -> bool {
        self.subpixel.ready() && self.wavelength.ready()
    }

    /// Draws the samples of the pixel's next ray: the position first, then
    /// the wavelength.
    fn next(&mut self) -> (sample: PixelSample)
        ensures
            final(self).wf(),
            final(self).subpixel.first().base() == old(self).subpixel.first().base(),
            final(self).subpixel.second().base() == old(self).subpixel.second().base(),
            final(self).wavelength.base() == old(self).wavelength.base(),
            final(self).subpixel.first().drawn() == old(self).subpixel.first().drawn() + 1,
            final(self).subpixel.second().drawn() == old(self).subpixel.second().drawn() + 1,
            final(self).wavelength.drawn() == old(self).wavelength.drawn() + 1,
            sample.subpixel.x.numerator == crate::sequence::radical_numerator(
                old(self).subpixel.first().base(),
                old(self).subpixel.first().drawn() + 1,
            ),
            sample.subpixel.x.denominator == crate::sequence::radical_denominator(
                old(self).subpixel.first().base(),
                old(self).subpixel.first().drawn() + 1,
            ),
            sample.subpixel.y.numerator == crate::sequence::radical_numerator(
                old(self).subpixel.second().base(),
                old(self).subpixel.second().drawn() + 1,
            ),
            sample.subpixel.y.denominator == crate::sequence::radical_denominator(
                old(self).subpixel.second().base(),
                old(self).subpixel.second().drawn() + 1,
            ),
            sample.wavelength.numerator == crate::sequence::radical_numerator(
                old(self).wavelength.base(),
                old(self).wavelength.drawn() + 1,
            ),
            sample.wavelength.denominator == crate::sequence::radical_denominator(
                old(self).wavelength.base(),
                old(self).wavelength.drawn() + 1,
            ),
    {
        let subpixel = self.subpixel.next();
        let wavelength = self.wavelength.next();
        PixelSample { subpixel, wavelength }
    }
}

/// The greatest coordinate among the pixels of a row, and no less than
/// `floor`.
pub open spec fn row_peak(row: Seq<Vec3>, floor: Ordinal) -> Ordinal
    decreases row.len(),
{
    if row.len() == 0 {
        floor
    } else {
        max(row_peak(row.drop_last(), floor), row.last().greatest())
    }
}

/// The greatest coordinate among the pixels of an image, and no less than
/// `floor`.
pub open spec fn image_peak(rows: Seq<Vec<Vec3>>, floor: Ordinal) -> Ordinal
    decreases rows.len(),
{
    if rows.len() == 0 {
        floor
    } else {
        row_peak(rows.last()@, image_peak(rows.drop_last(), floor))
    }
}

/// The peak of a row is a number no less than the floor, and no less than
/// any coordinate of a pixel that is a number.
pub proof fn lemma_row_peak_bounds(row: Seq<Vec3>, floor: Ordinal)
    requires
        !is_nan(floor),
    ensures
        !is_nan(row_peak(row, floor)),
        row_peak(row, floor) >= floor,
        forall|i: int|
            0 <= i < row.len() && (#[trigger] row[i]).is_number() ==> row[i].x <= row_peak(
                row,
                floor,
            ) && row[i].y <= row_peak(row, floor) && row[i].z <= row_peak(row, floor),
    decreases row.len(),
{
    if row.len() > 0 {
        lemma_row_peak_bounds(row.drop_last(), floor);
        assert forall|i: int| 0 <= i < row.len() && (#[trigger] row[i]).is_number() implies row[i].x
            <= row_peak(row, floor) && row[i].y <= row_peak(row, floor) && row[i].z <= row_peak(
            row,
            floor,
        ) by {
            if i < row.len() - 1 {
                assert(row.drop_last()[i] == row[i]);
            }
        }
    }
}

/// The peak of an image is a number no less than the floor, and no less
/// than any coordinate of a pixel that is a number.
pub proof fn lemma_image_peak_bounds(rows: Seq<Vec<Vec3>>, floor: Ordinal)
    requires
        !is_nan(floor),
    ensures
        !is_nan(image_peak(rows, floor)),
        image_peak(rows, floor) >= floor,
        forall|y: int, x: int|
            0 <= y < rows.len() && 0 <= x < rows[y]@.len() && (#[trigger] rows[y]@[x]).is_number()
                ==> rows[y]@[x].greatest() <= image_peak(rows, floor),
    decreases rows.len(),
{
    if rows.len() > 0 {
        let earlier = rows.drop_last();
        lemma_image_peak_bounds(earlier, floor);
        lemma_row_peak_bounds(rows.last()@, image_peak(earlier, floor));
        assert forall|y: int, x: int|
            0 <= y < rows.len() && 0 <= x < rows[y]@.len() && (#[trigger] rows[y]@[x]).is_number()
            implies rows[y]@[x].greatest() <= image_peak(rows, floor) by {
            if y < rows.len() - 1 {
                assert(earlier[y] == rows[y]);
            }
        }
    }
}

/// The intensity by which an image is normalised: the greatest coordinate
/// of all its pixels, and no less than one.
pub fn max_intensity(rows: &Vec<Vec<Vec3>>) -> (peak: Ordinal)
    ensures
        peak == image_peak(rows@, ONE),
        peak >= ONE,
        !is_nan(peak),
        forall|y: int, x: int|
            0 <= y < rows.len() && 0 <= x < rows[y]@.len() && (#[trigger] rows[y]@[x]).is_number()
                ==> rows[y]@[x].greatest() <= peak,
{
    let mut peak: Ordinal = ONE;
    let mut y: usize = 0;
    while y < rows.len()
        invariant
            y <= rows.len(),
            peak == image_peak(rows@.take(y as int), ONE),
        decreases rows.len() - y,
    {
        let row = &rows[y];
        let ghost before = peak;
        let mut x: usize = 0;
        while x < row.len()
            invariant
                x <= row.len(),
                peak == row_peak(row@.take(x as int), before),
            decreases row.len() - x,
        {
            assert(row@.take(x + 1).drop_last() =~= row@.take(x as int));
            peak = greater(peak, row[x].max_element());
            x = x + 1;
        }
        proof {
            assert(row@.take(x as int) =~= row@);
            assert(rows@.take(y + 1).drop_last() =~= rows@.take(y as int));
            assert(rows@.take(y + 1).last() == rows[y as int]);
        }
        y = y + 1;
    }
    proof {
        assert(rows@.take(y as int) =~= rows@);
        lemma_image_peak_bounds(rows@, ONE);
    }
    peak
}

} // verus!
