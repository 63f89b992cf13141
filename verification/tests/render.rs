use tracer::ordinal::{from_bits, to_bits, ONE};
use tracer::render::{max_intensity, row_schedule, PixelSequences};
use tracer::sequence::{Fraction, Sequence};
use tracer::vec3::Vec3;

fn ord(x: f64) -> i64 {
    from_bits(x.to_bits())
}

fn num(a: i64) -> f64 {
    f64::from_bits(to_bits(a))
}

fn pixel(x: f64, y: f64, z: f64) -> Vec3 {
    Vec3::new(ord(x), ord(y), ord(z))
}

#[test]
fn every_row_is_scheduled_once() {
    for height in [0u32, 1, 2, 7, 1080] {
        let mut rows = row_schedule(height);
        assert_eq!(rows.len(), height as usize);
        rows.sort_unstable();
        assert_eq!(rows, (0..height).collect::<Vec<_>>());
    }
}

#[test]
fn rows_are_shuffled() {
    fastrand::seed(42);
    let rows = row_schedule(1080);
    assert_ne!(rows, (0..1080).collect::<Vec<_>>());
    fastrand::seed(42);
    assert_eq!(row_schedule(1080), rows);
}

#[test]
fn pixel_sequences_run_in_bases_five_three_and_two() {
    let mut sequences = PixelSequences::new();
    let sample = sequences.next();
    assert_eq!(sample.subpixel.x, Fraction { numerator: 1, denominator: 5 });
    assert_eq!(sample.subpixel.y, Fraction { numerator: 1, denominator: 3 });
    assert_eq!(sample.wavelength, Fraction { numerator: 1, denominator: 2 });
    let sample = sequences.next();
    assert_eq!(sample.subpixel.x, Fraction { numerator: 2, denominator: 5 });
    assert_eq!(sample.subpixel.y, Fraction { numerator: 2, denominator: 3 });
    assert_eq!(sample.wavelength, Fraction { numerator: 1, denominator: 4 });
    for _ in 0..3 {
        assert!(sequences.has_next());
        sequences.next();
    }
    let sample = sequences.next();
    assert_eq!(sample.subpixel.x, Fraction { numerator: 6, denominator: 25 });
    assert_eq!(sample.subpixel.y, Fraction { numerator: 2, denominator: 9 });
    assert_eq!(sample.wavelength, Fraction { numerator: 3, denominator: 8 });
}

#[test]
fn max_intensity_is_the_greatest_coordinate() {
    let rows = vec![
        vec![pixel(0.5, 1.5, 0.25), pixel(0.0, 0.0, 0.0)],
        vec![],
        vec![pixel(2.0, 7.25, 3.0), pixel(7.0, 0.0, 1.0)],
    ];
    assert_eq!(num(max_intensity(&rows)), 7.25);
}

#[test]
fn max_intensity_is_at_least_one() {
    assert_eq!(max_intensity(&Vec::new()), ONE);
    assert_eq!(max_intensity(&vec![vec![], vec![]]), ONE);
    let dark = vec![vec![pixel(0.0, 0.0, 0.0), pixel(0.25, 0.5, 0.125)]];
    assert_eq!(num(max_intensity(&dark)), 1.0);
    let negative = vec![vec![pixel(-3.0, -2.0, -1.0)]];
    assert_eq!(num(max_intensity(&negative)), 1.0);
}

#[test]
fn max_intensity_passes_over_what_is_no_number() {
    let rows = vec![vec![pixel(f64::NAN, 2.0, f64::NAN), pixel(f64::NAN, f64::NAN, f64::NAN)]];
    assert_eq!(num(max_intensity(&rows)), 2.0);
    let rows = vec![vec![pixel(f64::INFINITY, 2.0, 0.0)]];
    assert_eq!(num(max_intensity(&rows)), f64::INFINITY);
}
