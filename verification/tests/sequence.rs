use tracer::sequence::{Fraction, Halton2, Sequence, VanDerCorput};

fn value(fraction: Fraction) -> f64 {
    fraction.numerator as f64 / fraction.denominator as f64
}

#[test]
fn corput_ok() {
    let mut sequence = VanDerCorput::new(2);
    assert_eq!(value(sequence.next()), 0.5);
    assert_eq!(value(sequence.next()), 0.25);
    assert_eq!(value(sequence.next()), 0.75);
    assert_eq!(value(sequence.next()), 0.125);
    assert_eq!(value(sequence.next()), 0.625);
    assert_eq!(value(sequence.next()), 0.375);
    assert_eq!(value(sequence.next()), 0.875);
    assert_eq!(value(sequence.next()), 0.0625);
}

#[test]
fn corput_base_three_fractions() {
    let mut sequence = VanDerCorput::new(3);
    let expected = [(1, 3), (2, 3), (1, 9), (4, 9), (7, 9), (2, 9), (5, 9), (8, 9), (1, 27)];
    for (numerator, denominator) in expected {
        assert!(sequence.has_next());
        assert_eq!(sequence.next(), Fraction { numerator, denominator });
    }
}

#[test]
fn corput_is_the_radical_inverse() {
    // The digits of the index in reverse order, behind the point.
    for base in [2u64, 3, 5, 10, 16] {
        let mut sequence = VanDerCorput::new(base);
        for index in 1..=2000u64 {
            let mut numerator = 0;
            let mut denominator = 1;
            let mut rest = index;
            while rest > 0 {
                numerator = numerator * base + rest % base;
                denominator *= base;
                rest /= base;
            }
            assert_eq!(sequence.next(), Fraction { numerator, denominator });
        }
    }
}

#[test]
fn corput_in_a_huge_base_does_not_overflow() {
    let mut sequence = VanDerCorput::new(u64::MAX);
    for index in 1..=1000 {
        assert!(sequence.has_next());
        assert_eq!(sequence.next(), Fraction { numerator: index, denominator: u64::MAX });
    }
}

#[test]
fn halton_pairs_two_sequences() {
    let mut halton = Halton2::new(5, 3);
    let mut first = VanDerCorput::new(5);
    let mut second = VanDerCorput::new(3);
    for _ in 0..100 {
        assert!(halton.has_next());
        let sample = halton.next();
        assert_eq!(sample.x, first.next());
        assert_eq!(sample.y, second.next());
        assert!(sample.x.numerator < sample.x.denominator);
        assert!(sample.y.numerator < sample.y.denominator);
    }
}
