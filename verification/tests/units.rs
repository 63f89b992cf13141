use tracer::color::{sample_wavelength, srgb_transfer, table_slot, Transfer, Wavelength};
use tracer::ordinal::from_bits;
use tracer::sequence::{Fraction, Sequence, VanDerCorput};
use tracer::units::{write_unit, Dimension};

fn ord(x: f64) -> i64 {
    from_bits(x.to_bits())
}

fn velocity() -> Dimension {
    Dimension::new(-1, 1, 0, 0, 0)
}

fn length() -> Dimension {
    Dimension::new(0, 1, 0, 0, 0)
}

fn temperature() -> Dimension {
    Dimension::new(0, 0, 0, 1, 0)
}

fn spectral_radiance() -> Dimension {
    Dimension::new(-3, -1, 1, 0, -1)
}

#[test]
fn format_units_ok() {
    assert_eq!(format!("{} {}", 1.0, velocity().units()), "1 s⁻¹m¹");
    assert_eq!(format!("{} {}", 1.0, length().units()), "1 m¹");
    assert_eq!(format!("{} {}", 1.0, temperature().units()), "1 K¹");
    assert_eq!(format!("{} {}", 1.0, spectral_radiance().units()), "1 s⁻³m⁻¹kg¹sr⁻¹");
}

#[test]
fn bare_number_has_no_units() {
    assert_eq!(Dimension::bare().units(), "");
    assert_eq!(Dimension::bare(), Dimension::new(0, 0, 0, 0, 0));
}

#[test]
fn all_units_are_written_in_order() {
    let dimension = Dimension {
        time: 1,
        length: 2,
        mass: 3,
        current: 4,
        temperature: 5,
        amount: 6,
        luminous_intensity: 7,
        solid_angle: 8,
    };
    assert_eq!(dimension.units(), "s¹m²kg³A⁴K⁵mol⁶cd⁷sr⁸");
}

#[test]
fn exponents_of_several_digits() {
    let mut text = String::from("x = ");
    write_unit(&mut text, 'm', None, None, 127);
    write_unit(&mut text, 's', None, None, -128);
    write_unit(&mut text, 'k', Some('g'), None, 0);
    write_unit(&mut text, 'K', None, None, -10);
    write_unit(&mut text, 'm', Some('o'), Some('l'), 90);
    assert_eq!(text, "x = m¹²⁷s⁻¹²⁸K⁻¹⁰mol⁹⁰");
}

#[test]
fn product_adds_and_quotient_subtracts_exponents() {
    let planck = Dimension::new(-1, 2, 1, 0, 0);
    let light_speed = velocity();
    assert_eq!(planck.times(&light_speed), Some(Dimension::new(-2, 3, 1, 0, 0)));
    assert_eq!(planck.per(&light_speed), Some(Dimension::new(0, 1, 1, 0, 0)));
    assert_eq!(length().per(&length()), Some(Dimension::bare()));
    assert_eq!(length().powi(5), Some(Dimension::new(0, 5, 0, 0, 0)));
    assert_eq!(velocity().powi(2), Some(Dimension::new(-2, 2, 0, 0, 0)));
    assert_eq!(velocity().powi(0), Some(Dimension::bare()));
    assert_eq!(velocity().powi(-1), Some(Dimension::new(1, -1, 0, 0, 0)));
}

#[test]
fn dimensions_of_the_black_body_formula() {
    // 2 h c^2 / wavelength^5 is kg m^-1 s^-3.
    let planck = Dimension::new(-1, 2, 1, 0, 0);
    let radiance = planck
        .times(&velocity().powi(2).unwrap())
        .unwrap()
        .per(&length().powi(5).unwrap())
        .unwrap();
    assert_eq!(radiance, Dimension::new(-3, -1, 1, 0, 0));
    // h c / (wavelength k T) is a bare number.
    let boltzmann = Dimension::new(-2, 2, 1, -1, 0);
    let exponent = planck
        .times(&velocity())
        .unwrap()
        .per(&length())
        .unwrap()
        .per(&boltzmann)
        .unwrap()
        .per(&temperature())
        .unwrap();
    assert!(exponent.matches(&Dimension::bare()));
    assert!(!radiance.matches(&spectral_radiance()));
}

#[test]
fn exponents_that_do_not_fit_give_none() {
    let steep = Dimension::new(100, -100, 0, 0, 0);
    assert_eq!(steep.times(&steep), None);
    assert_eq!(steep.per(&Dimension::new(-100, 0, 0, 0, 0)), None);
    assert_eq!(steep.per(&Dimension::new(0, 100, 0, 0, 0)), None);
    assert_eq!(steep.powi(2), None);
    assert_eq!(steep.powi(-2), None);
    assert_eq!(steep.powi(1), Some(steep));
    assert_eq!(Dimension::new(-128, 0, 0, 0, 0).powi(-1), None);
    assert_eq!(Dimension::new(64, 0, 0, 0, 0).times(&Dimension::new(63, 0, 0, 0, 0)),
        Some(Dimension::new(127, 0, 0, 0, 0)));
}

#[test]
fn table_slot_counts_from_the_shortest_wavelength() {
    assert_eq!(table_slot(360), 0);
    assert_eq!(table_slot(700), 340);
    assert_eq!(table_slot(829), 469);
}

#[test]
fn wavelength_is_exact() {
    let half = sample_wavelength(Fraction { numerator: 1, denominator: 2 });
    assert_eq!(
        half,
        Wavelength { nanometres: 595, part: Fraction { numerator: 0, denominator: 2 } }
    );
    let eighth = sample_wavelength(Fraction { numerator: 1, denominator: 8 });
    assert_eq!(
        eighth,
        Wavelength { nanometres: 418, part: Fraction { numerator: 6, denominator: 8 } }
    );
    let least = sample_wavelength(Fraction { numerator: 0, denominator: 1 });
    assert_eq!(least.nanometres, 360);
    let most = sample_wavelength(Fraction { numerator: u64::MAX - 1, denominator: u64::MAX });
    assert_eq!(most.nanometres, 829);
    assert_eq!(most.part.numerator, u64::MAX - 470);
}

#[test]
fn sampled_wavelengths_stay_in_the_table() {
    let mut sequence = VanDerCorput::new(2);
    for _ in 0..10_000 {
        let wavelength = sample_wavelength(sequence.next());
        assert!((360..830).contains(&wavelength.nanometres));
        assert!(table_slot(wavelength.nanometres) + 1 <= 470);
    }
}

#[test]
fn srgb_transfer_is_linear_up_to_its_limit() {
    assert_eq!(srgb_transfer(ord(0.0)), Transfer::Linear);
    assert_eq!(srgb_transfer(ord(0.0031308)), Transfer::Linear);
    assert_eq!(srgb_transfer(ord(0.00313080001)), Transfer::Power);
    assert_eq!(srgb_transfer(ord(1.0)), Transfer::Power);
    assert_eq!(srgb_transfer(ord(-0.5)), Transfer::Linear);
    assert_eq!(srgb_transfer(ord(f64::NAN)), Transfer::Power);
}
