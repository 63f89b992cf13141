use tracer::math::const_pow2;
use tracer::ordinal::{
    check_finite, check_infinite, check_nan, clamp, from_bits, greater, less, less_eq, lesser,
    negate, to_bits, INFINITY, NEG_INFINITY, ONE, ZERO,
};
use tracer::vec3::{Axis, Vec3};

fn ord(x: f64) -> i64 {
    from_bits(x.to_bits())
}

fn num(a: i64) -> f64 {
    f64::from_bits(to_bits(a))
}

const SAMPLES: [f64; 15] = [
    f64::NEG_INFINITY,
    f64::MIN,
    -1e300,
    -2.5,
    -1.0,
    -1e-300,
    -f64::MIN_POSITIVE,
    0.0,
    5e-324,
    1e-6,
    0.5,
    1.0,
    3.25,
    f64::MAX,
    f64::INFINITY,
];

#[test]
fn const_pow2_squares() {
    assert_eq!(const_pow2::<u32, u32>(7), 49);
    assert_eq!(const_pow2::<i64, i64>(-12), 144);
    assert_eq!(const_pow2::<f64, f64>(1.5), 2.25);
}

#[test]
fn named_ordinals_are_those_of_the_numbers() {
    assert_eq!(ord(0.0), ZERO);
    assert_eq!(ord(-0.0), ZERO);
    assert_eq!(ord(1.0), ONE);
    assert_eq!(ord(f64::INFINITY), INFINITY);
    assert_eq!(ord(f64::NEG_INFINITY), NEG_INFINITY);
    assert_eq!(ord(2.0), 0x4000_0000_0000_0000);
    assert_eq!(ord(-2.0), -0x4000_0000_0000_0000);
}

#[test]
fn ordinals_keep_the_order_of_the_numbers() {
    for a in SAMPLES {
        for b in SAMPLES {
            assert_eq!(a < b, ord(a) < ord(b), "{a} < {b}");
            assert_eq!(a == b, ord(a) == ord(b), "{a} == {b}");
            assert_eq!(a < b, less(ord(a), ord(b)));
            assert_eq!(a <= b, less_eq(ord(a), ord(b)));
            assert_eq!(a.min(b), num(lesser(ord(a), ord(b))));
            assert_eq!(a.max(b), num(greater(ord(a), ord(b))));
        }
    }
}

#[test]
fn bits_round_trip() {
    for a in SAMPLES {
        assert_eq!(num(ord(a)), a);
        assert_eq!(to_bits(ord(a)), (a + 0.0).to_bits());
    }
    assert_eq!(to_bits(ord(-0.0)), 0);
}

#[test]
fn negation_is_that_of_the_number() {
    for a in SAMPLES {
        assert_eq!(num(negate(ord(a))), -a);
    }
}

#[test]
fn nan_yields_and_compares_false() {
    let nan = ord(f64::NAN);
    assert!(check_nan(nan));
    assert!(check_nan(ord(-f64::NAN)));
    assert!(!check_nan(INFINITY));
    assert!(!check_nan(NEG_INFINITY));
    for a in SAMPLES {
        assert!(!less(nan, ord(a)));
        assert!(!less(ord(a), nan));
        assert!(!less_eq(nan, ord(a)));
        assert_eq!(lesser(nan, ord(a)), ord(a));
        assert_eq!(lesser(ord(a), nan), ord(a));
        assert_eq!(greater(nan, ord(a)), ord(a));
        assert_eq!(greater(ord(a), nan), ord(a));
    }
    assert!(check_nan(clamp(nan, ZERO, ONE)));
}

#[test]
fn classes_of_ordinals() {
    assert!(check_infinite(INFINITY) && check_infinite(NEG_INFINITY));
    assert!(!check_infinite(ONE) && !check_infinite(ord(f64::NAN)));
    assert!(check_finite(ZERO) && check_finite(ord(f64::MAX)) && check_finite(ord(f64::MIN)));
    assert!(!check_finite(INFINITY) && !check_finite(ord(f64::NAN)));
}

#[test]
fn clamp_is_that_of_the_number() {
    for a in SAMPLES {
        assert_eq!(num(clamp(ord(a), ZERO, ONE)), a.clamp(0.0, 1.0));
        assert_eq!(num(clamp(ord(a), ord(-2.5), ord(3.25))), a.clamp(-2.5, 3.25));
    }
}

#[test]
fn vec3_order_operations() {
    let a = Vec3::new(ord(1.0), ord(-2.0), ord(3.0));
    let b = Vec3::new(ord(0.5), ord(4.0), ord(3.0));
    assert_eq!(a.min(b), Vec3::new(ord(0.5), ord(-2.0), ord(3.0)));
    assert_eq!(a.max(b), Vec3::new(ord(1.0), ord(4.0), ord(3.0)));
    assert_eq!(a.min_element(), ord(-2.0));
    assert_eq!(a.max_element(), ord(3.0));
    assert_eq!(a.neg(), Vec3::new(ord(-1.0), ord(2.0), ord(-3.0)));
    assert_eq!(a.along(Axis::X), ord(1.0));
    assert_eq!(a.along(Axis::Y), ord(-2.0));
    assert_eq!(a.along(Axis::Z), ord(3.0));
    assert_eq!(Vec3::splat(ONE), Vec3::one());
    assert_eq!(Vec3::splat(ZERO), Vec3::zero());
    assert!(a.is_finite() && !a.is_infinite());
    let c = Vec3::new(ord(1.0), INFINITY, ord(3.0));
    assert!(!c.is_finite() && c.is_infinite());
    let d = Vec3::new(ord(1.5), ord(-0.5), ord(0.25));
    assert_eq!(d.clamp(Vec3::zero(), Vec3::one()), Vec3::new(ONE, ZERO, ord(0.25)));
}
