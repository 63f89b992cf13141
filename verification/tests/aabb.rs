use tracer::aabb::{Aabb, DistanceRange};
use tracer::ordinal::{from_bits, to_bits, INFINITY, ZERO};
use tracer::vec3::Vec3;

fn ord(x: f64) -> i64 {
    from_bits(x.to_bits())
}

fn num(a: i64) -> f64 {
    f64::from_bits(to_bits(a))
}

fn vector(v: [f64; 3]) -> Vec3 {
    Vec3::new(ord(v[0]), ord(v[1]), ord(v[2]))
}

fn aabb(min: [f64; 3], max: [f64; 3]) -> Aabb {
    Aabb { min_point: vector(min), max_point: vector(max) }
}

fn direction(from: [f64; 3], to: [f64; 3]) -> [f64; 3] {
    let d = [to[0] - from[0], to[1] - from[1], to[2] - from[2]];
    let length = (d[0] * d[0] + d[1] * d[1] + d[2] * d[2]).sqrt();
    [d[0] / length, d[1] / length, d[2] / length]
}

/// The slab test on a ray through two points, with the plane distances
/// computed in binary64 as a caller does.
fn hit(
    min: [f64; 3],
    max: [f64; 3],
    from: [f64; 3],
    to: [f64; 3],
    range: (f64, f64),
) -> Option<(f64, f64)> {
    let d = direction(from, to);
    let low = [(min[0] - from[0]) / d[0], (min[1] - from[1]) / d[1], (min[2] - from[2]) / d[2]];
    let high = [(max[0] - from[0]) / d[0], (max[1] - from[1]) / d[1], (max[2] - from[2]) / d[2]];
    let range = DistanceRange { start: ord(range.0), end: ord(range.1) };
    aabb(min, max).hit(vector(low), vector(high), &range).map(|(near, far)| (num(near), num(far)))
}

#[test]
fn aabb_hit_ok() {
    let found = hit([2.0; 3], [3.0; 3], [0.0; 3], [1.0; 3], (0.0, f64::INFINITY));
    assert!(found.is_some());
}

#[test]
fn hit_from_inside_ok() {
    let found = hit([-100.0; 3], [100.0; 3], [0.0; 3], [1.0; 3], (0.0, f64::INFINITY));
    assert!(found.is_some());
}

#[test]
fn aabb_no_hit_behind() {
    let found = hit([2.0; 3], [3.0; 3], [1.0; 3], [0.0; 3], (0.0, f64::INFINITY));
    assert!(found.is_none());
}

#[test]
fn aabb_no_hit_parallel() {
    let found = hit([1.0; 3], [2.0; 3], [0.0; 3], [1.0, 0.0, 0.0], (0.0, f64::INFINITY));
    assert!(found.is_none());
}

#[test]
fn hit_infinity() {
    let found = hit(
        [f64::NEG_INFINITY; 3],
        [f64::INFINITY; 3],
        [0.0; 3],
        [1.0; 3],
        (0.0, f64::INFINITY),
    );
    assert_eq!(found, Some((0.0, f64::INFINITY)));
}

#[test]
fn hit_gives_the_stretch_inside_the_box() {
    // Along the x axis from the origin, the box [2, 3] x [-1, 1] x [-1, 1]
    // is entered at 2 and left at 3.
    let found = hit(
        [2.0, -1.0, -1.0],
        [3.0, 1.0, 1.0],
        [0.0; 3],
        [1.0, 0.0, 0.0],
        (0.0, f64::INFINITY),
    );
    assert_eq!(found, Some((2.0, 3.0)));
    // The range cuts the stretch on both sides.
    let found = hit([2.0, -1.0, -1.0], [3.0, 1.0, 1.0], [0.0; 3], [1.0, 0.0, 0.0], (2.5, 2.75));
    assert_eq!(found, Some((2.5, 2.75)));
    // A range that ends before the box is a miss.
    let found = hit([2.0, -1.0, -1.0], [3.0, 1.0, 1.0], [0.0; 3], [1.0, 0.0, 0.0], (0.0, 1.5));
    assert_eq!(found, None);
}

#[test]
fn unbounded_box_gives_the_range_back() {
    let all = aabb([f64::NEG_INFINITY; 3], [f64::INFINITY; 3]);
    assert!(all.is_unbounded());
    let range = DistanceRange { start: ord(1e-6), end: ord(7.0) };
    let nonsense = vector([f64::NAN; 3]);
    assert_eq!(all.hit(nonsense, nonsense, &range), Some((ord(1e-6), ord(7.0))));
    assert!(!aabb([0.0; 3], [1.0; 3]).is_unbounded());
}

#[test]
fn distance_range_is_half_open() {
    let range = DistanceRange { start: ord(1.0), end: ord(2.0) };
    assert!(range.contains(ord(1.0)));
    assert!(range.contains(ord(1.5)));
    assert!(!range.contains(ord(2.0)));
    assert!(!range.contains(ord(0.5)));
    assert!(!range.contains(ord(f64::NAN)));
    let open = DistanceRange { start: ZERO, end: INFINITY };
    assert!(open.contains(ord(f64::MAX)));
    assert!(!open.contains(INFINITY));
}

#[test]
fn union_holds_both_and_is_commutative_and_associative() {
    let a = aabb([0.0, 0.0, 0.0], [1.0, 1.0, 1.0]);
    let b = aabb([-1.0, 0.5, 0.25], [0.5, 3.0, 0.75]);
    let c = aabb([5.0, -7.0, 0.0], [6.0, -6.0, f64::INFINITY]);
    assert_eq!(a.bitor(b), aabb([-1.0, 0.0, 0.0], [1.0, 3.0, 1.0]));
    assert_eq!(a.bitor(b), b.bitor(a));
    assert_eq!(a.bitor(b).bitor(c), a.bitor(b.bitor(c)));
    assert!(a.bitor(b).contains(&a));
    assert!(a.bitor(b).contains(&b));
    assert!(!a.contains(&b));
    assert!(a.contains(&a));
}
