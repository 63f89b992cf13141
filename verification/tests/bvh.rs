use std::cell::RefCell;

use tracer::aabb::{Aabb, DistanceRange};
use tracer::bvh::{Bvh, Footprint};
use tracer::hit::{keep, pick_nearer, Hit, HitType};
use tracer::ordinal::{from_bits, to_bits};
use tracer::surface::sphere;
use tracer::vec3::Vec3;

fn ord(x: f64) -> i64 {
    from_bits(x.to_bits())
}

fn num(a: i64) -> f64 {
    f64::from_bits(to_bits(a))
}

fn vector(v: [f64; 3]) -> Vec3 {
    Vec3::new(ord(v[0]), ord(v[1]), ord(v[2]))
}

fn array(v: Vec3) -> [f64; 3] {
    [num(v.x), num(v.y), num(v.z)]
}

fn dot(a: [f64; 3], b: [f64; 3]) -> f64 {
    a[0] * b[0] + a[1] * b[1] + a[2] * b[2]
}

fn normalize(d: [f64; 3]) -> [f64; 3] {
    let length = dot(d, d).sqrt();
    [d[0] / length, d[1] / length, d[2] / length]
}

#[derive(Clone, Copy)]
struct Ball {
    center: [f64; 3],
    radius: f64,
}

impl Ball {
    fn footprint(&self, surface: usize) -> Footprint {
        let c = self.center;
        let r = self.radius;
        Footprint {
            aabb: Aabb {
                min_point: vector([c[0] - r, c[1] - r, c[2] - r]),
                max_point: vector([c[0] + r, c[1] + r, c[2] + r]),
            },
            center: vector(c),
            surface,
        }
    }

    fn hit(
        &self,
        origin: [f64; 3],
        direction: [f64; 3],
        range: &DistanceRange,
        surface: usize,
    ) -> Option<Hit> {
        let oc = [origin[0] - self.center[0], origin[1] - self.center[1], origin[2] - self.center[2]];
        let a = dot(direction, direction);
        let c = dot(oc, oc) - self.radius * self.radius;
        let half_b = dot(oc, direction);
        let discriminant = half_b * half_b - a * c;
        let root = discriminant.sqrt();
        let smaller = (-half_b - root) / a;
        let larger = (-half_b + root) / a;
        let distance = num(sphere::pick_root(ord(discriminant), ord(smaller), ord(larger), range)?);
        let location = [
            origin[0] + direction[0] * distance,
            origin[1] + direction[1] * distance,
            origin[2] + direction[2] * distance,
        ];
        let outward = [
            (location[0] - self.center[0]) / self.radius,
            (location[1] - self.center[1]) / self.radius,
            (location[2] - self.center[2]) / self.radius,
        ];
        Some(sphere::hit(
            ord(distance),
            vector(location),
            vector(outward),
            ord(dot(outward, direction)),
            surface,
        ))
    }
}

fn measure(aabb: Aabb) -> Vec3 {
    let min = array(aabb.min_point);
    let max = array(aabb.max_point);
    vector([max[0] - min[0], max[1] - min[1], max[2] - min[2]])
}

fn enters(aabb: Aabb, origin: [f64; 3], direction: [f64; 3], range: &DistanceRange) -> bool {
    let min = array(aabb.min_point);
    let max = array(aabb.max_point);
    let low = [
        (min[0] - origin[0]) / direction[0],
        (min[1] - origin[1]) / direction[1],
        (min[2] - origin[2]) / direction[2],
    ];
    let high = [
        (max[0] - origin[0]) / direction[0],
        (max[1] - origin[1]) / direction[1],
        (max[2] - origin[2]) / direction[2],
    ];
    aabb.hit(vector(low), vector(high), range).is_some()
}

fn balls(count: usize, seed: u64) -> Vec<Ball> {
    let mut rng = fastrand::Rng::with_seed(seed);
    (0..count)
        .map(|_| Ball {
            center: [rng.f64() * 20.0 - 10.0, rng.f64() * 20.0 - 10.0, rng.f64() * 20.0 - 10.0],
            radius: 0.1 + rng.f64(),
        })
        .collect()
}

fn leaves(tree: &Bvh, into: &mut Vec<(usize, usize)>) {
    match tree {
        Bvh::Empty => {}
        Bvh::Leaf { start, end } => into.push((*start, *end)),
        Bvh::Node(node) => {
            leaves(&node.left, into);
            leaves(&node.right, into);
        }
    }
}

fn height(tree: &Bvh) -> usize {
    match tree {
        Bvh::Empty => 0,
        Bvh::Leaf { .. } => 1,
        Bvh::Node(node) => 1 + height(&node.left).max(height(&node.right)),
    }
}

/// Checks what each node says of its stretch, and returns the stretch.
fn check_nodes(tree: &Bvh, row: &[Footprint], start: usize, end: usize, cap: usize) {
    match tree {
        Bvh::Empty => assert_eq!(start, end),
        Bvh::Leaf { start: s, end: e } => {
            assert_eq!((*s, *e), (start, end));
            assert!(start < end && end - start <= cap);
        }
        Bvh::Node(node) => {
            assert!(end - start > cap);
            let mut hull = row[start].aabb;
            for footprint in &row[start + 1..end] {
                hull = hull.bitor(footprint.aabb);
            }
            assert_eq!(node.aabb, hull);
            let size = array(measure(node.aabb));
            let key = |v: Vec3| {
                if size[0] > size[1] && size[0] > size[2] {
                    v.x
                } else if size[1] > size[0] && size[1] > size[2] {
                    v.y
                } else {
                    v.z
                }
            };
            let mid = start + (end - start) / 2;
            let left_most = row[start..mid].iter().map(|f| key(f.center)).max().unwrap();
            let right_least = row[mid..end].iter().map(|f| key(f.center)).min().unwrap();
            assert!(left_most <= right_least);
            check_nodes(&node.left, row, start, mid, cap);
            check_nodes(&node.right, row, mid, end, cap);
        }
    }
}

#[test]
fn empty_scene_gives_the_empty_tree_and_no_hit() {
    let mut row: Vec<Footprint> = Vec::new();
    let tree = Bvh::new(&mut row, 4, &measure);
    assert!(matches!(tree, Bvh::Empty));
    let probed = RefCell::new(0);
    let found = tree.hit(&|_| true, &|_| {
        *probed.borrow_mut() += 1;
        None
    });
    assert_eq!(found, None);
    assert_eq!(*probed.borrow(), 0);
}

#[test]
fn few_surfaces_make_one_leaf() {
    let scene = balls(4, 1);
    let mut row: Vec<Footprint> = scene.iter().enumerate().map(|(i, b)| b.footprint(i)).collect();
    let before = row.clone();
    let tree = Bvh::new(&mut row, 4, &measure);
    assert!(matches!(tree, Bvh::Leaf { start: 0, end: 4 }));
    assert_eq!(row, before);
}

#[test]
fn build_splits_at_the_median_of_the_longest_axis() {
    // Five boxes in a row along the y axis, handed over out of order.
    let ys = [4.0, 0.0, 3.0, 1.0, 2.0];
    let mut row: Vec<Footprint> = ys
        .iter()
        .enumerate()
        .map(|(i, &y)| Ball { center: [0.0, y * 10.0, 0.0], radius: 1.0 }.footprint(i))
        .collect();
    let tree = Bvh::new(&mut row, 2, &measure);
    let order: Vec<usize> = row.iter().map(|f| f.surface).collect();
    assert_eq!(order, vec![1, 3, 4, 2, 0]);
    let mut found = Vec::new();
    leaves(&tree, &mut found);
    assert_eq!(found, vec![(0, 2), (2, 3), (3, 5)]);
    match &tree {
        Bvh::Node(node) => {
            assert_eq!(array(node.aabb.min_point), [-1.0, -1.0, -1.0]);
            assert_eq!(array(node.aabb.max_point), [1.0, 41.0, 1.0]);
        }
        _ => panic!("a node was expected"),
    }
}

#[test]
fn build_permutes_the_row_and_covers_it_with_leaves() {
    for (count, cap) in [(1, 1), (2, 1), (7, 1), (100, 4), (257, 3), (1000, 8)] {
        let scene = balls(count, 7);
        let mut row: Vec<Footprint> =
            scene.iter().enumerate().map(|(i, b)| b.footprint(i)).collect();
        let before = row.clone();
        let tree = Bvh::new(&mut row, cap, &measure);
        let mut surfaces: Vec<usize> = row.iter().map(|f| f.surface).collect();
        surfaces.sort_unstable();
        assert_eq!(surfaces, (0..count).collect::<Vec<_>>());
        for footprint in &row {
            assert_eq!(*footprint, before[footprint.surface]);
        }
        let mut found = Vec::new();
        leaves(&tree, &mut found);
        let mut at = 0;
        for (start, end) in found {
            assert_eq!(start, at);
            assert!(end > start && end - start <= cap);
            at = end;
        }
        assert_eq!(at, count);
        check_nodes(&tree, &row, 0, count, cap);
    }
}

#[test]
fn tree_is_no_deeper_than_the_halvings_allow() {
    for (count, cap, bound) in
        [(1, 4, 1), (4, 4, 1), (5, 4, 2), (8, 4, 2), (9, 4, 3), (100, 4, 6), (1000, 1, 11)]
    {
        let scene = balls(count, 3);
        let mut row: Vec<Footprint> =
            scene.iter().enumerate().map(|(i, b)| b.footprint(i)).collect();
        let tree = Bvh::new(&mut row, cap, &measure);
        assert!(height(&tree) <= bound, "{count} surfaces, leaves of {cap}");
    }
}

#[test]
fn build_is_deterministic() {
    let scene = balls(100, 11);
    let mut first: Vec<Footprint> = scene.iter().enumerate().map(|(i, b)| b.footprint(i)).collect();
    let mut second = first.clone();
    let one = Bvh::new(&mut first, 4, &measure);
    let two = Bvh::new(&mut second, 4, &measure);
    assert_eq!(first, second);
    assert_eq!(format!("{one:?}"), format!("{two:?}"));
}

#[test]
fn query_returns_the_nearest_hit_of_a_linear_scan() {
    let scene = balls(200, 5);
    let mut row: Vec<Footprint> = scene.iter().enumerate().map(|(i, b)| b.footprint(i)).collect();
    let tree = Bvh::new(&mut row, 4, &measure);
    let mut rng = fastrand::Rng::with_seed(9);
    let mut hits = 0;
    for _ in 0..500 {
        let origin = [rng.f64() * 30.0 - 15.0, rng.f64() * 30.0 - 15.0, rng.f64() * 30.0 - 15.0];
        // Aim near one of the balls, so that many rays hit something.
        let target = scene[rng.usize(..scene.len())].center;
        let direction = normalize([
            target[0] - origin[0] + rng.f64() - 0.5,
            target[1] - origin[1] + rng.f64() - 0.5,
            target[2] - origin[2] + rng.f64() - 0.5,
        ]);
        let start = rng.f64() * 5.0;
        let range = DistanceRange { start: ord(start), end: ord(start + rng.f64() * 40.0) };
        let probe = |i: usize| {
            let surface = row[i].surface;
            scene[surface].hit(origin, direction, &range, surface)
        };
        let found = tree.hit(&|aabb| enters(aabb, origin, direction, &range), &probe);
        let mut scanned = None;
        for i in 0..row.len() {
            scanned = keep(scanned, probe(i));
        }
        assert_eq!(found, scanned);
        if let Some(hit) = found {
            hits += 1;
            assert!(range.contains(hit.distance));
            let normal_dot_direction = dot(array(hit.normal), direction);
            assert!(normal_dot_direction <= 0.0);
            assert!(hit.type_ == HitType::Enter || hit.type_ == HitType::Leave);
        }
    }
    assert!(hits > 50);
}

#[test]
fn query_skips_what_a_missed_box_holds() {
    let scene = balls(64, 2);
    let mut row: Vec<Footprint> = scene.iter().enumerate().map(|(i, b)| b.footprint(i)).collect();
    let tree = Bvh::new(&mut row, 4, &measure);
    let probed = RefCell::new(0);
    let found = tree.hit(&|_| false, &|_| {
        *probed.borrow_mut() += 1;
        None
    });
    assert_eq!(found, None);
    assert_eq!(*probed.borrow(), 0);
    let found = tree.hit(&|_| true, &|_| {
        *probed.borrow_mut() += 1;
        None
    });
    assert_eq!(found, None);
    assert_eq!(*probed.borrow(), 64);
}

#[test]
fn nearer_hit_wins_and_ties_go_as_documented() {
    let hit = |distance: f64, surface: usize| {
        Some(Hit {
            location: Vec3::zero(),
            normal: Vec3::zero(),
            distance: ord(distance),
            type_: HitType::Enter,
            surface,
        })
    };
    assert_eq!(pick_nearer(hit(1.0, 0), hit(2.0, 1)), hit(1.0, 0));
    assert_eq!(pick_nearer(hit(3.0, 0), hit(2.0, 1)), hit(2.0, 1));
    assert_eq!(pick_nearer(hit(2.0, 0), hit(2.0, 1)), hit(2.0, 1));
    assert_eq!(pick_nearer(hit(2.0, 0), None), hit(2.0, 0));
    assert_eq!(pick_nearer(None, hit(2.0, 1)), hit(2.0, 1));
    assert_eq!(pick_nearer(None, None), None);
    assert_eq!(keep(hit(1.0, 0), hit(2.0, 1)), hit(1.0, 0));
    assert_eq!(keep(hit(3.0, 0), hit(2.0, 1)), hit(2.0, 1));
    assert_eq!(keep(hit(2.0, 0), hit(2.0, 1)), hit(2.0, 0));
    assert_eq!(keep(None, hit(2.0, 1)), hit(2.0, 1));
    assert_eq!(keep(hit(2.0, 0), None), hit(2.0, 0));
}
