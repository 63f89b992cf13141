//! Ray–surface intersections.

use vstd::prelude::*;
use crate::ordinal::Ordinal;
use crate::vec3::Vec3;

verus! {

/// How a ray meets a surface.
#[derive(Clone, Copy, Debug, PartialEq, Eq, Structural)]
pub enum HitType {
    /// The ray enters a body from outside.
    Enter,
    /// The ray leaves a body from inside.
    Leave,
    /// The ray passes through an infinitesimal scattering element.
    Refract,
}

/// Where and how a ray meets a surface.
#[derive(Clone, Copy, Debug, PartialEq, Eq, Structural)]
pub struct Hit {
    /// The point of intersection.
    pub location: Vec3,
    /// The unit normal at that point, turned against the ray.
    pub normal: Vec3,
    /// The distance that the ray has travelled to the point.
    pub distance: Ordinal,
    pub type_: HitType,
    /// The number of the surface that was hit, by which its material is
    /// found again.
    pub surface: usize,
}

/// The hit to keep of the best so far and a later candidate: the later one
/// must be strictly nearer to replace the earlier.
pub open spec fn keep_first(best: Option<Hit>, candidate: Option<Hit>) -> Option<Hit> {
    match (best, candidate) {
        (Some(b), Some(c)) => if c.distance < b.distance {
            candidate
        } else {
            best
        },
        (None, _) => candidate,
        (_, None) => best,
    }
}

/// The nearer of the hits in two halves of a scene: the left one must be
/// strictly nearer to win over the right.
pub open spec fn nearer(left: Option<Hit>, right: Option<Hit>) -> Option<Hit> {
    match (left, right) {
        (Some(l), Some(r)) => if l.distance < r.distance {
            left
        } else {
            right
        },
        (Some(_), None) => left,
        (_, _) => right,
    }
}

/// The first of the nearest hits in a row of outcomes.
pub open spec fn first_nearest(outcomes: Seq<Option<Hit>>) -> Option<Hit>
    decreases outcomes.len(),
{
    if outcomes.len() == 0 {
        None
    } else {
        keep_first(first_nearest(outcomes.drop_last()), outcomes.last())
    }
}

/// `hit` is a nearest one among the outcomes numbered `start` up to `end`:
/// none if none of them is a hit, else one of them that none undercuts.
pub open spec fn is_nearest(
    hit: Option<Hit>,
    outcome: spec_fn(int) -> Option<Hit>,
    start: int,
    end: int,
) -> bool {
    match hit {
        None => forall|i: int| start <= i < end ==> (#[trigger] outcome(i)) is None,
        Some(h) => {
            &&& exists|i: int| start <= i < end && #[trigger] outcome(i) == Some(h)
            &&& forall|i: int|
                start <= i < end ==> (#[trigger] outcome(i) matches Some(o) ==> h.distance
                    <= o.distance)
        },
    }
}

/// Keeps the better of the best hit so far and a later candidate.
pub fn keep(best: Option<Hit>, candidate: Option<Hit>) -> (kept: Option<Hit>)
    ensures
        kept == keep_first(best, candidate),
{
    match (best, candidate) {
        (Some(b), Some(c)) => if c.distance < b.distance {
            candidate
        } else {
            best
        },
        (None, _) => candidate,
        (_, None) => best,
    }
}

/// Picks the nearer of the hits in the two halves of a scene.
pub fn pick_nearer(left: Option<Hit>, right: Option<Hit>) -> (picked: Option<Hit>)
    ensures
        picked == nearer(left, right),
{
    match (left, right) {
        (Some(l), Some(r)) => if l.distance < r.distance {
            left
        } else {
            right
        },
        (Some(_), None) => left,
        (_, _) => right,
    }
}

/// A linear scan finds a nearest hit: the first of the nearest in a row of
/// outcomes is a nearest one among them.
pub proof fn lemma_first_nearest_is_nearest(
    outcomes: Seq<Option<Hit>>,
    outcome: spec_fn(int) -> Option<Hit>,
    start: int,
)
    requires
        forall|k: int| 0 <= k < outcomes.len() ==> outcomes[k] == outcome(start + k),
    ensures
        is_nearest(first_nearest(outcomes), outcome, start, start + outcomes.len()),
    decreases outcomes.len(),
{
    if outcomes.len() > 0 {
        let front = outcomes.drop_last();
        let end = start + outcomes.len();
        lemma_first_nearest_is_nearest(front, outcome, start);
        let best = first_nearest(front);
        let kept = first_nearest(outcomes);
        assert(outcomes.last() == outcome(end - 1));
        assert(kept == keep_first(best, outcome(end - 1)));
        match kept {
            None => {
                assert forall|i: int| start <= i < end implies (#[trigger] outcome(i)) is None by {
                    if i < end - 1 {
                        assert(outcome(i) is None);
                    }
                }
            },
            Some(h) => {
                if kept == best {
                    let i = choose|i: int| start <= i < end - 1 && #[trigger] outcome(i) == Some(h);
                    assert(start <= i < end && outcome(i) == Some(h));
                } else {
                    assert(outcome(end - 1) == Some(h));
                }
                assert forall|i: int| start <= i < end implies (#[trigger] outcome(i) matches Some(
                    o,
                ) ==> h.distance <= o.distance) by {
                    if i < end - 1 && best is Some {
                        assert(outcome(i) matches Some(o) ==> best->0.distance <= o.distance);
                    } else if i < end - 1 {
                        assert(outcome(i) is None);
                    }
                }
            },
        }
    }
}

/// The nearer of a nearest hit in `start..mid` and a nearest hit in
/// `mid..end` is a nearest hit in `start..end`.
pub proof fn lemma_nearer_is_nearest(
    left: Option<Hit>,
    right: Option<Hit>,
    outcome: spec_fn(int) -> Option<Hit>,
    start: int,
    mid: int,
    end: int,
)
    requires
        start <= mid <= end,
        is_nearest(left, outcome, start, mid),
        is_nearest(right, outcome, mid, end),
    ensures
        is_nearest(nearer(left, right), outcome, start, end),
{
    let picked = nearer(left, right);
    match picked {
        None => {
            assert forall|i: int| start <= i < end implies (#[trigger] outcome(i)) is None by {
                if i < mid {
                    assert(outcome(i) is None);
                } else {
                    assert(outcome(i) is None);
                }
            }
        },
        Some(h) => {
            if picked == left {
                let i = choose|i: int| start <= i < mid && #[trigger] outcome(i) == Some(h);
                assert(start <= i < end && outcome(i) == Some(h));
            } else {
                let i = choose|i: int| mid <= i < end && #[trigger] outcome(i) == Some(h);
                assert(start <= i < end && outcome(i) == Some(h));
            }
            assert forall|i: int| start <= i < end implies (#[trigger] outcome(i) matches Some(
                o,
            ) ==> h.distance <= o.distance) by {
                if i < mid {
                    if left is Some {
                        assert(outcome(i) matches Some(o) ==> left->0.distance <= o.distance);
                    } else {
                        assert(outcome(i) is None);
                    }
                } else {
                    if right is Some {
                        assert(outcome(i) matches Some(o) ==> right->0.distance <= o.distance);
                    } else {
                        assert(outcome(i) is None);
                    }
                }
            }
        },
    }
}

/// Two nearest hits among the same outcomes are both none or equally far;
/// where no two surfaces are hit at the same distance, they are the same hit.
pub proof fn lemma_nearest_unique(
    a: Option<Hit>,
    b: Option<Hit>,
    outcome: spec_fn(int) -> Option<Hit>,
    start: int,
    end: int,
)
    requires
        is_nearest(a, outcome, start, end),
        is_nearest(b, outcome, start, end),
    ensures
        a is None <==> b is None,
        a is Some ==> a->0.distance == b->0.distance,
        (forall|i: int, j: int|
            start <= i < j < end && (#[trigger] outcome(i)) is Some && (#[trigger] outcome(
                j,
            )) is Some ==> outcome(i)->0.distance != outcome(j)->0.distance) ==> a == b,
{
    if a is Some {
        let i = choose|i: int| start <= i < end && #[trigger] outcome(i) == a;
        assert(outcome(i) is Some);
        assert(b is Some);
        let j = choose|j: int| start <= j < end && #[trigger] outcome(j) == b;
        assert(outcome(j) matches Some(o) ==> a->0.distance <= o.distance);
        assert(outcome(i) matches Some(o) ==> b->0.distance <= o.distance);
        if i < j {
            assert(outcome(i) is Some && outcome(j) is Some);
        } else if j < i {
            assert(outcome(j) is Some && outcome(i) is Some);
        }
    } else if b is Some {
        let j = choose|j: int| start <= j < end && #[trigger] outcome(j) == b;
        assert(outcome(j) is Some);
    }
}

} // verus!
