//! The bounding-volume hierarchy over the surfaces of a scene.

use vstd::prelude::*;
use vstd::seq_lib::{lemma_multiset_commutative, to_multiset_contains};
use vstd::arithmetic::power2::{lemma_pow2_unfold, pow2};
use crate::aabb::Aabb;
use crate::hit::{
    first_nearest, is_nearest, keep, lemma_first_nearest_is_nearest, lemma_nearer_is_nearest,
    nearer, pick_nearer, Hit,
};
use crate::ordinal::{less, lt};
use crate::vec3::{Axis, Vec3};

verus! {

/// What the hierarchy knows of a surface.
#[derive(Clone, Copy, Debug, PartialEq, Eq, Structural)]
pub struct Footprint {
    /// The box around the surface.
    pub aabb: Aabb,
    /// The centre of that box.
    pub center: Vec3,
    /// The number of the surface.
    pub surface: usize,
}

/// Bounding-volume hierarchy: a binary tree over a row of footprints, whose
/// leaves are stretches `start..end` of the row.
#[derive(Debug)]
pub enum Bvh {
    Empty,
    Leaf { start: usize, end: usize },
    Node(Box<Node>),
}

#[derive(Debug)]
pub struct Node {
    pub aabb: Aabb,
    pub left: Bvh,
    pub right: Bvh,
}

/// The axis on which a box of the given size is longest; the last axis where
/// no other is strictly the longest.
pub open spec fn longest_axis(size: Vec3) -> Axis {
    if lt(size.y, size.x) && lt(size.z, size.x) {
        Axis::X
    } else if lt(size.x, size.y) && lt(size.z, size.y) {
        Axis::Y
    } else {
        Axis::Z
    }
}

/// The footprints on `start..end` are the same in both rows, up to order.
pub open spec fn same_footprints(
    before: Seq<Footprint>,
    after: Seq<Footprint>,
    start: int,
    end: int,
) -> bool {
    before.subrange(start, end).to_multiset() == after.subrange(start, end).to_multiset()
}

/// Outside `start..end` the two rows are the same.
pub open spec fn same_elsewhere(
    before: Seq<Footprint>,
    after: Seq<Footprint>,
    start: int,
    end: int,
) -> bool {
    &&& before.len() == after.len()
    &&& forall|i: int| 0 <= i < before.len() && !(start <= i < end) ==> before[i] == after[i]
}

/// On `start..end` the row is in ascending order of the centres'
/// coordinates on `axis`.
pub open spec fn sorted_on(row: Seq<Footprint>, start: int, end: int, axis: Axis) -> bool {
    forall|i: int, j: int|
        start <= i <= j < end ==> row[i].center.coordinate(axis) <= row[j].center.coordinate(
            axis,
        )
}

/// No centre on `start..mid` lies beyond a centre on `mid..end` on `axis`.
pub open spec fn parted_on(
    row: Seq<Footprint>,
    start: int,
    mid: int,
    end: int,
    axis: Axis,
) -> bool {
    forall|i: int, j: int|
        start <= i < mid && mid <= j < end ==> row[i].center.coordinate(axis)
            <= row[j].center.coordinate(axis)
}

/// The index at which a stretch is split: its median.
pub open spec fn median(start: int, end: int) -> int {
    start + (end - start) / 2
}

/// Every box on `start..end` is well formed.
pub open spec fn boxes_wf(row: Seq<Footprint>, start: int, end: int) -> bool {
    forall|i: int| start <= i < end ==> (#[trigger] row[i]).aabb.wf()
}

/// `aabb` is the least box around the boxes on `start..end`: it holds each
/// of them, and each of its six faces touches one of them.
pub open spec fn is_hull(aabb: Aabb, row: Seq<Footprint>, start: int, end: int) -> bool {
    &&& forall|i: int| start <= i < end ==> aabb.encloses((#[trigger] row[i]).aabb)
    &&& exists|i: int|
        start <= i < end && (#[trigger] row[i]).aabb.min_point.x == aabb.min_point.x
    &&& exists|i: int|
        start <= i < end && (#[trigger] row[i]).aabb.min_point.y == aabb.min_point.y
    &&& exists|i: int|
        start <= i < end && (#[trigger] row[i]).aabb.min_point.z == aabb.min_point.z
    &&& exists|i: int|
        start <= i < end && (#[trigger] row[i]).aabb.max_point.x == aabb.max_point.x
    &&& exists|i: int|
        start <= i < end && (#[trigger] row[i]).aabb.max_point.y == aabb.max_point.y
    &&& exists|i: int|
        start <= i < end && (#[trigger] row[i]).aabb.max_point.z == aabb.max_point.z
}

impl Bvh {
    /// The shape of the tree over the stretch `start..end` with at most
    /// `max_leaf_size` footprints to a leaf: empty over nothing, a leaf over a
    /// stretch that is short enough, else a node split at the median.
    pub open spec fn wf(self, start: int, end: int, max_leaf_size: int) -> bool
        decreases self,
    {
        match self {
            Bvh::Empty => start == end,
            Bvh::Leaf { start: s, end: e } => {
                &&& s == start
                &&& e == end
                &&& start < end
                &&& end - start <= max_leaf_size
            },
            Bvh::Node(node) => {
                &&& end - start > max_leaf_size
                &&& end - start >= 2
                &&& node.left.wf(start, median(start, end), max_leaf_size)
                &&& node.right.wf(median(start, end), end, max_leaf_size)
            },
        }
    }

    /// The box of every node is the hull of the boxes on the node's stretch.
    pub open spec fn hulls(self, row: Seq<Footprint>, start: int, end: int) -> bool
        decreases self,
    {
        match self {
            Bvh::Node(node) => {
                &&& is_hull(node.aabb, row, start, end)
                &&& node.left.hulls(row, start, median(start, end))
                &&& node.right.hulls(row, median(start, end), end)
            },
            _ => true,
        }
    }

    /// Every node parts its stretch at the median, on the longest axis of
    /// its box as `measure` sizes the box.
    pub open spec fn split_by<M: Fn(Aabb) -> Vec3>(
        self,
        row: Seq<Footprint>,
        start: int,
        end: int,
        measure: M,
    ) -> bool
        decreases self,
    {
        match self {
            Bvh::Node(node) => {
                &&& exists|size: Vec3|
                    (#[trigger] call_ensures(measure, (node.aabb,), size)) && parted_on(
                        row,
                        start,
                        median(start, end),
                        end,
                        longest_axis(size),
                    )
                &&& node.left.split_by(row, start, median(start, end), measure)
                &&& node.right.split_by(row, median(start, end), end, measure)
            },
            _ => true,
        }
    }

    /// Some leaf holds the index `i`.
    pub open spec fn reaches(self, i: int) -> bool
        decreases self,
    {
        match self {
            Bvh::Empty => false,
            Bvh::Leaf { start, end } => start <= i < end,
            Bvh::Node(node) => node.left.reaches(i) || node.right.reaches(i),
        }
    }

    /// `nearest` is what a query returns when the box test is `enters` and
    /// the surfaces are probed by `probe`. A leaf probes each index of its
    /// stretch once, in order, and keeps the first of the nearest hits. A
    /// node tests its box; if the ray stays out there is no hit, else both
    /// children are queried and the nearer of their hits wins.
    pub open spec fn answers<E: Fn(Aabb) -> bool, P: Fn(usize) -> Option<Hit>>(
        self,
        enters: E,
        probe: P,
        nearest: Option<Hit>,
    ) -> bool
        decreases self,
    {
        match self {
            Bvh::Empty => nearest is None,
            Bvh::Leaf { start, end } => if start < end {
                exists|outcomes: Seq<Option<Hit>>|
                    {
                        &&& outcomes.len() == end - start
                        &&& forall|k: int|
                            0 <= k < outcomes.len() ==> call_ensures(
                                probe,
                                ((start + k) as usize,),
                                #[trigger] outcomes[k],
                            )
                        &&& nearest == #[trigger] first_nearest(outcomes)
                    }
            } else {
                nearest is None
            },
            Bvh::Node(node) => {
                ||| (call_ensures(enters, (node.aabb,), false) && nearest is None)
                ||| (call_ensures(enters, (node.aabb,), true) && exists|
                    left: Option<Hit>,
                    right: Option<Hit>,
                |
                    {
                        &&& node.left.answers(enters, probe, left)
                        &&& node.right.answers(enters, probe, right)
                        &&& nearest == #[trigger] nearer(left, right)
                    })
            },
        }
    }

    /// The number of levels of the tree.
    pub open spec fn height(self) -> nat
        decreases self,
    {
        match self {
            Bvh::Empty => 0,
            Bvh::Leaf { .. } => 1,
            Bvh::Node(node) => {
                let left = node.left.height();
                let right = node.right.height();
                if left >= right {
                    left + 1
                } else {
                    right + 1
                }
            },
        }
    }
}

/// Sorts the stretch `start..end` of the row by the centres' coordinates on
/// `axis`, with `sort_unstable_by_key` of the standard library: afterwards
/// the stretch holds the same footprints in ascending order of that
/// coordinate, and the rest of the row is as it was.
#[verifier::external_body]
fn sort_stretch(row: &mut Vec<Footprint>, start: usize, end: usize, axis: Axis)
    requires
        start <= end <= old(row).len(),
    ensures
        same_elsewhere(old(row)@, final(row)@, start as int, end as int),
        same_footprints(old(row)@, final(row)@, start as int, end as int),
        sorted_on(final(row)@, start as int, end as int, axis),
{
    row[start..end].sort_unstable_by_key(|footprint| footprint.center.along(axis));
}

/// A stretch is its two parts, one after the other.
proof fn lemma_split_footprints(
    before: Seq<Footprint>,
    after: Seq<Footprint>,
    start: int,
    mid: int,
    end: int,
)
    requires
        0 <= start <= mid <= end <= before.len(),
        before.len() == after.len(),
        same_footprints(before, after, start, mid),
        same_footprints(before, after, mid, end),
    ensures
        same_footprints(before, after, start, end),
{
    assert(before.subrange(start, end) =~= before.subrange(start, mid) + before.subrange(
        mid,
        end,
    ));
    assert(after.subrange(start, end) =~= after.subrange(start, mid) + after.subrange(mid, end));
    lemma_multiset_commutative(before.subrange(start, mid), before.subrange(mid, end));
    lemma_multiset_commutative(after.subrange(start, mid), after.subrange(mid, end));
}

/// A stretch that was left alone holds the same footprints.
proof fn lemma_untouched_footprints(
    before: Seq<Footprint>,
    after: Seq<Footprint>,
    start: int,
    end: int,
)
    requires
        0 <= start <= end <= before.len(),
        before.len() == after.len(),
        forall|i: int| start <= i < end ==> before[i] == after[i],
    ensures
        same_footprints(before, after, start, end),
{
    assert(before.subrange(start, end) =~= after.subrange(start, end));
}

/// A footprint on a stretch is still on it after the stretch was permuted.
proof fn lemma_footprint_moved(
    before: Seq<Footprint>,
    after: Seq<Footprint>,
    start: int,
    end: int,
    i: int,
)
    requires
        0 <= start <= i < end <= before.len(),
        before.len() == after.len(),
        same_footprints(before, after, start, end),
    ensures
        exists|j: int| start <= j < end && #[trigger] after[j] == before[i],
{
    let old_stretch = before.subrange(start, end);
    let new_stretch = after.subrange(start, end);
    assert(old_stretch[i - start] == before[i]);
    assert(old_stretch.contains(before[i]));
    to_multiset_contains(old_stretch, before[i]);
    to_multiset_contains(new_stretch, before[i]);
    let k = choose|k: int| 0 <= k < new_stretch.len() && new_stretch[k] == before[i];
    assert(after[start + k] == before[i]);
}

/// Well-formed boxes stay well formed when their stretch is permuted.
proof fn lemma_boxes_wf_permuted(
    before: Seq<Footprint>,
    after: Seq<Footprint>,
    start: int,
    end: int,
)
    requires
        0 <= start <= end <= before.len(),
        before.len() == after.len(),
        same_footprints(before, after, start, end),
        boxes_wf(before, start, end),
    ensures
        boxes_wf(after, start, end),
{
    assert forall|i: int| start <= i < end implies (#[trigger] after[i]).aabb.wf() by {
        lemma_footprint_moved(after, before, start, end, i);
    }
}

/// The hull of a stretch does not depend on the order of the stretch.
proof fn lemma_hull_permuted(
    aabb: Aabb,
    before: Seq<Footprint>,
    after: Seq<Footprint>,
    start: int,
    end: int,
)
    requires
        0 <= start <= end <= before.len(),
        before.len() == after.len(),
        same_footprints(before, after, start, end),
        is_hull(aabb, before, start, end),
    ensures
        is_hull(aabb, after, start, end),
{
    assert forall|i: int| start <= i < end implies aabb.encloses((#[trigger] after[i]).aabb) by {
        lemma_footprint_moved(after, before, start, end, i);
    }
    let i = choose|i: int|
        start <= i < end && (#[trigger] before[i]).aabb.min_point.x == aabb.min_point.x;
    lemma_footprint_moved(before, after, start, end, i);
    let i = choose|i: int|
        start <= i < end && (#[trigger] before[i]).aabb.min_point.y == aabb.min_point.y;
    lemma_footprint_moved(before, after, start, end, i);
    let i = choose|i: int|
        start <= i < end && (#[trigger] before[i]).aabb.min_point.z == aabb.min_point.z;
    lemma_footprint_moved(before, after, start, end, i);
    let i = choose|i: int|
        start <= i < end && (#[trigger] before[i]).aabb.max_point.x == aabb.max_point.x;
    lemma_footprint_moved(before, after, start, end, i);
    let i = choose|i: int|
        start <= i < end && (#[trigger] before[i]).aabb.max_point.y == aabb.max_point.y;
    lemma_footprint_moved(before, after, start, end, i);
    let i = choose|i: int|
        start <= i < end && (#[trigger] before[i]).aabb.max_point.z == aabb.max_point.z;
    lemma_footprint_moved(before, after, start, end, i);
}

/// The hull of a stretch and one more box is the union of the hull and the
/// box.
proof fn lemma_hull_extend(aabb: Aabb, row: Seq<Footprint>, start: int, end: int)
    requires
        0 <= start < end < row.len(),
        boxes_wf(row, start, end + 1),
        is_hull(aabb, row, start, end),
    ensures
        is_hull(aabb.union(row[end].aabb), row, start, end + 1),
{
    let last = row[end].aabb;
    let both = aabb.union(last);
    assert(last.wf());
    assert(row[start].aabb.wf());
    assert(aabb.encloses(row[start].aabb));
    let i = choose|i: int|
        start <= i < end && (#[trigger] row[i]).aabb.min_point.x == aabb.min_point.x;
    assert(row[i].aabb.wf());
    let w = if both.min_point.x == aabb.min_point.x { i } else { end };
    assert(start <= w < end + 1 && row[w].aabb.min_point.x == both.min_point.x);
    let i = choose|i: int|
        start <= i < end && (#[trigger] row[i]).aabb.min_point.y == aabb.min_point.y;
    assert(row[i].aabb.wf());
    let w = if both.min_point.y == aabb.min_point.y { i } else { end };
    assert(start <= w < end + 1 && row[w].aabb.min_point.y == both.min_point.y);
    let i = choose|i: int|
        start <= i < end && (#[trigger] row[i]).aabb.min_point.z == aabb.min_point.z;
    assert(row[i].aabb.wf());
    let w = if both.min_point.z == aabb.min_point.z { i } else { end };
    assert(start <= w < end + 1 && row[w].aabb.min_point.z == both.min_point.z);
    let i = choose|i: int|
        start <= i < end && (#[trigger] row[i]).aabb.max_point.x == aabb.max_point.x;
    assert(row[i].aabb.wf());
    let w = if both.max_point.x == aabb.max_point.x { i } else { end };
    assert(start <= w < end + 1 && row[w].aabb.max_point.x == both.max_point.x);
    let i = choose|i: int|
        start <= i < end && (#[trigger] row[i]).aabb.max_point.y == aabb.max_point.y;
    assert(row[i].aabb.wf());
    let w = if both.max_point.y == aabb.max_point.y { i } else { end };
    assert(start <= w < end + 1 && row[w].aabb.max_point.y == both.max_point.y);
    let i = choose|i: int|
        start <= i < end && (#[trigger] row[i]).aabb.max_point.z == aabb.max_point.z;
    assert(row[i].aabb.wf());
    let w = if both.max_point.z == aabb.max_point.z { i } else { end };
    assert(start <= w < end + 1 && row[w].aabb.max_point.z == both.max_point.z);
    assert forall|k: int| start <= k < end + 1 implies both.encloses((#[trigger] row[k]).aabb) by {
        assert(row[k].aabb.wf());
        if k < end {
            assert(aabb.encloses(row[k].aabb));
        }
    }
}

/// A stretch in ascending order is parted wherever it is cut.
proof fn lemma_sorted_is_parted(row: Seq<Footprint>, start: int, mid: int, end: int, axis: Axis)
    requires
        start <= mid <= end,
        sorted_on(row, start, end, axis),
    ensures
        parted_on(row, start, mid, end, axis),
{
}

/// A parted stretch stays parted when each part is permuted in itself.
proof fn lemma_parted_permuted(
    before: Seq<Footprint>,
    after: Seq<Footprint>,
    start: int,
    mid: int,
    end: int,
    axis: Axis,
)
    requires
        0 <= start <= mid <= end <= before.len(),
        before.len() == after.len(),
        same_footprints(before, after, start, mid),
        same_footprints(before, after, mid, end),
        parted_on(before, start, mid, end, axis),
    ensures
        parted_on(after, start, mid, end, axis),
{
    assert forall|i: int, j: int| start <= i < mid && mid <= j < end implies after[i].center.coordinate(
        axis,
    ) <= after[j].center.coordinate(axis) by {
        lemma_footprint_moved(after, before, start, mid, i);
        lemma_footprint_moved(after, before, mid, end, j);
    }
}

impl Bvh {
    /// What a tree says of its stretch does not depend on the rest of the
    /// row.
    proof fn lemma_frame<M: Fn(Aabb) -> Vec3>(
        self,
        before: Seq<Footprint>,
        after: Seq<Footprint>,
        start: int,
        end: int,
        max_leaf_size: int,
        measure: M,
    )
        requires
            self.wf(start, end, max_leaf_size),
            0 <= start <= end <= before.len(),
            before.len() == after.len(),
            forall|i: int| start <= i < end ==> before[i] == after[i],
        ensures
            self.hulls(before, start, end) ==> self.hulls(after, start, end),
            self.split_by(before, start, end, measure) ==> self.split_by(
                after,
                start,
                end,
                measure,
            ),
        decreases self,
    {
        match self {
            Bvh::Node(node) => {
                let mid = median(start, end);
                node.left.lemma_frame(before, after, start, mid, max_leaf_size, measure);
                node.right.lemma_frame(before, after, mid, end, max_leaf_size, measure);
                if self.hulls(before, start, end) {
                    lemma_untouched_footprints(before, after, start, end);
                    lemma_hull_permuted(node.aabb, before, after, start, end);
                }
                if self.split_by(before, start, end, measure) {
                    let size = choose|size: Vec3|
                        (#[trigger] call_ensures(measure, (node.aabb,), size)) && parted_on(
                            before,
                            start,
                            mid,
                            end,
                            longest_axis(size),
                        );
                    assert(parted_on(after, start, mid, end, longest_axis(size)));
                }
            },
            _ => {},
        }
    }

    /// Picks the axis on which a box of the given size is longest.
    fn pick_axis(size: Vec3) -> (axis: Axis)
        ensures
            axis == longest_axis(size),
    {
        if less(size.y, size.x) && less(size.z, size.x) {
            Axis::X
        } else if less(size.x, size.y) && less(size.z, size.y) {
            Axis::Y
        } else {
            Axis::Z
        }
    }

    /// Builds the hierarchy over the stretch `start..end` of the row.
    fn build<M: Fn(Aabb) -> Vec3>(
        row: &mut Vec<Footprint>,
        start: usize,
        end: usize,
        max_leaf_size: usize,
        measure: &M,
    ) -> (tree: Bvh)
        requires
            start <= end <= old(row).len(),
            max_leaf_size >= 1,
            forall|aabb: Aabb| call_requires(*measure, (aabb,)),
        ensures
            tree.wf(start as int, end as int, max_leaf_size as int),
            same_elsewhere(old(row)@, final(row)@, start as int, end as int),
            same_footprints(old(row)@, final(row)@, start as int, end as int),
            tree.split_by(final(row)@, start as int, end as int, *measure),
            boxes_wf(old(row)@, start as int, end as int) ==> tree.hulls(
                final(row)@,
                start as int,
                end as int,
            ),
        decreases end - start,
    {
        if start == end {
            return Bvh::Empty;
        }
        if end - start <= max_leaf_size {
            return Bvh::Leaf { start, end };
        }
        let ghost row0 = row@;
        let ghost sound = boxes_wf(row0, start as int, end as int);
        let mut aabb = row[start].aabb;
        let mut i: usize = start + 1;
        proof {
            if sound {
                assert(row[start as int].aabb.wf());
            }
        }
        while i < end
            invariant
                start < i <= end <= row.len(),
                row@ == row0,
                sound == boxes_wf(row0, start as int, end as int),
                sound ==> is_hull(aabb, row0, start as int, i as int),
            decreases end - i,
        {
            proof {
                if sound {
                    lemma_hull_extend(aabb, row0, start as int, i as int);
                }
            }
            aabb = aabb.bitor(row[i].aabb);
            i = i + 1;
        }
        let size = measure(aabb);
        let axis = Bvh::pick_axis(size);
        sort_stretch(row, start, end, axis);
        let ghost row1 = row@;
        let mid = start + (end - start) / 2;
        proof {
            lemma_sorted_is_parted(row1, start as int, mid as int, end as int, axis);
            if sound {
                lemma_boxes_wf_permuted(row0, row1, start as int, end as int);
            }
        }
        let left = Bvh::build(row, start, mid, max_leaf_size, measure);
        let ghost row2 = row@;
        let right = Bvh::build(row, mid, end, max_leaf_size, measure);
        let tree = Bvh::Node(Box::new(Node { aabb, left, right }));
        proof {
            let row3 = row@;
            let node = tree->Node_0;
            lemma_untouched_footprints(row1, row2, mid as int, end as int);
            lemma_split_footprints(row1, row2, start as int, mid as int, end as int);
            lemma_untouched_footprints(row2, row3, start as int, mid as int);
            lemma_split_footprints(row2, row3, start as int, mid as int, end as int);
            node.left.lemma_frame(
                row2,
                row3,
                start as int,
                mid as int,
                max_leaf_size as int,
                *measure,
            );
            // Each part of the final row holds what it held after sorting.
            assert(same_footprints(row1, row3, start as int, mid as int));
            assert(same_footprints(row1, row3, mid as int, end as int));
            lemma_parted_permuted(row1, row3, start as int, mid as int, end as int, axis);
            assert(call_ensures(*measure, (node.aabb,), size) && parted_on(
                row3,
                start as int,
                median(start as int, end as int),
                end as int,
                longest_axis(size),
            ));
            assert(node.left.split_by(row3, start as int, mid as int, *measure));
            assert(node.right.split_by(row3, mid as int, end as int, *measure));
            assert(tree.split_by(row3, start as int, end as int, *measure));
            if sound {
                assert(same_footprints(row0, row3, start as int, end as int));
                lemma_hull_permuted(aabb, row0, row3, start as int, end as int);
            }
        }
        tree
    }
}

impl Bvh {
    /// Builds the hierarchy over a row of footprints, with at most
    /// `max_leaf_size` of them to a leaf. The row is permuted in place so
    /// that every leaf is a stretch of it. A stretch that is too long for a
    /// leaf gets the hull of its boxes, is sorted by the centres'
    /// coordinates on the longest axis of the hull, and is split at its
    /// median. The size of a box is what `measure` returns for it.
    pub fn new<M: Fn(Aabb) -> Vec3>(
        row: &mut Vec<Footprint>,
        max_leaf_size: usize,
        measure: &M,
    ) -> (tree: Bvh)
        requires
            max_leaf_size >= 1,
            forall|aabb: Aabb| call_requires(*measure, (aabb,)),
        ensures
            tree.wf(0, old(row).len() as int, max_leaf_size as int),
            final(row).len() == old(row).len(),
            final(row)@.to_multiset() == old(row)@.to_multiset(),
            tree.split_by(final(row)@, 0, old(row).len() as int, *measure),
            boxes_wf(old(row)@, 0, old(row).len() as int) ==> tree.hulls(
                final(row)@,
                0,
                old(row).len() as int,
            ),
    {
        let ghost before = row@;
        let end = row.len();
        let tree = Bvh::build(row, 0, end, max_leaf_size, measure);
        proof {
            assert(before.subrange(0, end as int) =~= before);
            assert(row@.subrange(0, end as int) =~= row@);
        }
        tree
    }

    /// Finds the nearest hit. `enters` tells whether the ray meets a box
    /// within the range of distances that counts; `probe` intersects the ray
    /// with the surface whose footprint stands at an index of the row.
    pub fn hit<E: Fn(Aabb) -> bool, P: Fn(usize) -> Option<Hit>>(
        &self,
        enters: &E,
        probe: &P,
    ) -> (nearest: Option<Hit>)
        requires
            forall|aabb: Aabb| call_requires(*enters, (aabb,)),
            forall|i: usize| self.reaches(i as int) ==> #[trigger] call_requires(*probe, (i,)),
        ensures
            self.answers(*enters, *probe, nearest),
            self is Empty ==> nearest is None,
        decreases self,
    {
        match self {
            Bvh::Empty => None,
            Bvh::Leaf { start, end } => {
                let mut best: Option<Hit> = None;
                let mut i: usize = *start;
                let ghost mut outcomes: Seq<Option<Hit>> = Seq::empty();
                while i < *end
                    invariant
                        *start <= i,
                        *start < *end ==> i <= *end,
                        *start >= *end ==> i == *start,
                        outcomes.len() == i - *start,
                        forall|k: int|
                            0 <= k < outcomes.len() ==> call_ensures(
                                *probe,
                                ((*start + k) as usize,),
                                #[trigger] outcomes[k],
                            ),
                        best == first_nearest(outcomes),
                        forall|j: usize|
                            *start <= j < *end ==> #[trigger] call_requires(*probe, (j,)),
                    decreases *end - i,
                {
                    let candidate = probe(i);
                    proof {
                        let earlier = outcomes;
                        outcomes = outcomes.push(candidate);
                        assert(outcomes.drop_last() =~= earlier);
                    }
                    best = keep(best, candidate);
                    i = i + 1;
                }
                best
            },
            Bvh::Node(node) => {
                if enters(node.aabb) {
                    let left = node.left.hit(enters, probe);
                    let right = node.right.hit(enters, probe);
                    pick_nearer(left, right)
                } else {
                    None
                }
            },
        }
    }

    /// A query returns the nearest hit of a linear scan. Let every probe of
    /// an index return `outcome` of that index, and let the ray enter every
    /// box that holds the box of a surface it hits. Then what the query
    /// returns is a nearest hit among the outcomes of the whole stretch.
    pub proof fn lemma_hit_is_nearest<E: Fn(Aabb) -> bool, P: Fn(usize) -> Option<Hit>>(
        self,
        row: Seq<Footprint>,
        start: int,
        end: int,
        max_leaf_size: int,
        enters: E,
        probe: P,
        outcome: spec_fn(int) -> Option<Hit>,
        nearest: Option<Hit>,
    )
        requires
            0 <= start <= end <= row.len(),
            end <= usize::MAX,
            self.wf(start, end, max_leaf_size),
            self.hulls(row, start, end),
            self.answers(enters, probe, nearest),
            forall|i: usize, found: Option<Hit>|
                start <= i < end && #[trigger] call_ensures(probe, (i,), found) ==> found
                    == outcome(i as int),
            forall|aabb: Aabb, i: int|
                start <= i < end && (#[trigger] outcome(i)) is Some && #[trigger] aabb.encloses(
                    row[i].aabb,
                ) ==> !call_ensures(enters, (aabb,), false),
        ensures
            is_nearest(nearest, outcome, start, end),
        decreases self,
    {
        match self {
            Bvh::Empty => {},
            Bvh::Leaf { .. } => {
                let outcomes = choose|outcomes: Seq<Option<Hit>>|
                    {
                        &&& outcomes.len() == end - start
                        &&& forall|k: int|
                            0 <= k < outcomes.len() ==> call_ensures(
                                probe,
                                ((start + k) as usize,),
                                #[trigger] outcomes[k],
                            )
                        &&& nearest == #[trigger] first_nearest(outcomes)
                    };
                assert forall|k: int| 0 <= k < outcomes.len() implies outcomes[k] == outcome(
                    start + k,
                ) by {
                    assert(call_ensures(probe, ((start + k) as usize,), outcomes[k]));
                }
                lemma_first_nearest_is_nearest(outcomes, outcome, start);
            },
            Bvh::Node(node) => {
                let mid = median(start, end);
                if call_ensures(enters, (node.aabb,), false) && nearest is None {
                    assert forall|i: int| start <= i < end implies (#[trigger] outcome(
                        i,
                    )) is None by {
                        if outcome(i) is Some {
                            assert(node.aabb.encloses(row[i].aabb));
                        }
                    }
                } else {
                    let (left, right) = choose|left: Option<Hit>, right: Option<Hit>|
                        {
                            &&& node.left.answers(enters, probe, left)
                            &&& node.right.answers(enters, probe, right)
                            &&& nearest == #[trigger] nearer(left, right)
                        };
                    node.left.lemma_hit_is_nearest(
                        row,
                        start,
                        mid,
                        max_leaf_size,
                        enters,
                        probe,
                        outcome,
                        left,
                    );
                    node.right.lemma_hit_is_nearest(
                        row,
                        mid,
                        end,
                        max_leaf_size,
                        enters,
                        probe,
                        outcome,
                        right,
                    );
                    lemma_nearer_is_nearest(left, right, outcome, start, mid, end);
                }
            },
        }
    }

    /// The leaves of a tree over a stretch hold the indices of the stretch,
    /// and no others.
    pub proof fn lemma_leaves_cover(self, start: int, end: int, max_leaf_size: int)
        requires
            self.wf(start, end, max_leaf_size),
        ensures
            forall|i: int| self.reaches(i) <==> start <= i < end,
        decreases self,
    {
        match self {
            Bvh::Node(node) => {
                let mid = median(start, end);
                node.left.lemma_leaves_cover(start, mid, max_leaf_size);
                node.right.lemma_leaves_cover(mid, end, max_leaf_size);
                assert forall|i: int| self.reaches(i) <==> start <= i < end by {
                    assert(self.reaches(i) == (node.left.reaches(i) || node.right.reaches(i)));
                }
            },
            _ => {},
        }
    }

    /// The tree is no deeper than the number of halvings that bring the
    /// stretch down to the size of a leaf, and one: with `n` footprints and
    /// leaves of `l`, `n <= l * 2^j` gives at most `j + 1` levels.
    pub proof fn lemma_height_bound(
        self,
        start: int,
        end: int,
        max_leaf_size: int,
        halvings: nat,
    )
        requires
            max_leaf_size >= 1,
            self.wf(start, end, max_leaf_size),
            end - start <= max_leaf_size * pow2(halvings),
        ensures
            self.height() <= halvings + 1,
        decreases self,
    {
        match self {
            Bvh::Node(node) => {
                let mid = median(start, end);
                if halvings == 0 {
                    assert(pow2(0) == 1) by {
                        lemma_pow2_unfold(1);
                        vstd::arithmetic::power2::lemma2_to64();
                    }
                    assert(max_leaf_size * 1 == max_leaf_size);
                } else {
                    let fewer = (halvings - 1) as nat;
                    lemma_pow2_unfold(halvings);
                    assert(max_leaf_size * pow2(halvings) == 2 * (max_leaf_size * pow2(fewer)))
                        by (nonlinear_arith)
                        requires
                            pow2(halvings) == 2 * pow2(fewer),
                    ;
                    node.left.lemma_height_bound(start, mid, max_leaf_size, fewer);
                    node.right.lemma_height_bound(mid, end, max_leaf_size, fewer);
                }
            },
            _ => {},
        }
    }
}

} // verus!
