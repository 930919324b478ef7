use vstd::prelude::*;
use vstd::arithmetic::power2::{lemma2_to64, lemma_pow2_unfold, pow2};
use crate::aabb::{
    lemma_encloses_transitive, lemma_surrounding_box_encloses, spec_surrounding_box, AABB,
};
use crate::bvh::{height, linked, under, BVHNode, Child};

verus! {

/// The greatest number of primitives that a hierarchy is built over: with
/// more, a node index would not fit its word, and a way down could be
/// longer than the traversal's stack.
pub const MAX_PRIMITIVES: usize = 0x8000_0000;

/// The height of a hierarchy that halves `n` primitives until one is left,
/// the larger half counting.
pub open spec fn levels(n: nat) -> nat
    decreases n,
{
    if n <= 1 {
        1
    } else {
        1 + levels((n - n / 2) as nat)
    }
}

/// Whether the nodes from `a` up to `b` are whole subtrees over the
/// primitives from `lo` up to `hi`, each node put down before what is below
/// it: the first child of a node is the next node, the second comes after
/// all that is below the first and before `b`; each leaf stands for a
/// primitive of the range, and no node has a single child.
pub open spec fn whole(nodes: Seq<BVHNode>, a: int, b: int, lo: int, hi: int) -> bool {
    &&& 0 <= a <= b <= nodes.len()
    &&& 0 <= lo <= hi <= MAX_PRIMITIVES
    &&& forall|k: int|
        a <= k < b ==> match (#[trigger] nodes[k]).spec_kind() {
            Child::One(_) => false,
            Child::Two(y, z) => y == k + 1 && y < z < b,
            Child::World(w) => lo <= w < hi,
        }
}

/// Whether the box of each node from `a` up to `b` is what it has to be: for
/// a leaf the box of its primitive, for a node with two children the
/// surrounding box of theirs.
pub open spec fn boxed(nodes: Seq<BVHNode>, bounds: Seq<AABB>, a: int, b: int) -> bool {
    forall|k: int|
        a <= k < b ==> match (#[trigger] nodes[k]).spec_kind() {
            Child::One(y) => nodes[k].aabb == nodes[y as int].aabb,
            Child::Two(y, z) => nodes[k].aabb == spec_surrounding_box(
                nodes[y as int].aabb,
                nodes[z as int].aabb,
            ),
            Child::World(w) => nodes[k].aabb == bounds[w as int],
        }
}

/// The primitives below node `i`, as a range: from the primitive of its
/// first leaf up to, and without, the one after its last leaf.
pub open spec fn span(nodes: Seq<BVHNode>, i: int) -> (int, int)
    decreases nodes.len() - i,
{
    if !(0 <= i < nodes.len()) {
        (0, 0)
    } else {
        match nodes[i].spec_kind() {
            Child::One(y) => if i < y < nodes.len() {
                span(nodes, y as int)
            } else {
                (0, 0)
            },
            Child::Two(y, z) => if i < y < nodes.len() && i < z < nodes.len() {
                (span(nodes, y as int).0, span(nodes, z as int).1)
            } else {
                (0, 0)
            },
            Child::World(w) => (w as int, w + 1),
        }
    }
}

/// The key by which primitives are ordered along an axis: the least corner
/// of the box on that axis, in the total order of the scalars.
pub open spec fn axis_key(bounds: AABB, axis: usize) -> u32 {
    bounds.minimum.spec_axis(axis as int).spec_ordered_key()
}

/// Whether along the axis no primitive from `l` up to `m` comes after one
/// from `m` up to `r`.
pub open spec fn sorted_apart(bounds: Seq<AABB>, l: int, m: int, r: int, axis: usize) -> bool {
    forall|p: int, q: int|
        l <= p < m && m <= q < r ==> axis_key(#[trigger] bounds[p], axis) <= axis_key(
            #[trigger] bounds[q],
            axis,
        )
}

/// Whether each node with two children, from `a` up to `b`, splits its
/// primitives in the middle and along an axis: the first child holds the
/// lower half of the range, rounded down, the second the rest, and along
/// one of the three axes nothing in the first comes after anything in the
/// second. The second child stands right after the nodes of the first.
pub open spec fn parted(nodes: Seq<BVHNode>, bounds: Seq<AABB>, a: int, b: int) -> bool {
    forall|k: int|
        a <= k < b ==> match (#[trigger] nodes[k]).spec_kind() {
            Child::Two(y, z) => {
                let first = span(nodes, y as int);
                let second = span(nodes, z as int);
                &&& first.1 == second.0
                &&& first.1 == (first.0 + second.1) / 2
                &&& z == y + 2 * (first.1 - first.0) - 1
                &&& exists|axis: usize|
                    axis < 3 && #[trigger] sorted_apart(bounds, first.0, first.1, second.1, axis)
            },
            _ => true,
        }
}

/// Whether the nodes from `i` on are a finished hierarchy over the primitives
/// from `l` up to `r`: whole subtrees with the right boxes, split in the
/// middle along an axis, every primitive of the range below the first
/// node, and no more levels than halving gives.
pub open spec fn built(nodes: Seq<BVHNode>, bounds: Seq<AABB>, i: int, l: int, r: int) -> bool {
    &&& whole(nodes, i, nodes.len() as int, l, r)
    &&& boxed(nodes, bounds, i, nodes.len() as int)
    &&& parted(nodes, bounds, i, nodes.len() as int)
    &&& span(nodes, i) == (l, r)
    &&& forall|w: int| l <= w < r ==> #[trigger] under(nodes, i, w)
    &&& height(nodes, i) <= levels((r - l) as nat)
}

/// More primitives never make a lower hierarchy.
pub proof fn lemma_levels_monotone(a: nat, b: nat)
    requires
        a <= b,
    ensures
        levels(a) <= levels(b),
    decreases b,
{
    if a > 1 {
        lemma_levels_monotone((a - a / 2) as nat, (b - b / 2) as nat);
    }
}

/// Over at most `2^k` primitives the hierarchy has at most `k + 1` levels.
pub proof fn lemma_levels_bound(n: nat, k: nat)
    requires
        n <= pow2(k),
    ensures
        levels(n) <= k + 1,
    decreases k,
{
    if n > 1 {
        if k == 0 {
            lemma2_to64();
        } else {
            lemma_pow2_unfold(k);
            lemma_levels_bound((n - n / 2) as nat, (k - 1) as nat);
        }
    }
}

/// Over at most `MAX_PRIMITIVES` primitives the hierarchy has at most 32
/// levels, which is what the traversal's stack holds.
pub proof fn lemma_levels_fit(n: nat)
    requires
        n <= MAX_PRIMITIVES,
    ensures
        levels(n) <= crate::stack::STACK_CAPACITY,
{
    lemma2_to64();
    lemma_levels_bound(n, 31);
}

/// Subtrees that are whole read the same in any array that holds them: the
/// height of a node, its span, and the primitives below it depend on no
/// node outside.
pub proof fn lemma_whole_elsewhere(
    n1: Seq<BVHNode>,
    n2: Seq<BVHNode>,
    a: int,
    b: int,
    lo: int,
    hi: int,
    k: int,
)
    requires
        whole(n1, a, b, lo, hi),
        b <= n2.len(),
        forall|j: int| a <= j < b ==> n1[j] == n2[j],
        a <= k < b,
    ensures
        height(n1, k) == height(n2, k),
        span(n1, k) == span(n2, k),
        forall|w: int| under(n1, k, w) == under(n2, k, w),
    decreases b - k,
{
    match n1[k].spec_kind() {
        Child::One(_) => {},
        Child::Two(y, z) => {
            lemma_whole_elsewhere(n1, n2, a, b, lo, hi, y as int);
            lemma_whole_elsewhere(n1, n2, a, b, lo, hi, z as int);
        },
        Child::World(_) => {},
    }
    assert(n1[k] == n2[k]);
    assert forall|w: int| under(n1, k, w) == under(n2, k, w) by {
        match n1[k].spec_kind() {
            Child::One(_) => {},
            Child::Two(y, z) => {
                assert(under(n1, y as int, w) == under(n2, y as int, w));
                assert(under(n1, z as int, w) == under(n2, z as int, w));
            },
            Child::World(_) => {},
        }
    }
}

/// Below a node of a whole subtree lie only primitives of its range, and one
/// of its leaves stands for each of them.
pub proof fn lemma_under_in_range(
    nodes: Seq<BVHNode>,
    a: int,
    b: int,
    lo: int,
    hi: int,
    k: int,
    w: int,
) -> (leaf: int)
    requires
        whole(nodes, a, b, lo, hi),
        a <= k < b,
        under(nodes, k, w),
    ensures
        lo <= w < hi,
        k <= leaf < b,
        nodes[leaf].spec_kind() == Child::World(w as u32),
    decreases b - k,
{
    match nodes[k].spec_kind() {
        Child::One(_) => k,
        Child::Two(y, z) => {
            if under(nodes, y as int, w) {
                lemma_under_in_range(nodes, a, b, lo, hi, y as int, w)
            } else {
                lemma_under_in_range(nodes, a, b, lo, hi, z as int, w)
            }
        },
        Child::World(_) => k,
    }
}

/// The span of a node of a whole subtree lies in its range and is not empty.
pub proof fn lemma_span_in_range(
    nodes: Seq<BVHNode>,
    bounds: Seq<AABB>,
    a: int,
    b: int,
    lo: int,
    hi: int,
    k: int,
)
    requires
        whole(nodes, a, b, lo, hi),
        parted(nodes, bounds, a, b),
        a <= k < b,
    ensures
        lo <= span(nodes, k).0 < span(nodes, k).1 <= hi,
    decreases b - k,
{
    match nodes[k].spec_kind() {
        Child::One(_) => {},
        Child::Two(y, z) => {
            lemma_span_in_range(nodes, bounds, a, b, lo, hi, y as int);
            lemma_span_in_range(nodes, bounds, a, b, lo, hi, z as int);
        },
        Child::World(_) => {},
    }
}

/// In whole subtrees that are split in the middle, the primitives below a
/// node are those of its span.
pub proof fn lemma_under_is_span(
    nodes: Seq<BVHNode>,
    bounds: Seq<AABB>,
    a: int,
    b: int,
    lo: int,
    hi: int,
    k: int,
    w: int,
)
    requires
        whole(nodes, a, b, lo, hi),
        parted(nodes, bounds, a, b),
        a <= k < b,
    ensures
        under(nodes, k, w) <==> span(nodes, k).0 <= w < span(nodes, k).1,
    decreases b - k,
{
    match nodes[k].spec_kind() {
        Child::One(_) => {},
        Child::Two(y, z) => {
            lemma_under_is_span(nodes, bounds, a, b, lo, hi, y as int, w);
            lemma_under_is_span(nodes, bounds, a, b, lo, hi, z as int, w);
            lemma_span_in_range(nodes, bounds, a, b, lo, hi, y as int);
            lemma_span_in_range(nodes, bounds, a, b, lo, hi, z as int);
        },
        Child::World(_) => {},
    }
}

/// Whole subtrees with the right boxes and splits stay so in any array
/// that holds them, beside any boxes that agree on their primitives.
pub proof fn lemma_built_elsewhere(
    n1: Seq<BVHNode>,
    n2: Seq<BVHNode>,
    b1: Seq<AABB>,
    b2: Seq<AABB>,
    a: int,
    b: int,
    lo: int,
    hi: int,
)
    requires
        whole(n1, a, b, lo, hi),
        boxed(n1, b1, a, b),
        parted(n1, b1, a, b),
        b <= n2.len(),
        forall|j: int| a <= j < b ==> n1[j] == n2[j],
        forall|w: int| lo <= w < hi ==> b1[w] == b2[w],
    ensures
        whole(n2, a, b, lo, hi),
        boxed(n2, b2, a, b),
        parted(n2, b2, a, b),
{
    assert forall|k: int| a <= k < b implies match (#[trigger] n2[k]).spec_kind() {
        Child::One(_) => false,
        Child::Two(y, z) => y == k + 1 && y < z < b,
        Child::World(w) => lo <= w < hi,
    } by {
        assert(n1[k] == n2[k]);
    }
    assert forall|k: int| a <= k < b implies match (#[trigger] n2[k]).spec_kind() {
        Child::One(y) => n2[k].aabb == n2[y as int].aabb,
        Child::Two(y, z) => n2[k].aabb == spec_surrounding_box(n2[y as int].aabb, n2[z as int].aabb),
        Child::World(w) => n2[k].aabb == b2[w as int],
    } by {
        assert(n1[k] == n2[k]);
    }
    assert forall|k: int| a <= k < b implies match (#[trigger] n2[k]).spec_kind() {
        Child::Two(y, z) => {
            let first = span(n2, y as int);
            let second = span(n2, z as int);
            &&& first.1 == second.0
            &&& first.1 == (first.0 + second.1) / 2
            &&& z == y + 2 * (first.1 - first.0) - 1
            &&& exists|axis: usize|
                axis < 3 && #[trigger] sorted_apart(b2, first.0, first.1, second.1, axis)
        },
        _ => true,
    } by {
        assert(n1[k] == n2[k]);
        match n1[k].spec_kind() {
            Child::Two(y, z) => {
                lemma_whole_elsewhere(n1, n2, a, b, lo, hi, y as int);
                lemma_whole_elsewhere(n1, n2, a, b, lo, hi, z as int);
                lemma_span_in_range(n1, b1, a, b, lo, hi, y as int);
                lemma_span_in_range(n1, b1, a, b, lo, hi, z as int);
                let first = span(n1, y as int);
                let second = span(n1, z as int);
                let axis = choose|axis: usize|
                    axis < 3 && #[trigger] sorted_apart(b1, first.0, first.1, second.1, axis);
                assert(sorted_apart(b2, first.0, first.1, second.1, axis));
            },
            _ => {},
        }
    }
}

/// In whole subtrees with the right boxes, over primitives whose boxes are
/// in order, the box of every node is in order.
pub proof fn lemma_boxes_in_order(
    nodes: Seq<BVHNode>,
    bounds: Seq<AABB>,
    a: int,
    b: int,
    lo: int,
    hi: int,
    k: int,
)
    requires
        whole(nodes, a, b, lo, hi),
        boxed(nodes, bounds, a, b),
        forall|w: int| lo <= w < hi ==> (#[trigger] bounds[w]).wf(),
        a <= k < b,
    ensures
        nodes[k].aabb.wf(),
    decreases b - k,
{
    match nodes[k].spec_kind() {
        Child::One(_) => {},
        Child::Two(y, z) => {
            lemma_boxes_in_order(nodes, bounds, a, b, lo, hi, y as int);
            lemma_boxes_in_order(nodes, bounds, a, b, lo, hi, z as int);
            lemma_surrounding_box_encloses(nodes[y as int].aabb, nodes[z as int].aabb);
        },
        Child::World(_) => {},
    }
}

/// In whole subtrees with the right boxes, over primitives whose boxes are
/// in order, the box of a node encloses the box of every primitive below
/// it.
pub proof fn lemma_boxes_enclose(
    nodes: Seq<BVHNode>,
    bounds: Seq<AABB>,
    a: int,
    b: int,
    lo: int,
    hi: int,
    k: int,
    w: int,
)
    requires
        whole(nodes, a, b, lo, hi),
        boxed(nodes, bounds, a, b),
        forall|w: int| lo <= w < hi ==> (#[trigger] bounds[w]).wf(),
        a <= k < b,
        under(nodes, k, w),
    ensures
        nodes[k].aabb.encloses(bounds[w]),
    decreases b - k,
{
    match nodes[k].spec_kind() {
        Child::One(_) => {},
        Child::Two(y, z) => {
            let below = if under(nodes, y as int, w) {
                y as int
            } else {
                z as int
            };
            lemma_boxes_enclose(nodes, bounds, a, b, lo, hi, below, w);
            lemma_boxes_in_order(nodes, bounds, a, b, lo, hi, y as int);
            lemma_boxes_in_order(nodes, bounds, a, b, lo, hi, z as int);
            lemma_surrounding_box_encloses(nodes[y as int].aabb, nodes[z as int].aabb);
            lemma_encloses_transitive(nodes[k].aabb, nodes[below].aabb, bounds[w]);
        },
        Child::World(v) => {
            lemma_encloses_transitive(nodes[k].aabb, nodes[k].aabb, bounds[w]);
        },
    }
}

/// Whether node `i` links to `left` and `right` and has the surrounding box
/// of theirs.
pub open spec fn joins(nodes: Seq<BVHNode>, i: int, left: int, right: int) -> bool {
    &&& 0 <= i < left < right < nodes.len() <= u32::MAX
    &&& nodes[i].spec_kind() == Child::Two(left as u32, right as u32)
    &&& nodes[i].aabb == spec_surrounding_box(nodes[left].aabb, nodes[right].aabb)
}

/// Two runs of whole subtrees, one after the other, below a node that links
/// into both, are whole subtrees.
pub proof fn lemma_join_whole(
    nodes: Seq<BVHNode>,
    i: int,
    right: int,
    l: int,
    mid: int,
    r: int,
)
    requires
        joins(nodes, i, i + 1, right),
        l <= mid <= r,
        whole(nodes, i + 1, right, l, mid),
        whole(nodes, right, nodes.len() as int, mid, r),
    ensures
        whole(nodes, i, nodes.len() as int, l, r),
{
}

/// Two runs of nodes with the right boxes, below a node with the
/// surrounding box of its children, have the right boxes.
pub proof fn lemma_join_boxed(nodes: Seq<BVHNode>, bounds: Seq<AABB>, i: int, right: int)
    requires
        joins(nodes, i, i + 1, right),
        boxed(nodes, bounds, i + 1, right),
        boxed(nodes, bounds, right, nodes.len() as int),
    ensures
        boxed(nodes, bounds, i, nodes.len() as int),
{
}

/// Two runs of nodes that are split in the middle, below a node whose
/// children meet in the middle and are sorted apart, are split in the
/// middle.
pub proof fn lemma_join_parted(
    nodes: Seq<BVHNode>,
    bounds: Seq<AABB>,
    i: int,
    right: int,
    l: int,
    mid: int,
    r: int,
    axis: usize,
)
    requires
        joins(nodes, i, i + 1, right),
        parted(nodes, bounds, i + 1, right),
        parted(nodes, bounds, right, nodes.len() as int),
        span(nodes, i + 1) == (l, mid),
        span(nodes, right) == (mid, r),
        mid == (l + r) / 2,
        right == i + 1 + 2 * (mid - l) - 1,
        axis < 3,
        sorted_apart(bounds, l, mid, r, axis),
    ensures
        parted(nodes, bounds, i, nodes.len() as int),
        span(nodes, i) == (l, r),
{
}

/// A node above two finished hierarchies has a level more than the higher
/// of them, and all their primitives below it.
pub proof fn lemma_join_under(
    nodes: Seq<BVHNode>,
    i: int,
    left: int,
    right: int,
    l: int,
    mid: int,
    r: int,
)
    requires
        left == i + 1,
        joins(nodes, i, left, right),
        0 <= l < mid < r,
        mid == (l + r) / 2,
        forall|w: int| l <= w < mid ==> #[trigger] under(nodes, left, w),
        forall|w: int| mid <= w < r ==> #[trigger] under(nodes, right, w),
        height(nodes, left) <= levels((mid - l) as nat),
        height(nodes, right) <= levels((r - mid) as nat),
    ensures
        forall|w: int| l <= w < r ==> #[trigger] under(nodes, i, w),
        height(nodes, i) <= levels((r - l) as nat),
{
    lemma_levels_monotone((mid - l) as nat, (r - mid) as nat);
    assert forall|w: int| l <= w < r implies #[trigger] under(nodes, i, w) by {
        if w < mid {
            assert(under(nodes, left, w));
        } else {
            assert(under(nodes, right, w));
        }
    }
}

/// A node put before two finished hierarchies over neighbouring ranges, with
/// links to both and the surrounding box of theirs, makes one finished
/// hierarchy over the two ranges together, if the ranges meet in the middle
/// and are sorted apart along an axis.
pub proof fn lemma_join(
    n2: Seq<BVHNode>,
    n3: Seq<BVHNode>,
    n4: Seq<BVHNode>,
    b2: Seq<AABB>,
    b3: Seq<AABB>,
    i: int,
    l: int,
    mid: int,
    r: int,
    axis: usize,
)
    requires
        0 <= l < mid < r <= MAX_PRIMITIVES,
        mid == (l + r) / 2,
        axis < 3,
        sorted_apart(b3, l, mid, r, axis),
        forall|w: int| l <= w < mid ==> b2[w] == b3[w],
        0 <= i,
        i + 1 < n2.len() < n3.len() == n4.len(),
        n2.len() == i + 1 + 2 * (mid - l) - 1,
        forall|k: int| i < k < n2.len() ==> n4[k] == n2[k],
        forall|k: int| n2.len() <= k < n3.len() ==> n4[k] == n3[k],
        built(n2, b2, i + 1, l, mid),
        built(n3, b3, n2.len() as int, mid, r),
        joins(n4, i, i + 1, n2.len() as int),
    ensures
        built(n4, b3, i, l, r),
{
    let left = i + 1;
    let right = n2.len() as int;
    let len = n4.len() as int;
    lemma_built_elsewhere(n2, n4, b2, b3, left, right, l, mid);
    lemma_whole_elsewhere(n2, n4, left, right, l, mid, left);
    lemma_built_elsewhere(n3, n4, b3, b3, right, len, mid, r);
    lemma_whole_elsewhere(n3, n4, right, len, mid, r, right);
    lemma_join_whole(n4, i, right, l, mid, r);
    lemma_join_boxed(n4, b3, i, right);
    lemma_join_parted(n4, b3, i, right, l, mid, r, axis);
    lemma_join_under(n4, i, left, right, l, mid, r);
}

/// A leaf that stands for primitive `w`.
pub open spec fn leaf_for(nodes: Seq<BVHNode>, w: int) -> int {
    choose|k: int| 0 <= k < nodes.len() && nodes[k].spec_kind() == Child::World(w as u32)
}

/// The boxes of the first `n` primitives, as their leaves hold them.
pub open spec fn primitive_boxes(nodes: Seq<BVHNode>, n: nat) -> Seq<AABB> {
    Seq::new(n, |w: int| nodes[leaf_for(nodes, w)].aabb)
}

/// Whether `nodes` is the finished hierarchy of `n` primitives: as many
/// nodes as a binary tree with `n` leaves has, the root first, all of them
/// whole subtrees over the `n` primitives, split in the middle along an
/// axis, each with the surrounding box of its children.
pub open spec fn finished(nodes: Seq<BVHNode>, n: nat) -> bool {
    &&& n > 0
    &&& nodes.len() == 2 * n - 1
    &&& built(nodes, primitive_boxes(nodes, n), 0, 0, n as int)
}

/// A hierarchy that was built beside the boxes of its primitives holds those
/// boxes in its leaves, and is finished.
pub proof fn lemma_finished(nodes: Seq<BVHNode>, bounds: Seq<AABB>, n: nat)
    requires
        n > 0,
        nodes.len() == 2 * n - 1,
        built(nodes, bounds, 0, 0, n as int),
    ensures
        finished(nodes, n),
        forall|w: int| 0 <= w < n ==> #[trigger] primitive_boxes(nodes, n)[w] == bounds[w],
{
    let boxes = primitive_boxes(nodes, n);
    assert forall|w: int| 0 <= w < n implies #[trigger] boxes[w] == bounds[w] by {
        assert(under(nodes, 0, w));
        let leaf = lemma_under_in_range(nodes, 0, nodes.len() as int, 0, n as int, 0, w);
        let k = leaf_for(nodes, w);
        assert(nodes[k].spec_kind() == Child::World(w as u32));
    }
    lemma_built_elsewhere(nodes, nodes, bounds, boxes, 0, nodes.len() as int, 0, n as int);
}

/// A finished hierarchy is one that the traversal accepts: it is linked, no
/// way down is longer than the traversal's stack, and every primitive is
/// below the root.
pub proof fn lemma_finished_fits(nodes: Seq<BVHNode>, n: nat)
    requires
        finished(nodes, n),
    ensures
        linked(nodes, n),
        height(nodes, 0) <= crate::stack::STACK_CAPACITY,
        forall|w: int| 0 <= w < n ==> #[trigger] under(nodes, 0, w),
{
    lemma_levels_fit(n);
}

/// In a finished hierarchy over boxes that are in order, the box of every
/// node encloses the box of every primitive below it.
pub proof fn lemma_finished_encloses(nodes: Seq<BVHNode>, n: nat, k: int, w: int)
    requires
        finished(nodes, n),
        forall|v: int| 0 <= v < n ==> (#[trigger] primitive_boxes(nodes, n)[v]).wf(),
        0 <= k < nodes.len(),
        under(nodes, k, w),
    ensures
        0 <= w < n,
        nodes[k].aabb.encloses(primitive_boxes(nodes, n)[w]),
{
    lemma_under_in_range(nodes, 0, nodes.len() as int, 0, n as int, k, w);
    lemma_boxes_enclose(
        nodes,
        primitive_boxes(nodes, n),
        0,
        nodes.len() as int,
        0,
        n as int,
        k,
        w,
    );
}

} // verus!
