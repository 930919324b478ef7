use vstd::prelude::*;
use vstd::pervasive::unreached;
use rand::rngs::StdRng;
use rand::Rng;
use crate::aabb::{spec_surrounding_box, surrounding_box, AABB};
use crate::bvh::{height, under, BVHNode, Child};
use crate::hierarchy::{
    axis_key, built, finished, lemma_finished, lemma_join, primitive_boxes, sorted_apart,
    MAX_PRIMITIVES,
};
use crate::rearranged::{lemma_map_rearranged, lemma_rearranged_from, lemma_rearranged_within};
use crate::pod::SpherePod;
use crate::scalar::Scalar;
use crate::vec3::{UVec4, Vec3};

verus! {

/// A node of the hierarchy as it lies in a buffer: twelve words, each corner
/// of the box padded to four.
#[derive(Clone, Copy, Debug)]
pub struct BVHNodePod {
    minimum: [Scalar; 4],
    maximum: [Scalar; 4],
    child: [u32; 4],
}

/// A primitive together with its bounding box.
#[derive(Clone, Copy, Debug)]
pub struct Bounded {
    pub sphere: SpherePod,
    pub bounds: AABB,
}

/// What hangs below a node while the hierarchy is built.
#[derive(Clone, Copy, Debug)]
pub enum BVHChildInner {
    One(usize),
    Two(usize, usize),
    World(usize),
}

/// A node while the hierarchy is built.
#[derive(Clone, Copy, Debug)]
pub struct BVHNodeInner {
    pub aabb: AABB,
    pub child: BVHChildInner,
}

/// `rand::rngs::StdRng`, the generator that picks the axis of each split. It
/// is carried through; nothing is known of its state.
#[verifier::external_type_specification]
#[verifier::external_body]
pub struct ExStdRng(StdRng);

impl View for BVHNodePod {
    type V = BVHNode;

    /// The node that the record holds.
    closed spec fn view(&self) -> BVHNode {
        BVHNode {
            aabb: AABB {
                minimum: Vec3 { x: self.minimum@[0], y: self.minimum@[1], z: self.minimum@[2] },
                maximum: Vec3 { x: self.maximum@[0], y: self.maximum@[1], z: self.maximum@[2] },
            },
            child: UVec4 {
                x: self.child@[0],
                y: self.child@[1],
                z: self.child@[2],
                w: self.child@[3],
            },
        }
    }
}

/// The twelve words of a node in a buffer: each corner of its box and a word
/// of zero, and its four links.
pub open spec fn node_words(n: BVHNode) -> Seq<u32> {
    seq![
        n.aabb.minimum.x.bits,
        n.aabb.minimum.y.bits,
        n.aabb.minimum.z.bits,
        0,
        n.aabb.maximum.x.bits,
        n.aabb.maximum.y.bits,
        n.aabb.maximum.z.bits,
        0,
        n.child.x,
        n.child.y,
        n.child.z,
        n.child.w,
    ]
}

/// The node that twelve words of a buffer hold.
pub open spec fn node_of(words: Seq<u32>) -> BVHNode {
    BVHNode {
        aabb: AABB {
            minimum: Vec3 {
                x: Scalar { bits: words[0] },
                y: Scalar { bits: words[1] },
                z: Scalar { bits: words[2] },
            },
            maximum: Vec3 {
                x: Scalar { bits: words[4] },
                y: Scalar { bits: words[5] },
                z: Scalar { bits: words[6] },
            },
        },
        child: UVec4 { x: words[8], y: words[9], z: words[10], w: words[11] },
    }
}

/// A node comes back from its words as it went in.
pub proof fn lemma_words_keep_the_node(n: BVHNode)
    ensures
        node_of(node_words(n)) == n,
        node_words(n).len() == 12,
{
}

impl BVHNodePod {
    /// Whether the unused words are zero.
    pub closed spec fn padded(&self) -> bool {
        self.minimum@[3].bits == 0 && self.maximum@[3].bits == 0
    }

    /// The record as words, in the order in which they lie in a buffer.
    pub fn words(&self) -> (w: [u32; 12])
        ensures
            node_of(w@) == self@,
            self.padded() ==> w@ == node_words(self@),
    {
        let w = [
            self.minimum[0].bits,
            self.minimum[1].bits,
            self.minimum[2].bits,
            self.minimum[3].bits,
            self.maximum[0].bits,
            self.maximum[1].bits,
            self.maximum[2].bits,
            self.maximum[3].bits,
            self.child[0],
            self.child[1],
            self.child[2],
            self.child[3],
        ];
        assert(self.padded() ==> w@ =~= node_words(self@));
        w
    }

    /// The record that the words of a buffer hold.
    pub fn from_words(w: &[u32; 12]) -> (r: BVHNodePod)
        ensures
            r@ == node_of(w@),
    {
        BVHNodePod {
            minimum: [
                Scalar { bits: w[0] },
                Scalar { bits: w[1] },
                Scalar { bits: w[2] },
                Scalar { bits: w[3] },
            ],
            maximum: [
                Scalar { bits: w[4] },
                Scalar { bits: w[5] },
                Scalar { bits: w[6] },
                Scalar { bits: w[7] },
            ],
            child: [w[8], w[9], w[10], w[11]],
        }
    }

    /// The node as the traversal reads it.
    pub fn node(&self) -> (r: BVHNode)
        ensures
            r == self@,
    {
        BVHNode {
            aabb: AABB {
                minimum: Vec3::new(self.minimum[0], self.minimum[1], self.minimum[2]),
                maximum: Vec3::new(self.maximum[0], self.maximum[1], self.maximum[2]),
            },
            child: UVec4 {
                x: self.child[0],
                y: self.child[1],
                z: self.child[2],
                w: self.child[3],
            },
        }
    }
}

impl Bounded {
    /// The key by which primitives are ordered along an axis: the least
    /// corner of the box on that axis, in the total order of the scalars.
    pub open spec fn spec_sort_key(&self, axis: usize) -> u32 {
        axis_key(self.bounds, axis)
    }

    /// The key of the primitive along an axis.
    #[verifier::when_used_as_spec(spec_sort_key)]
    pub fn sort_key(&self, axis: usize) -> (key: u32)
        requires
            axis < 3,
        ensures
            key == self.spec_sort_key(axis),
    {
        self.bounds.minimum.axis(axis).ordered_key()
    }
}

impl BVHNodeInner {
    /// Whether the links fit the words of a record.
    pub open spec fn fits(self) -> bool {
        match self.child {
            BVHChildInner::One(l) => l <= u32::MAX,
            BVHChildInner::Two(l, r) => l <= u32::MAX && r <= u32::MAX,
            BVHChildInner::World(w) => w <= u32::MAX,
        }
    }

    /// The node as the traversal will read it.
    pub open spec fn node(self) -> BVHNode {
        BVHNode {
            aabb: self.aabb,
            child: match self.child {
                BVHChildInner::One(l) => UVec4 { x: 0, y: l as u32, z: 0, w: 0 },
                BVHChildInner::Two(l, r) => UVec4 { x: 1, y: l as u32, z: r as u32, w: 0 },
                BVHChildInner::World(w) => UVec4 { x: 2, y: 0, z: 0, w: w as u32 },
            },
        }
    }

    /// Lays the node out as a record: tag 0, 1 or 2 in the first word of
    /// the links, and zero in every word that the tag does not use.
    pub fn into(self) -> (r: BVHNodePod)
        requires
            self.fits(),
        ensures
            r@ == self.node(),
            r.padded(),
    {
        let child: [u32; 4] = match self.child {
            BVHChildInner::One(l) => [0, l as u32, 0, 0],
            BVHChildInner::Two(l, r) => [1, l as u32, r as u32, 0],
            BVHChildInner::World(w) => [2, 0, 0, w as u32],
        };
        let zero = Scalar::zero();
        BVHNodePod {
            minimum: [self.aabb.minimum.x, self.aabb.minimum.y, self.aabb.minimum.z, zero],
            maximum: [self.aabb.maximum.x, self.aabb.maximum.y, self.aabb.maximum.z, zero],
            child,
        }
    }
}

/// The nodes under construction as the traversal will read them.
pub open spec fn nodes_of(inner: Seq<BVHNodeInner>) -> Seq<BVHNode> {
    Seq::new(inner.len(), |k: int| inner[k].node())
}

/// The nodes that a buffer of records holds.
pub open spec fn nodes_in(pods: Seq<BVHNodePod>) -> Seq<BVHNode> {
    Seq::new(pods.len(), |k: int| pods[k]@)
}

/// The boxes of the primitives, in their order.
pub open spec fn bounds_of(items: Seq<Bounded>) -> Seq<AABB> {
    Seq::new(items.len(), |k: int| items[k].bounds)
}

/// The step of the builder that joins two finished hierarchies, read on the
/// nodes as the traversal will see them.
proof fn lemma_join_inner(
    o0: Seq<BVHNodeInner>,
    o2: Seq<BVHNodeInner>,
    o3: Seq<BVHNodeInner>,
    o4: Seq<BVHNodeInner>,
    w2: Seq<Bounded>,
    w3: Seq<Bounded>,
    l: int,
    mid: int,
    r: int,
    axis: usize,
)
    requires
        0 <= l < mid < r <= w2.len() <= MAX_PRIMITIVES,
        mid == (l + r) / 2,
        axis < 3,
        sorted_apart(bounds_of(w3), l, mid, r, axis),
        w2.len() == w3.len(),
        forall|k: int| 0 <= k < mid || r <= k < w2.len() ==> w3[k] == w2[k],
        o2.len() == o0.len() + 1 + 2 * (mid - l) - 1,
        o3.len() == o2.len() + 2 * (r - mid) - 1,
        o3.len() <= u32::MAX,
        forall|k: int| 0 <= k < o0.len() ==> o2[k] == o0[k],
        forall|k: int| 0 <= k < o2.len() ==> o3[k] == o2[k],
        forall|k: int| 0 <= k < o3.len() ==> (#[trigger] o3[k]).fits(),
        built(nodes_of(o2), bounds_of(w2), o0.len() as int + 1, l, mid),
        built(nodes_of(o3), bounds_of(w3), o2.len() as int, mid, r),
        o4 == o3.update(
            o0.len() as int,
            BVHNodeInner {
                aabb: spec_surrounding_box(o3[o0.len() as int + 1].aabb, o3[o2.len() as int].aabb),
                child: BVHChildInner::Two((o0.len() + 1) as usize, o2.len() as usize),
            },
        ),
    ensures
        o4.subrange(0, o0.len() as int) == o0,
        forall|k: int| 0 <= k < o4.len() ==> (#[trigger] o4[k]).fits(),
        built(nodes_of(o4), bounds_of(w3), o0.len() as int, l, r),
{
    let i = o0.len() as int;
    assert(o4.subrange(0, i) =~= o0);
    let n4 = nodes_of(o4);
    assert(n4[i].spec_kind() == Child::Two((i + 1) as u32, o2.len() as u32));
    assert(n4[i + 1] == nodes_of(o3)[i + 1]);
    assert(n4[o2.len() as int] == nodes_of(o3)[o2.len() as int]);
    lemma_join(
        nodes_of(o2),
        nodes_of(o3),
        n4,
        bounds_of(w2),
        bounds_of(w3),
        i,
        l,
        mid,
        r,
        axis,
    );
}

/// Two halves of a sorted range stay sorted apart when each is rearranged in
/// itself.
proof fn lemma_sorted_apart(
    w1: Seq<Bounded>,
    w2: Seq<Bounded>,
    w3: Seq<Bounded>,
    l: int,
    mid: int,
    r: int,
    axis: usize,
)
    requires
        0 <= l <= mid <= r <= w1.len(),
        w1.len() == w2.len() == w3.len(),
        forall|a: int, b: int|
            l <= a <= b < r ==> w1[a].spec_sort_key(axis) <= w1[b].spec_sort_key(axis),
        forall|k: int| 0 <= k < l || mid <= k < w1.len() ==> w2[k] == w1[k],
        w2.subrange(l, mid).to_multiset() == w1.subrange(l, mid).to_multiset(),
        forall|k: int| 0 <= k < mid || r <= k < w1.len() ==> w3[k] == w2[k],
        w3.subrange(mid, r).to_multiset() == w2.subrange(mid, r).to_multiset(),
    ensures
        sorted_apart(bounds_of(w3), l, mid, r, axis),
{
    let b3 = bounds_of(w3);
    assert forall|p: int, q: int| l <= p < mid && mid <= q < r implies axis_key(
        #[trigger] b3[p],
        axis,
    ) <= axis_key(#[trigger] b3[q], axis) by {
        let j = lemma_rearranged_from(w1.subrange(l, mid), w2.subrange(l, mid), p - l);
        assert(w2.subrange(l, mid)[p - l] == w2[p]);
        assert(w1.subrange(l, mid)[j] == w1[l + j]);
        let k = lemma_rearranged_from(w2.subrange(mid, r), w3.subrange(mid, r), q - mid);
        assert(w3.subrange(mid, r)[q - mid] == w3[q]);
        assert(w2.subrange(mid, r)[k] == w2[mid + k]);
        assert(w3[p] == w1[l + j]);
        assert(w3[q] == w1[mid + k]);
        assert(w1[l + j].spec_sort_key(axis) <= w1[mid + k].spec_sort_key(axis));
    }
}

/// Draws the axis of a split with `Rng::gen_range` on `0..=2`. The draw is
/// uniform; all that is claimed of it is that the axis is 0, 1 or 2.
#[verifier::external_body]
fn random_axis(rng: &mut StdRng) -> (axis: usize)
    ensures
        axis <= 2,
{
    rng.gen_range(0..=2)
}

/// Whether `after` holds in its places from `l` up to `r` what `before` held
/// there, in the order of the keys along `axis`, equal keys in the order in
/// which they stood: the element at place `l + i` came from place `from[i]`.
pub open spec fn stably_sorted(
    before: Seq<Bounded>,
    after: Seq<Bounded>,
    l: int,
    r: int,
    axis: usize,
    from: Seq<int>,
) -> bool {
    &&& from.len() == r - l
    &&& forall|i: int|
        0 <= i < r - l ==> l <= #[trigger] from[i] < r && after[l + i] == before[from[i]]
    &&& forall|i: int, j: int|
        0 <= i < j < r - l ==> {
            let a = before[#[trigger] from[i]].spec_sort_key(axis);
            let b = before[#[trigger] from[j]].spec_sort_key(axis);
            a < b || (a == b && from[i] < from[j])
        }
}

/// Sorts the primitives from `l` up to `r` with the slice's `sort_by_key`,
/// by `sort_key` on the given axis: the range is rearranged so that the keys
/// do not decrease, equal keys stay in their order, and nothing outside
/// the range moves.
#[verifier::external_body]
fn sort_by_axis(world: &mut Vec<Bounded>, l: usize, r: usize, axis: usize)
    requires
        l <= r <= old(world)@.len(),
        axis < 3,
    ensures
        final(world)@.len() == old(world)@.len(),
        forall|k: int|
            0 <= k < l || r <= k < old(world)@.len() ==> final(world)@[k] == old(world)@[k],
        final(world)@.subrange(l as int, r as int).to_multiset() == old(world)@.subrange(
            l as int,
            r as int,
        ).to_multiset(),
        forall|a: int, b: int|
            l <= a <= b < r ==> final(world)@[a].spec_sort_key(axis) <= final(world)@[b].spec_sort_key(
                axis,
            ),
        exists|from: Seq<int>|
            stably_sorted(old(world)@, final(world)@, l as int, r as int, axis, from),
{
    world[l..r].sort_by_key(|w| w.sort_key(axis));
}

/// Builds the hierarchy over the primitives from `l` up to `r` at the end of
/// `out` and returns the index of its root; over an empty range it returns
/// none and changes nothing.
///
/// One primitive becomes a leaf. More are sorted along an axis drawn at
/// random and split in the middle; the node is put down before its
/// subtrees, the left one first, and gets the surrounding box of theirs.
#[verifier::rlimit(40)]
fn create_bvh_inner(
    world: &mut Vec<Bounded>,
    l: usize,
    r: usize,
    out: &mut Vec<BVHNodeInner>,
    rng: &mut StdRng,
) -> (root: Option<usize>)
    requires
        l < r ==> r <= old(world)@.len() <= MAX_PRIMITIVES && old(out)@.len() + 2 * (r - l) - 1
            <= u32::MAX,
        forall|k: int| 0 <= k < old(out)@.len() ==> (#[trigger] old(out)@[k]).fits(),
    ensures
        root.is_some() == (l < r),
        !(l < r) ==> final(out)@ == old(out)@ && final(world)@ == old(world)@ && *final(rng)
            == *old(rng),
        l < r ==> root == Some(old(out)@.len() as usize) && final(out)@.len() == old(out)@.len()
            + 2 * (r - l) - 1 && final(out)@.subrange(0, old(out)@.len() as int) == old(out)@,
        forall|k: int| 0 <= k < final(out)@.len() ==> (#[trigger] final(out)@[k]).fits(),
        final(world)@.len() == old(world)@.len(),
        l < r ==> forall|k: int|
            0 <= k < l || r <= k < old(world)@.len() ==> final(world)@[k] == old(world)@[k],
        l < r ==> final(world)@.subrange(l as int, r as int).to_multiset() == old(world)@.subrange(
            l as int,
            r as int,
        ).to_multiset(),
        l < r ==> built(
            nodes_of(final(out)@),
            bounds_of(final(world)@),
            old(out)@.len() as int,
            l as int,
            r as int,
        ),
    decreases r - l,
{
    if !(l < r) {
        return None;
    }
    if r - l == 1 {
        let i = out.len();
        out.push(BVHNodeInner { aabb: world[l].bounds, child: BVHChildInner::World(l) });
        proof {
            assert(out@.subrange(0, i as int) =~= old(out)@);
            let nodes = nodes_of(out@);
            assert(nodes[i as int].spec_kind() == Child::World(l as u32));
            assert(under(nodes, i as int, l as int));
            assert(height(nodes, i as int) == 1);
        }
        return Some(i);
    }
    let axis = random_axis(rng);
    sort_by_axis(world, l, r, axis);
    let ghost w1 = world@;

    let dummy_child = BVHNodeInner {
        aabb: AABB { minimum: Vec3::default(), maximum: Vec3::default() },
        child: BVHChildInner::One(0),
    };
    let i = out.len();
    out.push(dummy_child);
    let ghost o1 = out@;

    let mid = (l + r) / 2;

    let left = create_bvh_inner(world, l, mid, out, rng);
    let ghost w2 = world@;
    let ghost o2 = out@;
    let right = create_bvh_inner(world, mid, r, out, rng);
    let ghost w3 = world@;
    let ghost o3 = out@;

    match (left, right) {
        (Some(left), Some(right)) => {
            let node = BVHNodeInner {
                aabb: surrounding_box(out[left].aabb, out[right].aabb),
                child: BVHChildInner::Two(left, right),
            };
            out.set(i, node);
        },
        (Some(left), None) => {
            let node = BVHNodeInner { aabb: out[left].aabb, child: BVHChildInner::One(left) };
            out.set(i, node);
        },
        _ => {
            unreached::<()>();
        },
    }

    proof {
        assert(o2.subrange(0, i as int + 1) == o1);
        assert(o3.subrange(0, o2.len() as int) == o2);
        assert(forall|k: int| 0 <= k < o2.len() ==> o3[k] == o3.subrange(0, o2.len() as int)[k]);
        assert(forall|k: int| 0 <= k <= i ==> o2[k] == o2.subrange(0, i as int + 1)[k]);
        lemma_rearranged_within(w1, w2, l as int, l as int, mid as int, r as int);
        lemma_rearranged_within(w2, w3, l as int, mid as int, r as int, r as int);
        lemma_sorted_apart(w1, w2, w3, l as int, mid as int, r as int, axis);
        lemma_join_inner(old(out)@, o2, o3, out@, w2, w3, l as int, mid as int, r as int, axis);
    }
    Some(i)
}

/// The primitives of the pairs, in their order.
pub open spec fn spheres_of(items: Seq<Bounded>) -> Seq<SpherePod> {
    Seq::new(items.len(), |k: int| items[k].sphere)
}

/// Whether the nodes are the hierarchy of `world`: finished, every node
/// with its links written as the builder writes them, and every leaf with a
/// box that `bounding_box` gave for its primitive.
pub open spec fn grown<K: Fn(&SpherePod, Scalar, Scalar) -> AABB>(
    nodes: Seq<BVHNode>,
    world: Seq<SpherePod>,
    time0: Scalar,
    time1: Scalar,
    bounding_box: K,
) -> bool {
    &&& finished(nodes, world.len())
    &&& forall|k: int| 0 <= k < nodes.len() ==> (#[trigger] nodes[k]).canonical()
    &&& forall|w: int|
        0 <= w < world.len() ==> call_ensures(
            bounding_box,
            (&world[w], time0, time1),
            #[trigger] primitive_boxes(nodes, world.len())[w],
        )
}

/// What the builder leaves is the hierarchy of the rearranged world.
proof fn lemma_grown<K: Fn(&SpherePod, Scalar, Scalar) -> AABB>(
    nodes: Seq<BVHNode>,
    items0: Seq<Bounded>,
    items1: Seq<Bounded>,
    time0: Scalar,
    time1: Scalar,
    bounding_box: K,
)
    requires
        items1.len() > 0,
        items0.to_multiset() == items1.to_multiset(),
        nodes.len() == 2 * items1.len() - 1,
        forall|k: int| 0 <= k < nodes.len() ==> (#[trigger] nodes[k]).canonical(),
        built(nodes, bounds_of(items1), 0, 0, items1.len() as int),
        forall|j: int|
            0 <= j < items0.len() ==> call_ensures(
                bounding_box,
                (&(#[trigger] items0[j]).sphere, time0, time1),
                items0[j].bounds,
            ),
    ensures
        grown(nodes, spheres_of(items1), time0, time1, bounding_box),
{
    let n = items1.len();
    let world = spheres_of(items1);
    lemma_finished(nodes, bounds_of(items1), n);
    assert forall|w: int| 0 <= w < n implies call_ensures(
        bounding_box,
        (&world[w], time0, time1),
        #[trigger] primitive_boxes(nodes, n)[w],
    ) by {
        let from = lemma_rearranged_from(items0, items1, w);
        assert(items1[w] == items0[from]);
        assert(primitive_boxes(nodes, n)[w] == bounds_of(items1)[w]);
    }
}

/// Puts each primitive beside the box that `bounding_box` computes for it.
fn with_bounds<K: Fn(&SpherePod, Scalar, Scalar) -> AABB>(
    world: &Vec<SpherePod>,
    time0: Scalar,
    time1: Scalar,
    bounding_box: &K,
) -> (items: Vec<Bounded>)
    requires
        forall|k: int|
            0 <= k < world@.len() ==> call_requires(
                *bounding_box,
                (&#[trigger] world@[k], time0, time1),
            ),
    ensures
        spheres_of(items@) == world@,
        items@.len() == world@.len(),
        forall|j: int|
            0 <= j < items@.len() ==> call_ensures(
                *bounding_box,
                (&(#[trigger] items@[j]).sphere, time0, time1),
                items@[j].bounds,
            ),
{
    let n = world.len();
    let mut items: Vec<Bounded> = Vec::new();
    let mut k: usize = 0;
    while k < n
        invariant
            k <= n,
            n == world@.len(),
            items@.len() == k,
            forall|j: int|
                0 <= j < n ==> call_requires(*bounding_box, (&#[trigger] world@[j], time0, time1)),
            forall|j: int|
                0 <= j < k ==> (#[trigger] items@[j]).sphere == world@[j] && call_ensures(
                    *bounding_box,
                    (&items@[j].sphere, time0, time1),
                    items@[j].bounds,
                ),
        decreases n - k,
    {
        let sphere = world[k];
        let bounds = bounding_box(&sphere, time0, time1);
        items.push(Bounded { sphere, bounds });
        k += 1;
    }
    proof {
        assert(spheres_of(items@) =~= world@);
    }
    items
}

/// Puts the primitives back in the order in which the builder left them.
fn take_order(world: &mut Vec<SpherePod>, items: &Vec<Bounded>)
    requires
        old(world)@.len() == items@.len(),
    ensures
        final(world)@ == spheres_of(items@),
{
    let n = items.len();
    let mut k: usize = 0;
    while k < n
        invariant
            k <= n,
            n == world@.len(),
            n == items@.len(),
            forall|j: int| 0 <= j < k ==> world@[j] == items@[j].sphere,
        decreases n - k,
    {
        world.set(k, items[k].sphere);
        k += 1;
    }
    proof {
        assert(world@ =~= spheres_of(items@));
    }
}

/// Lays the nodes out as records.
fn lay_out(inner: &Vec<BVHNodeInner>) -> (nodes: Vec<BVHNodePod>)
    requires
        forall|j: int| 0 <= j < inner@.len() ==> (#[trigger] inner@[j]).fits(),
    ensures
        nodes_in(nodes@) == nodes_of(inner@),
        forall|k: int|
            0 <= k < nodes@.len() ==> (#[trigger] nodes@[k]).padded() && nodes@[k]@.canonical(),
{
    let mut nodes: Vec<BVHNodePod> = Vec::new();
    let m = inner.len();
    let mut k: usize = 0;
    while k < m
        invariant
            k <= m,
            m == inner@.len(),
            nodes@.len() == k,
            forall|j: int| 0 <= j < m ==> (#[trigger] inner@[j]).fits(),
            forall|j: int|
                0 <= j < k ==> (#[trigger] nodes@[j])@ == inner@[j].node() && nodes@[j].padded(),
        decreases m - k,
    {
        nodes.push(inner[k].into());
        k += 1;
    }
    proof {
        assert(nodes_in(nodes@) =~= nodes_of(inner@));
    }
    nodes
}

/// What the builder leaves of the primitives is what it was given, in
/// another order, and in the same order where there is at most one.
proof fn lemma_same_spheres(items0: Seq<Bounded>, items1: Seq<Bounded>)
    requires
        items0.len() == items1.len(),
        items0.to_multiset() == items1.to_multiset(),
    ensures
        spheres_of(items1).to_multiset() == spheres_of(items0).to_multiset(),
        items0.len() <= 1 ==> spheres_of(items1) == spheres_of(items0),
{
    assert(spheres_of(items0) =~= items0.map_values(|b: Bounded| b.sphere));
    assert(spheres_of(items1) =~= items1.map_values(|b: Bounded| b.sphere));
    lemma_map_rearranged(items1, items0, |b: Bounded| b.sphere);
    if items0.len() == 1 {
        let from = lemma_rearranged_from(items0, items1, 0);
        assert(items1 =~= items0);
    } else if items0.len() == 0 {
        assert(items1 =~= items0);
    }
}

/// Builds the hierarchy over `world` and returns its nodes, the root first;
/// an empty world has none. The primitives are rearranged, and the leaves
/// speak of them by their new places.
///
/// `bounding_box` computes the box of a primitive; `rng` picks the axis of
/// each split.
pub fn create_bvh<K: Fn(&SpherePod, Scalar, Scalar) -> AABB>(
    world: &mut Vec<SpherePod>,
    time0: Scalar,
    time1: Scalar,
    rng: &mut StdRng,
    bounding_box: &K,
) -> (nodes: Vec<BVHNodePod>)
    requires
        old(world)@.len() <= MAX_PRIMITIVES,
        forall|k: int|
            0 <= k < old(world)@.len() ==> call_requires(
                *bounding_box,
                (&#[trigger] old(world)@[k], time0, time1),
            ),
    ensures
        final(world)@.to_multiset() == old(world)@.to_multiset(),
        final(world)@.len() == old(world)@.len(),
        old(world)@.len() == 0 ==> nodes@.len() == 0,
        old(world)@.len() <= 1 ==> final(world)@ == old(world)@,
        forall|k: int| 0 <= k < nodes@.len() ==> (#[trigger] nodes@[k]).padded(),
        old(world)@.len() > 0 ==> grown(
            nodes_in(nodes@),
            final(world)@,
            time0,
            time1,
            *bounding_box,
        ),
{
    let n = world.len();
    let mut items = with_bounds(world, time0, time1, bounding_box);
    let ghost items0 = items@;

    let mut ret: Vec<BVHNodeInner> = Vec::new();
    create_bvh_inner(&mut items, 0, n, &mut ret, rng);
    proof {
        assert(items0.subrange(0, n as int) =~= items0);
        assert(items@.subrange(0, n as int) =~= items@);
        lemma_same_spheres(items0, items@);
    }
    take_order(world, &items);
    let nodes = lay_out(&ret);
    proof {
        if n > 0 {
            lemma_grown(nodes_in(nodes@), items0, items@, time0, time1, *bounding_box);
        }
    }
    nodes
}

} // verus!
