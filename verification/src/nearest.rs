use vstd::prelude::*;
use crate::aabb::AABB;
use crate::bvh::{linked, under, Cast, Child, Found};
use crate::hierarchy::{finished, lemma_finished_encloses, lemma_finished_fits, primitive_boxes};
use crate::hittable::HitRecord;
use crate::scalar::Scalar;
use crate::sphere::{Crossing, Touch};

verus! {

/// The root at which a ray that starts at `t_min` and is stopped by nothing
/// else hits: none where the discriminant is negative, else the near root
/// unless it is before `t_min`, else the far root unless it is before
/// `t_min` too.
pub open spec fn contender(c: Crossing, t_min: Scalar) -> Option<Touch> {
    if c.discriminant.spec_lt(Scalar { bits: 0 }) {
        None
    } else if !c.near.t.spec_lt(t_min) {
        Some(c.near)
    } else if !c.far.t.spec_lt(t_min) {
        Some(c.far)
    } else {
        None
    }
}

/// Whether the two roots are numbers, the near one at or before the far one.
/// Nothing is asked where the discriminant is negative.
pub open spec fn ordered(c: Crossing) -> bool {
    c.discriminant.spec_lt(Scalar { bits: 0 }) || c.near.t.spec_le(c.far.t)
}

impl Cast {
    /// The brute-force search: the first `n` primitives tested one after
    /// another, each against the window that the ones before it left.
    pub open spec fn scan(self, n: int, st: Found) -> Found
        decreases n,
    {
        if n <= 0 {
            st
        } else {
            self.test(n - 1, self.scan(n - 1, st))
        }
    }

    /// Where the ray would hit primitive `w` if nothing else stopped it.
    pub open spec fn reach(self, w: int) -> Option<Touch> {
        contender(self.crossings[w], self.t_min)
    }

    /// Whether the ray reaches primitive `w` at or before `t`.
    pub open spec fn reaches_by(self, w: int, t: Scalar) -> bool {
        self.reach(w) matches Some(touch) && touch.t.spec_le(t)
    }

    /// Whether the ray reaches primitive `w` before `t`.
    pub open spec fn reaches_before(self, w: int, t: Scalar) -> bool {
        self.reach(w) matches Some(touch) && touch.t.spec_lt(t)
    }

    /// Whether `t_min` is a number and the roots of every primitive are in order.
    pub open spec fn numeric(self) -> bool {
        &&& !self.t_min.nan()
        &&& forall|w: int| 0 <= w < self.crossings.len() ==> ordered(#[trigger] self.crossings[w])
    }

    /// Whether the boxes do their work for this ray: wherever the ray
    /// reaches a primitive before the end of a window, it crosses the box of
    /// every node above that primitive within the window.
    ///
    /// Nothing is asked of a window that ends where the primitive is
    /// reached: the slab test takes a window that only touches a box for a
    /// miss.
    pub open spec fn enclosing(self) -> bool {
        forall|i: int, w: int, t: Scalar|
            #![trigger under(self.nodes, i, w), self.slabs[i].crosses(self.t_min, t)]
            0 <= i < self.nodes.len() && under(self.nodes, i, w) && !t.nan()
                && self.reaches_before(w, t) ==> self.slabs[i].crosses(self.t_min, t)
    }

    /// Whether the arithmetic agrees with the boxes of the primitives:
    /// wherever the ray reaches a primitive before the end of a window, it
    /// crosses every node's box that encloses the box of that primitive
    /// within the window.
    pub open spec fn faithful(self, boxes: Seq<AABB>) -> bool {
        forall|i: int, w: int, t: Scalar|
            #![trigger self.nodes[i].aabb.encloses(boxes[w]), self.slabs[i].crosses(self.t_min, t)]
            0 <= i < self.nodes.len() && 0 <= w < boxes.len() && self.nodes[i].aabb.encloses(
                boxes[w],
            ) && !t.nan() && self.reaches_before(w, t) ==> self.slabs[i].crosses(self.t_min, t)
    }

    /// Whether every primitive is below the root.
    pub open spec fn covering(self) -> bool {
        forall|w: int| 0 <= w < self.world.len() ==> under(self.nodes, 0, w)
    }

    /// Whether at most one primitive is reached at the parameter `t`.
    pub open spec fn alone_at(self, t: Scalar) -> bool {
        forall|v: int, w: int|
            0 <= v < self.world.len() && 0 <= w < self.world.len() && v != w ==> match (
                #[trigger] self.reach(v),
                #[trigger] self.reach(w),
            ) {
                (Some(a), Some(b)) => a.t.rank() != t.rank() || b.t.rank() != t.rank(),
                _ => true,
            }
    }

    /// Whether no primitive is reached exactly at `t`. This is so for a
    /// window without end, whose `t_max` is infinite, where every root is
    /// finite.
    pub open spec fn clear_at(self, t: Scalar) -> bool {
        forall|w: int|
            0 <= w < self.world.len() ==> match #[trigger] self.reach(w) {
                Some(touch) => touch.t.rank() != t.rank(),
                None => true,
            }
    }

    /// Whether `out` is the hit at primitive `w`.
    pub open spec fn won_by(self, w: int, out: Found) -> bool {
        &&& out.hit
        &&& self.reach(w) matches Some(touch) && touch.t == out.t_max && out.record
            == self.world[w].record(touch)
    }

    /// Whether `out` can be the end of a search among the primitives
    /// `among`, begun with `st`: the window ends no later than before, none
    /// of the primitives is reached before its end, and either nothing
    /// changed or `out` is the hit at one of them.
    pub open spec fn pruned(self, among: spec_fn(int) -> bool, st: Found, out: Found) -> bool {
        &&& !out.t_max.nan()
        &&& out.t_max.spec_le(st.t_max)
        &&& forall|w: int| #[trigger] among(w) ==> !self.reaches_before(w, out.t_max)
        &&& {
            ||| out == st
            ||| exists|w: int| #[trigger] among(w) && self.won_by(w, out)
        }
    }

    /// Whether `out` is the end of a search that tested each of the
    /// primitives `among`, begun with `st`: as `pruned`, and where it ends
    /// with nothing found, none of them is reached within the window.
    pub open spec fn settled(self, among: spec_fn(int) -> bool, st: Found, out: Found) -> bool {
        &&& self.pruned(among, st, out)
        &&& out.hit || forall|w: int| #[trigger] among(w) ==> !self.reaches_by(w, st.t_max)
    }
}

/// A hit at the very parameter on record leaves the record as it is: only a
/// strictly closer hit takes its place.
pub proof fn lemma_record_needs_closer(cast: Cast, w: int, st: Found)
    requires
        st.hit,
    ensures
        match cast.crossings[w].spec_nearest(cast.t_min, st.t_max) {
            Some(touch) => !touch.t.spec_lt(st.t_max) ==> cast.test(w, st) == st,
            None => cast.test(w, st) == st,
        },
        cast.test(w, st).hit,
{
}

/// With roots in order, the hit within a window is the contender, if the
/// window reaches that far.
pub proof fn lemma_nearest_is_contender(c: Crossing, t_min: Scalar, t_max: Scalar)
    requires
        ordered(c),
        !t_min.nan(),
        !t_max.nan(),
    ensures
        c.spec_nearest(t_min, t_max) == match contender(c, t_min) {
            Some(touch) => if touch.t.spec_le(t_max) {
                Some(touch)
            } else {
                None
            },
            None => None::<Touch>,
        },
{
}

/// Testing one primitive settles the search among that primitive.
pub proof fn lemma_test_settles(cast: Cast, w: int, st: Found)
    requires
        cast.numeric(),
        0 <= w < cast.crossings.len(),
        !st.t_max.nan(),
    ensures
        cast.settled(|v: int| v == w, st, cast.test(w, st)),
{
    let among = |v: int| v == w;
    let out = cast.test(w, st);
    lemma_nearest_is_contender(cast.crossings[w], cast.t_min, st.t_max);
    if out != st {
        assert(among(w) && cast.won_by(w, out));
    }
}

/// A search among primitives of which none is reached before the end of the
/// window can stop where it stands.
pub proof fn lemma_idle_prunes(cast: Cast, among: spec_fn(int) -> bool, st: Found)
    requires
        !st.t_max.nan(),
        forall|w: int| #[trigger] among(w) ==> !cast.reaches_before(w, st.t_max),
    ensures
        cast.pruned(among, st, st),
{
}

/// Two searches one after the other make a search among the primitives of
/// both.
pub proof fn lemma_pruned_twice(
    cast: Cast,
    first: spec_fn(int) -> bool,
    second: spec_fn(int) -> bool,
    both: spec_fn(int) -> bool,
    st: Found,
    mid: Found,
    out: Found,
)
    requires
        cast.pruned(first, st, mid),
        cast.pruned(second, mid, out),
        forall|w: int| #[trigger] both(w) <==> first(w) || second(w),
    ensures
        cast.pruned(both, st, out),
{
    assert forall|w: int| #[trigger] both(w) implies !cast.reaches_before(w, out.t_max) by {
        if first(w) {
            assert(!cast.reaches_before(w, mid.t_max));
        } else {
            assert(second(w));
        }
    }
    if out == mid {
        if mid != st {
            let w = choose|w: int| #[trigger] first(w) && cast.won_by(w, mid);
            assert(both(w) && cast.won_by(w, out));
        }
    } else {
        let w = choose|w: int| #[trigger] second(w) && cast.won_by(w, out);
        assert(both(w) && cast.won_by(w, out));
    }
}

/// Two searches one after the other, each of which tested all of its
/// primitives, settle the search among the primitives of both.
pub proof fn lemma_settled_twice(
    cast: Cast,
    first: spec_fn(int) -> bool,
    second: spec_fn(int) -> bool,
    both: spec_fn(int) -> bool,
    st: Found,
    mid: Found,
    out: Found,
)
    requires
        cast.settled(first, st, mid),
        cast.settled(second, mid, out),
        forall|w: int| #[trigger] both(w) <==> first(w) || second(w),
    ensures
        cast.settled(both, st, out),
{
    lemma_pruned_twice(cast, first, second, both, st, mid, out);
    if !out.hit {
        if out != mid {
            let w = choose|w: int| #[trigger] second(w) && cast.won_by(w, out);
        }
        if mid != st {
            let w = choose|w: int| #[trigger] first(w) && cast.won_by(w, mid);
        }
        assert forall|w: int| #[trigger] both(w) implies !cast.reaches_by(w, st.t_max) by {
            if first(w) {
            } else {
                assert(second(w));
            }
        }
    }
}

/// Whatever the boxes do, the traversal of a node ends the window no later
/// than it began, and changes nothing or ends with the hit at a primitive
/// below the node.
pub proof fn lemma_visit_is_sound(cast: Cast, i: int, st: Found)
    requires
        cast.wf(),
        cast.numeric(),
        0 <= i < cast.nodes.len(),
        !st.t_max.nan(),
    ensures
        !cast.visit(i, st).t_max.nan(),
        cast.visit(i, st).t_max.spec_le(st.t_max),
        cast.visit(i, st) == st || exists|w: int|
            under(cast.nodes, i, w) && #[trigger] cast.won_by(w, cast.visit(i, st)),
    decreases cast.nodes.len() - i,
{
    let nodes = cast.nodes;
    if cast.slabs[i].crosses(cast.t_min, st.t_max) {
        match nodes[i].spec_kind() {
            Child::One(y) => {
                lemma_visit_is_sound(cast, y as int, st);
                let out = cast.visit(y as int, st);
                if out != st {
                    let w = choose|w: int|
                        under(nodes, y as int, w) && #[trigger] cast.won_by(w, out);
                    assert(under(nodes, i, w) && cast.won_by(w, cast.visit(i, st)));
                }
            },
            Child::Two(y, z) => {
                let mid = cast.visit(z as int, st);
                lemma_visit_is_sound(cast, z as int, st);
                lemma_visit_is_sound(cast, y as int, mid);
                let out = cast.visit(y as int, mid);
                if out != mid {
                    let w = choose|w: int|
                        under(nodes, y as int, w) && #[trigger] cast.won_by(w, out);
                    assert(under(nodes, i, w) && cast.won_by(w, cast.visit(i, st)));
                } else if mid != st {
                    let w = choose|w: int|
                        under(nodes, z as int, w) && #[trigger] cast.won_by(w, mid);
                    assert(under(nodes, i, w) && cast.won_by(w, cast.visit(i, st)));
                }
            },
            Child::World(v) => {
                let out = cast.test(v as int, st);
                lemma_nearest_is_contender(cast.crossings[v as int], cast.t_min, st.t_max);
                if out != st {
                    assert(under(nodes, i, v as int) && cast.won_by(v as int, out));
                }
            },
        }
    }
}

/// A hit that the traversal reports is the hit at a primitive of the world,
/// within the window; where it reports none, it leaves the record as it
/// was. This asks nothing of the boxes.
pub proof fn lemma_hit_is_of_a_primitive(cast: Cast, t_max: Scalar, record: HitRecord)
    requires
        cast.wf(),
        cast.numeric(),
        !t_max.nan(),
    ensures
        ({
            let found = cast.traverse(t_max, record);
            &&& found.hit ==> exists|w: int|
                0 <= w < cast.world.len() && #[trigger] cast.won_by(w, found) && cast.reaches_by(
                    w,
                    t_max,
                )
            &&& found.hit ==> found.record.t == found.t_max && !found.record.t.spec_lt(cast.t_min)
                && found.record.t.spec_le(t_max)
            &&& !found.hit ==> found.record == record && found.t_max == t_max
        }),
{
    let st = Found { hit: false, t_max, record };
    let found = cast.traverse(t_max, record);
    lemma_visit_is_sound(cast, 0, st);
    if found != st {
        let w = choose|w: int| under(cast.nodes, 0, w) && #[trigger] cast.won_by(w, found);
        lemma_under_is_primitive(cast, 0, w);
        assert(cast.reaches_by(w, t_max));
    }
}

/// The traversal of a node is a search among the primitives below it.
pub proof fn lemma_visit_prunes(cast: Cast, i: int, st: Found)
    requires
        cast.wf(),
        cast.numeric(),
        cast.enclosing(),
        0 <= i < cast.nodes.len(),
        !st.t_max.nan(),
    ensures
        cast.pruned(|w: int| under(cast.nodes, i, w), st, cast.visit(i, st)),
    decreases cast.nodes.len() - i,
{
    let nodes = cast.nodes;
    let among = |w: int| under(nodes, i, w);
    if !cast.slabs[i].crosses(cast.t_min, st.t_max) {
        assert forall|w: int| #[trigger] among(w) implies !cast.reaches_before(w, st.t_max) by {
            if cast.reaches_before(w, st.t_max) {
                assert(under(nodes, i, w));
                assert(cast.slabs[i].crosses(cast.t_min, st.t_max));
            }
        }
        lemma_idle_prunes(cast, among, st);
    } else {
        match nodes[i].spec_kind() {
            Child::One(y) => {
                lemma_visit_prunes(cast, y as int, st);
                let below = |w: int| under(nodes, y as int, w);
                let out = cast.visit(y as int, st);
                lemma_idle_prunes(cast, |w: int| false, out);
                lemma_pruned_twice(cast, below, |w: int| false, among, st, out, out);
            },
            Child::Two(y, z) => {
                let mid = cast.visit(z as int, st);
                lemma_visit_prunes(cast, z as int, st);
                lemma_visit_prunes(cast, y as int, mid);
                lemma_pruned_twice(
                    cast,
                    |w: int| under(nodes, z as int, w),
                    |w: int| under(nodes, y as int, w),
                    among,
                    st,
                    mid,
                    cast.visit(y as int, mid),
                );
            },
            Child::World(v) => {
                lemma_test_settles(cast, v as int, st);
                let out = cast.test(v as int, st);
                lemma_idle_prunes(cast, |w: int| false, out);
                lemma_pruned_twice(cast, |w: int| w == v as int, |w: int| false, among, st, out, out);
            },
        }
    }
}

/// The brute-force search settles the search among the primitives it tests.
pub proof fn lemma_scan_settles(cast: Cast, n: int, st: Found)
    requires
        cast.numeric(),
        0 <= n <= cast.crossings.len(),
        !st.t_max.nan(),
    ensures
        cast.settled(|w: int| 0 <= w < n, st, cast.scan(n, st)),
    decreases n,
{
    if n <= 0 {
    } else {
        lemma_scan_settles(cast, n - 1, st);
        let mid = cast.scan(n - 1, st);
        lemma_test_settles(cast, n - 1, mid);
        lemma_settled_twice(
            cast,
            |w: int| 0 <= w < n - 1,
            |w: int| w == n - 1,
            |w: int| 0 <= w < n,
            st,
            mid,
            cast.test(n - 1, mid),
        );
    }
}

/// A search that may have passed over primitives reached exactly at the end
/// of its window, and one that tested them all, begun alike with nothing
/// found, end at the same parameter. Where the first hits, so does the
/// second; where only the second hits, it hits exactly at the end of the
/// window they began with. Where both miss, or both hit and only one
/// primitive is reached at that parameter, they end alike.
pub proof fn lemma_searches_alike(
    cast: Cast,
    among: spec_fn(int) -> bool,
    other: spec_fn(int) -> bool,
    st: Found,
    a: Found,
    b: Found,
)
    requires
        !st.hit,
        !st.t_max.nan(),
        cast.pruned(among, st, a),
        cast.settled(other, st, b),
        forall|w: int| #[trigger] among(w) <==> 0 <= w < cast.world.len(),
        forall|w: int| #[trigger] other(w) <==> 0 <= w < cast.world.len(),
    ensures
        a.t_max.rank() == b.t_max.rank(),
        a.hit ==> b.hit,
        b.hit && !a.hit ==> b.t_max.rank() == st.t_max.rank(),
        cast.clear_at(st.t_max) ==> a.hit == b.hit,
        !b.hit ==> a == b,
        a.hit && cast.alone_at(a.t_max) ==> a == b,
{
    if a.hit {
        let v = choose|w: int| #[trigger] among(w) && cast.won_by(w, a);
        assert(other(v));
        assert(cast.reaches_by(v, st.t_max));
        assert(b.hit);
        let w = choose|w: int| #[trigger] other(w) && cast.won_by(w, b);
        assert(among(w));
        assert(!cast.reaches_before(v, b.t_max));
        assert(!cast.reaches_before(w, a.t_max));
        if cast.alone_at(a.t_max) {
            if v != w {
                assert(cast.reach(v).is_some() && cast.reach(w).is_some());
            }
        }
    } else if b.hit {
        assert(a == st);
        let w = choose|w: int| #[trigger] other(w) && cast.won_by(w, b);
        assert(among(w));
        assert(!cast.reaches_before(w, a.t_max));
        if cast.clear_at(st.t_max) {
            assert(cast.reach(w).is_some());
        }
    } else {
        assert(a == st);
        assert(b == st);
    }
}

/// What is below a node of a linked hierarchy is a primitive of the world.
pub proof fn lemma_under_is_primitive(cast: Cast, i: int, w: int)
    requires
        linked(cast.nodes, cast.world.len()),
        0 <= i < cast.nodes.len(),
        under(cast.nodes, i, w),
    ensures
        0 <= w < cast.world.len(),
    decreases cast.nodes.len() - i,
{
    match cast.nodes[i].spec_kind() {
        Child::One(y) => {
            lemma_under_is_primitive(cast, y as int, w);
        },
        Child::Two(y, z) => {
            if under(cast.nodes, y as int, w) {
                lemma_under_is_primitive(cast, y as int, w);
            } else {
                lemma_under_is_primitive(cast, z as int, w);
            }
        },
        Child::World(_) => {},
    }
}

/// The traversal of the hierarchy finds what the brute-force search finds.
///
/// For a ray whose roots are in order and whose boxes enclose what is below
/// them, over a hierarchy that holds every primitive, both searches end at
/// the same parameter. Where the traversal hits, so does the brute-force
/// search; the traversal can miss a hit of the brute-force search only
/// exactly at the end of the window, so that both hit or both miss where
/// nothing is reached there. They leave the same record where both miss,
/// and where both hit and only one primitive is reached at that
/// parameter; of several reached there, each search keeps the one that it
/// came to first.
pub proof fn lemma_traversal_is_scan(cast: Cast, t_max: Scalar, record: HitRecord)
    requires
        cast.wf(),
        cast.numeric(),
        cast.enclosing(),
        cast.covering(),
        !t_max.nan(),
    ensures
        ({
            let found = cast.traverse(t_max, record);
            let scanned = cast.scan(
                cast.world.len() as int,
                Found { hit: false, t_max, record },
            );
            &&& found.t_max.rank() == scanned.t_max.rank()
            &&& found.hit ==> scanned.hit
            &&& scanned.hit && !found.hit ==> scanned.t_max.rank() == t_max.rank()
            &&& cast.clear_at(t_max) ==> found.hit == scanned.hit
            &&& !scanned.hit ==> found == scanned
            &&& found.hit && cast.alone_at(found.t_max) ==> found == scanned
        }),
{
    let st = Found { hit: false, t_max, record };
    let n = cast.world.len() as int;
    lemma_visit_prunes(cast, 0, st);
    lemma_scan_settles(cast, n, st);
    let among = |w: int| under(cast.nodes, 0, w);
    assert forall|w: int| #[trigger] among(w) <==> 0 <= w < cast.world.len() by {
        if under(cast.nodes, 0, w) {
            lemma_under_is_primitive(cast, 0, w);
        }
    }
    lemma_searches_alike(
        cast,
        among,
        |w: int| 0 <= w < n,
        st,
        cast.traverse(t_max, record),
        cast.scan(n, st),
    );
}

/// In a finished hierarchy over boxes that are in order, arithmetic that
/// agrees with the boxes of the primitives makes the boxes of the nodes do
/// their work.
pub proof fn lemma_finished_encloses_rays(cast: Cast)
    requires
        cast.wf(),
        finished(cast.nodes, cast.world.len()),
        forall|w: int|
            0 <= w < cast.world.len() ==> (#[trigger] primitive_boxes(
                cast.nodes,
                cast.world.len(),
            )[w]).wf(),
        cast.faithful(primitive_boxes(cast.nodes, cast.world.len())),
    ensures
        cast.enclosing(),
        cast.covering(),
{
    let n = cast.world.len();
    let boxes = primitive_boxes(cast.nodes, n);
    lemma_finished_fits(cast.nodes, n);
    assert forall|i: int, w: int, t: Scalar|
        #![trigger under(cast.nodes, i, w), cast.slabs[i].crosses(cast.t_min, t)]
        0 <= i < cast.nodes.len() && under(cast.nodes, i, w) && !t.nan() && cast.reaches_before(
            w,
            t,
        ) implies cast.slabs[i].crosses(cast.t_min, t) by {
        lemma_finished_encloses(cast.nodes, n, i, w);
        assert(cast.nodes[i].aabb.encloses(boxes[w]));
    }
}

/// Over a finished hierarchy, the traversal finds what the brute-force
/// search finds, for every ray whose roots are in order and whose
/// arithmetic agrees with the boxes of the primitives.
pub proof fn lemma_finished_traversal_is_scan(cast: Cast, t_max: Scalar, record: HitRecord)
    requires
        cast.wf(),
        cast.numeric(),
        finished(cast.nodes, cast.world.len()),
        forall|w: int|
            0 <= w < cast.world.len() ==> (#[trigger] primitive_boxes(
                cast.nodes,
                cast.world.len(),
            )[w]).wf(),
        cast.faithful(primitive_boxes(cast.nodes, cast.world.len())),
        !t_max.nan(),
    ensures
        ({
            let found = cast.traverse(t_max, record);
            let scanned = cast.scan(
                cast.world.len() as int,
                Found { hit: false, t_max, record },
            );
            &&& found.t_max.rank() == scanned.t_max.rank()
            &&& found.hit ==> scanned.hit
            &&& scanned.hit && !found.hit ==> scanned.t_max.rank() == t_max.rank()
            &&& cast.clear_at(t_max) ==> found.hit == scanned.hit
            &&& !scanned.hit ==> found == scanned
            &&& found.hit && cast.alone_at(found.t_max) ==> found == scanned
        }),
{
    lemma_finished_encloses_rays(cast);
    lemma_traversal_is_scan(cast, t_max, record);
}

} // verus!
