use vstd::prelude::*;
use crate::aabb::{Slabs, AABB};
use crate::bool32::Bool32;
use crate::hittable::HitRecord;
use crate::ray::Ray;
use crate::scalar::Scalar;
use crate::sphere::{Crossing, Sphere};
use crate::stack::Stack;
use crate::vec3::UVec4;

verus! {

/// A node of the hierarchy as it lies in a buffer: its box and four words.
///
/// `child.x` is the tag. Tag 0: one child, at index `child.y`. Tag 1: two
/// children, at `child.y` and `child.z`. Any other tag: a leaf for the
/// primitive at index `child.w`.
#[derive(Clone, Copy, Debug, PartialEq, Eq, Structural)]
pub struct BVHNode {
    pub aabb: AABB,
    pub child: UVec4,
}

/// What hangs below a node.
#[derive(Clone, Copy, Debug, PartialEq, Eq, Structural)]
pub enum Child {
    One(u32),
    Two(u32, u32),
    World(u32),
}

/// The hierarchy: its nodes in the order in which they were made, the root
/// first.
pub struct BVH<'a> {
    pub nodes: &'a [BVHNode],
}

/// The closest hit so far, and the end of the window that it leaves.
pub struct Found {
    pub hit: bool,
    pub t_max: Scalar,
    pub record: HitRecord,
}

/// One ray against one scene: for each node what the ray has to do with its
/// box, for each primitive where the ray's line crosses it.
pub struct Cast {
    pub nodes: Seq<BVHNode>,
    pub slabs: Seq<Slabs>,
    pub world: Seq<Sphere>,
    pub crossings: Seq<Crossing>,
    pub t_min: Scalar,
}

impl BVHNode {
    /// What the tag says hangs below the node.
    pub open spec fn spec_kind(&self) -> Child {
        if self.child.x == 0 {
            Child::One(self.child.y)
        } else if self.child.x == 1 {
            Child::Two(self.child.y, self.child.z)
        } else {
            Child::World(self.child.w)
        }
    }

    /// Whether the links are written as the builder writes them: tag 0, 1
    /// or 2, and zero in every word that the tag does not use.
    pub open spec fn canonical(&self) -> bool {
        if self.child.x == 0 {
            self.child.z == 0 && self.child.w == 0
        } else if self.child.x == 1 {
            self.child.w == 0
        } else {
            self.child.x == 2 && self.child.y == 0 && self.child.z == 0
        }
    }

    /// Reads the tag.
    #[verifier::when_used_as_spec(spec_kind)]
    pub fn kind(&self) -> (r: Child)
        ensures
            r == self.spec_kind(),
    {
        if self.child.x == 0 {
            Child::One(self.child.y)
        } else if self.child.x == 1 {
            Child::Two(self.child.y, self.child.z)
        } else {
            Child::World(self.child.w)
        }
    }
}

/// Whether every link of `nodes` leads forward to a node of `nodes`, and
/// every leaf to one of `world_len` primitives. Links that lead forward
/// cannot form a cycle.
pub open spec fn linked(nodes: Seq<BVHNode>, world_len: nat) -> bool {
    forall|i: int|
        0 <= i < nodes.len() ==> match (#[trigger] nodes[i]).spec_kind() {
            Child::One(y) => i < y < nodes.len(),
            Child::Two(y, z) => i < y < nodes.len() && i < z < nodes.len(),
            Child::World(w) => w < world_len,
        }
}

/// The number of nodes on the longest way from node `i` down to a leaf.
pub open spec fn height(nodes: Seq<BVHNode>, i: int) -> nat
    decreases nodes.len() - i,
{
    if !(0 <= i < nodes.len()) {
        0
    } else {
        match nodes[i].spec_kind() {
            Child::One(y) => if i < y < nodes.len() {
                1 + height(nodes, y as int)
            } else {
                1
            },
            Child::Two(y, z) => if i < y < nodes.len() && i < z < nodes.len() {
                let a = height(nodes, y as int);
                let b = height(nodes, z as int);
                1 + if a < b {
                    b
                } else {
                    a
                }
            } else {
                1
            },
            Child::World(_) => 1,
        }
    }
}

/// The number of nodes at and below node `i`, counted along every way down.
pub open spec fn size(nodes: Seq<BVHNode>, i: int) -> nat
    decreases nodes.len() - i,
{
    if !(0 <= i < nodes.len()) {
        0
    } else {
        match nodes[i].spec_kind() {
            Child::One(y) => if i < y < nodes.len() {
                1 + size(nodes, y as int)
            } else {
                1
            },
            Child::Two(y, z) => if i < y < nodes.len() && i < z < nodes.len() {
                1 + size(nodes, y as int) + size(nodes, z as int)
            } else {
                1
            },
            Child::World(_) => 1,
        }
    }
}

/// Whether a leaf at or below node `i` stands for primitive `w`.
pub open spec fn under(nodes: Seq<BVHNode>, i: int, w: int) -> bool
    decreases nodes.len() - i,
{
    if !(0 <= i < nodes.len()) {
        false
    } else {
        match nodes[i].spec_kind() {
            Child::One(y) => i < y < nodes.len() && under(nodes, y as int, w),
            Child::Two(y, z) => i < y < nodes.len() && i < z < nodes.len() && (under(nodes, y as int, w) || under(
                nodes,
                z as int,
                w,
            )),
            Child::World(v) => v == w,
        }
    }
}

/// The nodes that wait on a stack, counted with all that is below them.
pub open spec fn pending(nodes: Seq<BVHNode>, stack: Seq<u32>) -> nat
    decreases stack.len(),
{
    if stack.len() == 0 {
        0
    } else {
        pending(nodes, stack.drop_last()) + size(nodes, stack.last() as int)
    }
}

impl Cast {
    /// Whether there is an entry for every node and every primitive, and
    /// the nodes are linked with a root.
    pub open spec fn wf(self) -> bool {
        &&& self.nodes.len() > 0
        &&& self.slabs.len() == self.nodes.len()
        &&& self.crossings.len() == self.world.len()
        &&& linked(self.nodes, self.world.len())
    }

    /// Primitive `w` tested against the window that `st` leaves, ends
    /// included. Its hit takes the place of what was found, and the window
    /// ends at it, where nothing was found yet or the hit is strictly
    /// closer; a hit at the very parameter on record changes nothing.
    pub open spec fn test(self, w: int, st: Found) -> Found {
        match self.crossings[w].spec_nearest(self.t_min, st.t_max) {
            Some(touch) => if !st.hit || touch.t.spec_lt(st.t_max) {
                Found { hit: true, t_max: touch.t, record: self.world[w].record(touch) }
            } else {
                st
            },
            None => st,
        }
    }

    /// The traversal of what is at and below node `i`: nothing where the ray
    /// misses the node's box within the window; else the primitive of a
    /// leaf is tested, and of two children the second is visited first.
    pub open spec fn visit(self, i: int, st: Found) -> Found
        decreases self.nodes.len() - i,
    {
        if !(0 <= i < self.nodes.len() && self.nodes.len() == self.slabs.len()) {
            st
        } else if !self.slabs[i].crosses(self.t_min, st.t_max) {
            st
        } else {
            match self.nodes[i].spec_kind() {
                Child::One(y) => if i < y < self.nodes.len() {
                    self.visit(y as int, st)
                } else {
                    st
                },
                Child::Two(y, z) => if i < y < self.nodes.len() && i < z < self.nodes.len() {
                    self.visit(y as int, self.visit(z as int, st))
                } else {
                    st
                },
                Child::World(w) => self.test(w as int, st),
            }
        }
    }

    /// The traversal of all that waits on a stack, the top first.
    pub open spec fn drain(self, stack: Seq<u32>, st: Found) -> Found
        decreases stack.len(),
    {
        if stack.len() == 0 {
            st
        } else {
            self.drain(stack.drop_last(), self.visit(stack.last() as int, st))
        }
    }

    /// The whole traversal, from the root, with nothing found yet.
    pub open spec fn traverse(self, t_max: Scalar, record: HitRecord) -> Found {
        self.visit(0, Found { hit: false, t_max, record })
    }
}

/// What the kernel `slabs` returns for a box and a ray.
pub open spec fn slabs_of<K: Fn(&AABB, &Ray) -> Slabs>(k: K, aabb: AABB, ray: Ray) -> Slabs {
    choose|s: Slabs| call_ensures(k, (&aabb, &ray), s)
}

/// What the kernel `crossing` returns for a sphere and a ray.
pub open spec fn crossing_of<K: Fn(&Sphere, &Ray) -> Crossing>(
    k: K,
    sphere: Sphere,
    ray: Ray,
) -> Crossing {
    choose|c: Crossing| call_ensures(k, (&sphere, &ray), c)
}

/// Whether `slabs` may be called on the box of every node and returns one
/// value for each.
pub open spec fn slabs_kernel<K: Fn(&AABB, &Ray) -> Slabs>(
    k: K,
    nodes: Seq<BVHNode>,
    ray: Ray,
) -> bool {
    &&& forall|i: int|
        0 <= i < nodes.len() ==> call_requires(k, (&(#[trigger] nodes[i]).aabb, &ray))
    &&& forall|i: int, a: Slabs|
        0 <= i < nodes.len() && #[trigger] call_ensures(k, (&nodes[i].aabb, &ray), a) ==> a
            == slabs_of(k, nodes[i].aabb, ray)
}

/// Whether `crossing` may be called on every primitive and returns one value
/// for each.
pub open spec fn crossing_kernel<K: Fn(&Sphere, &Ray) -> Crossing>(
    k: K,
    world: Seq<Sphere>,
    ray: Ray,
) -> bool {
    &&& forall|w: int| 0 <= w < world.len() ==> call_requires(k, (&#[trigger] world[w], &ray))
    &&& forall|w: int, a: Crossing|
        0 <= w < world.len() && #[trigger] call_ensures(k, (&world[w], &ray), a) ==> a
            == crossing_of(k, world[w], ray)
}

/// The ray against the scene, as the two kernels compute it.
pub open spec fn cast_of<S: Fn(&AABB, &Ray) -> Slabs, C: Fn(&Sphere, &Ray) -> Crossing>(
    nodes: Seq<BVHNode>,
    world: Seq<Sphere>,
    ray: Ray,
    t_min: Scalar,
    slabs: S,
    crossing: C,
) -> Cast {
    Cast {
        nodes,
        slabs: Seq::new(nodes.len(), |i: int| slabs_of(slabs, nodes[i].aabb, ray)),
        world,
        crossings: Seq::new(world.len(), |w: int| crossing_of(crossing, world[w], ray)),
        t_min,
    }
}

impl<'a> BVH<'a> {
    /// Whether the nodes are linked with a root over `world_len` primitives
    /// and no way down is longer than the traversal's stack.
    pub open spec fn wf(&self, world_len: nat) -> bool {
        &&& self.nodes@.len() > 0
        &&& linked(self.nodes@, world_len)
        &&& height(self.nodes@, 0) <= crate::stack::STACK_CAPACITY
    }

    /// Whether the traversal accepts these nodes over `world_len` primitives.
    pub fn is_wf(&self, world_len: usize) -> (r: bool)
        ensures
            r == self.wf(world_len as nat),
    {
        let n = self.nodes.len();
        if n == 0 {
            return false;
        }
        let mut heights: Vec<usize> = Vec::new();
        let mut k: usize = 0;
        while k < n
            invariant
                k <= n,
                heights@.len() == k,
            decreases n - k,
        {
            heights.push(0);
            k += 1;
        }
        let mut i = n;
        while i > 0
            invariant
                i <= n,
                n == self.nodes@.len(),
                heights@.len() == n,
                forall|j: int|
                    i <= j < n ==> match (#[trigger] self.nodes@[j]).spec_kind() {
                        Child::One(y) => j < y < n,
                        Child::Two(y, z) => j < y < n && j < z < n,
                        Child::World(w) => w < world_len,
                    },
                forall|j: int|
                    i <= j < n ==> (#[trigger] heights@[j]) == height(self.nodes@, j) && heights@[j]
                        <= n - j,
            decreases i,
        {
            i -= 1;
            let h: usize = match self.nodes[i].kind() {
                Child::One(y) => {
                    if !(i < y as usize && (y as usize) < n) {
                        return false;
                    }
                    heights[y as usize] + 1
                },
                Child::Two(y, z) => {
                    if !(i < y as usize && (y as usize) < n && i < z as usize && (z as usize) < n) {
                        return false;
                    }
                    let a = heights[y as usize];
                    let b = heights[z as usize];
                    1 + if a < b {
                        b
                    } else {
                        a
                    }
                },
                Child::World(w) => {
                    if w as usize >= world_len {
                        return false;
                    }
                    1
                },
            };
            heights.set(i, h);
        }
        heights[0] <= crate::stack::STACK_CAPACITY
    }

    /// The closest hit of the ray within `[t_min, t_max]`, if there is one:
    /// the record is overwritten by the first hit that the traversal comes
    /// to and then by each strictly closer one, and is left as it was
    /// where there is none.
    ///
    /// `slabs` and `crossing` do the arithmetic, for the boxes and for the
    /// primitives; the result is the traversal of what they return.
    pub fn hit<S: Fn(&AABB, &Ray) -> Slabs, C: Fn(&Sphere, &Ray) -> Crossing>(
        &self,
        ray: &Ray,
        t_min: Scalar,
        t_max: Scalar,
        hit_record: &mut HitRecord,
        world: &[Sphere],
        slabs: &S,
        crossing: &C,
    ) -> (r: Bool32)
        requires
            self.wf(world@.len()),
            slabs_kernel(*slabs, self.nodes@, *ray),
            crossing_kernel(*crossing, world@, *ray),
        ensures
            ({
                let cast = cast_of(self.nodes@, world@, *ray, t_min, *slabs, *crossing);
                let found = cast.traverse(t_max, *old(hit_record));
                r == Bool32::of(found.hit) && *final(hit_record) == found.record
            }),
    {
        let ghost cast = cast_of(self.nodes@, world@, *ray, t_min, *slabs, *crossing);
        let ghost goal = cast.traverse(t_max, *old(hit_record));
        let mut t_max = t_max;
        let mut stack = Stack::default();
        let mut hit = Bool32::new(false);
        stack.push(0);
        proof {
            lemma_push(cast, Seq::<u32>::empty(), 0, Found { hit: false, t_max, record: *hit_record });
            assert(stack@ =~= Seq::<u32>::empty().push(0));
        }
        while !stack.is_empty().get()
            invariant
                stack.wf(),
                self.wf(world@.len()),
                slabs_kernel(*slabs, self.nodes@, *ray),
                crossing_kernel(*crossing, world@, *ray),
                cast == cast_of(self.nodes@, world@, *ray, t_min, *slabs, *crossing),
                hit == Bool32::of(hit@),
                forall|j: int|
                    0 <= j < stack@.len() ==> (#[trigger] stack@[j]) < self.nodes@.len() && height(
                        self.nodes@,
                        stack@[j] as int,
                    ) + j <= crate::stack::STACK_CAPACITY,
                cast.drain(stack@, Found { hit: hit@, t_max, record: *hit_record }) == goal,
            decreases pending(self.nodes@, stack@),
        {
            let ghost before = stack@;
            let ghost st = Found { hit: hit@, t_max, record: *hit_record };
            let i = stack.pop();
            let ghost rest = stack@;
            proof {
                lemma_children(self.nodes@, world@.len(), i as int);
                assert(before =~= rest.push(i));
                lemma_push(cast, rest, i, st);
            }
            let node = &self.nodes[i as usize];
            let inside = node.aabb.hit(ray, t_min, t_max, slabs);
            proof {
                let s = choose|s: Slabs| #[trigger]
                    call_ensures(*slabs, (&node.aabb, ray), s) && inside == Bool32::of(
                        s.crosses(t_min, t_max),
                    );
                assert(call_ensures(*slabs, (&self.nodes@[i as int].aabb, ray), s));
                assert(s == cast.slabs[i as int]);
                crate::bool32::lemma_of(s.crosses(t_min, t_max));
            }
            if !inside.get() {
                continue ;
            }
            match node.kind() {
                Child::One(y) => {
                    stack.push(y);
                    proof {
                        lemma_push(cast, rest, y, st);
                    }
                },
                Child::Two(y, z) => {
                    proof {
                        lemma_children(self.nodes@, world@.len(), z as int);
                    }
                    stack.push(y);
                    stack.push(z);
                    proof {
                        lemma_push(cast, rest, y, cast.visit(z as int, st));
                        lemma_push(cast, rest.push(y), z, st);
                    }
                },
                Child::World(w) => {
                    let ghost sphere = world@[w as int];
                    let mut candidate = *hit_record;
                    let ghost record = candidate;
                    let struck = world[w as usize].hit(ray, t_min, t_max, &mut candidate, crossing);
                    proof {
                        let c = choose|c: Crossing| #[trigger]
                            call_ensures(*crossing, (&sphere, ray), c) && (struck, candidate)
                                == sphere.hit_outcome(c, t_min, t_max, record);
                        assert(call_ensures(*crossing, (&world@[w as int], ray), c));
                        assert(c == cast.crossings[w as int]);
                        crate::bool32::lemma_of(true);
                        crate::bool32::lemma_of(false);
                    }
                    if struck.get() && (!hit.get() || candidate.t.lt(t_max)) {
                        *hit_record = candidate;
                        t_max = candidate.t;
                        hit = Bool32::new(true);
                    }
                },
            }
        }
        hit
    }
}

/// A node that is linked has at least height and size 1, and each of its
/// children is lower and smaller.
pub proof fn lemma_children(nodes: Seq<BVHNode>, world_len: nat, i: int)
    requires
        linked(nodes, world_len),
        0 <= i < nodes.len(),
    ensures
        height(nodes, i) >= 1,
        size(nodes, i) >= 1,
        match nodes[i].spec_kind() {
            Child::One(y) => height(nodes, y as int) + 1 <= height(nodes, i) && size(
                nodes,
                y as int,
            ) + 1 == size(nodes, i),
            Child::Two(y, z) => height(nodes, y as int) + 1 <= height(nodes, i) && height(
                nodes,
                z as int,
            ) + 1 <= height(nodes, i) && size(nodes, y as int) + size(nodes, z as int) + 1
                == size(nodes, i),
            Child::World(_) => true,
        },
{
}

/// A stack with one more node on top: the node is visited first, and it adds
/// its size to what is pending.
pub proof fn lemma_push(cast: Cast, stack: Seq<u32>, x: u32, st: Found)
    ensures
        cast.drain(stack.push(x), st) == cast.drain(stack, cast.visit(x as int, st)),
        pending(cast.nodes, stack.push(x)) == pending(cast.nodes, stack) + size(
            cast.nodes,
            x as int,
        ),
{
    assert(stack.push(x).drop_last() =~= stack);
    assert(stack.push(x).last() == x);
}

} // verus!
