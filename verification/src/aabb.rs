use vstd::prelude::*;
use crate::bool32::Bool32;
use crate::ray::Ray;
use crate::scalar::Scalar;
use crate::vec3::Vec3;

verus! {

/// An axis-aligned box, given by its least and its greatest corner.
#[derive(Clone, Copy, Debug, PartialEq, Eq, Structural)]
pub struct AABB {
    pub minimum: Vec3,
    pub maximum: Vec3,
}

/// The stretch of ray parameters that is searched for a hit.
pub struct Window {
    pub t_min: Scalar,
    pub t_max: Scalar,
}

/// One axis of a ray against the two planes of a box on that axis:
/// `inv_d = 1 / direction`, `t0 = (minimum - origin) * inv_d` and
/// `t1 = (maximum - origin) * inv_d`.
#[derive(Clone, Copy, Debug, PartialEq, Eq, Structural)]
pub struct Slab {
    pub inv_d: Scalar,
    pub t0: Scalar,
    pub t1: Scalar,
}

/// A ray against a box, axis by axis.
#[derive(Clone, Copy, Debug, PartialEq, Eq, Structural)]
pub struct Slabs {
    pub x: Slab,
    pub y: Slab,
    pub z: Slab,
}

impl Window {
    /// Whether the window holds no parameter: its end is at or before its start.
    pub open spec fn empty(self) -> bool {
        self.t_max.spec_le(self.t_min)
    }
}

impl Slab {
    /// Whether the ray runs towards smaller coordinates on this axis.
    pub open spec fn reversed(self) -> bool {
        self.inv_d.spec_lt(Scalar { bits: 0 })
    }

    /// The parameter at which the ray enters the slab.
    pub open spec fn entry(self) -> Scalar {
        if self.reversed() {
            self.t1
        } else {
            self.t0
        }
    }

    /// The parameter at which the ray leaves the slab.
    pub open spec fn exit(self) -> Scalar {
        if self.reversed() {
            self.t0
        } else {
            self.t1
        }
    }

    /// The part of a window that lies inside the slab.
    pub open spec fn clip(self, w: Window) -> Window {
        Window { t_min: self.entry().spec_max(w.t_min), t_max: self.exit().spec_min(w.t_max) }
    }
}

impl Slabs {
    /// The part of a window that lies inside all three slabs.
    pub open spec fn clip(self, w: Window) -> Window {
        self.z.clip(self.y.clip(self.x.clip(w)))
    }

    /// Whether the ray is inside the box for some parameter of the window.
    pub open spec fn crosses(self, t_min: Scalar, t_max: Scalar) -> bool {
        !self.clip(Window { t_min, t_max }).empty()
    }

    /// The slab test: narrows the window axis by axis and gives up as soon as
    /// it is empty.
    pub fn hit(&self, t_min: Scalar, t_max: Scalar) -> (r: Bool32)
        ensures
            r == Bool32::of(self.crosses(t_min, t_max)),
            r@ == self.crosses(t_min, t_max),
    {
        let ghost w0 = Window { t_min, t_max };
        let mut t_min = t_min;
        let mut t_max = t_max;
        proof {
            crate::bool32::lemma_of(self.crosses(w0.t_min, w0.t_max));
            lemma_empty_stays_empty(self.y, self.x.clip(w0));
            lemma_empty_stays_empty(self.z, self.y.clip(self.x.clip(w0)));
        }
        let zero = Scalar::zero();
        {
            let mut t0 = self.x.t0;
            let mut t1 = self.x.t1;
            if self.x.inv_d.lt(zero) {
                let t = t0;
                t0 = t1;
                t1 = t;
            }
            t_min = t0.max(t_min);
            t_max = t1.min(t_max);
            if t_max.le(t_min) {
                return Bool32::new(false);
            }
        }
        {
            let mut t0 = self.y.t0;
            let mut t1 = self.y.t1;
            if self.y.inv_d.lt(zero) {
                let t = t0;
                t0 = t1;
                t1 = t;
            }
            t_min = t0.max(t_min);
            t_max = t1.min(t_max);
            if t_max.le(t_min) {
                return Bool32::new(false);
            }
        }
        {
            let mut t0 = self.z.t0;
            let mut t1 = self.z.t1;
            if self.z.inv_d.lt(zero) {
                let t = t0;
                t0 = t1;
                t1 = t;
            }
            t_min = t0.max(t_min);
            t_max = t1.min(t_max);
            if t_max.le(t_min) {
                return Bool32::new(false);
            }
        }
        Bool32::new(true)
    }
}

impl AABB {
    /// Whether the point lies in the box, its faces included.
    pub open spec fn contains(self, p: Vec3) -> bool {
        self.minimum.le(p) && p.le(self.maximum)
    }

    /// Whether `other` lies in this box.
    pub open spec fn encloses(self, other: AABB) -> bool {
        self.minimum.le(other.minimum) && other.maximum.le(self.maximum)
    }

    /// Whether the box is made of numbers, with its least corner at or below
    /// its greatest on every axis. A box of one point is in order.
    pub open spec fn wf(self) -> bool {
        self.minimum.le(self.maximum)
    }

    /// Whether the ray passes through the box within `[t_min, t_max]`.
    ///
    /// `slabs` does the arithmetic of the ray against the planes of the box;
    /// the answer is the slab test on what it returns.
    pub fn hit<K: Fn(&AABB, &Ray) -> Slabs>(
        &self,
        ray: &Ray,
        t_min: Scalar,
        t_max: Scalar,
        slabs: &K,
    ) -> (r: Bool32)
        requires
            call_requires(*slabs, (self, ray)),
        ensures
            exists|s: Slabs| #[trigger]
                call_ensures(*slabs, (self, ray), s) && r == Bool32::of(s.crosses(t_min, t_max)),
    {
        let s = slabs(self, ray);
        s.hit(t_min, t_max)
    }
}

/// The smallest box that holds both `box0` and `box1`.
pub open spec fn spec_surrounding_box(box0: AABB, box1: AABB) -> AABB {
    AABB {
        minimum: box0.minimum.spec_min(box1.minimum),
        maximum: box0.maximum.spec_max(box1.maximum),
    }
}

/// The smallest box that holds both `box0` and `box1`.
#[verifier::when_used_as_spec(spec_surrounding_box)]
pub fn surrounding_box(box0: AABB, box1: AABB) -> (r: AABB)
    ensures
        r == spec_surrounding_box(box0, box1),
{
    let small = Vec3::new(
        box0.minimum.x.min(box1.minimum.x),
        box0.minimum.y.min(box1.minimum.y),
        box0.minimum.z.min(box1.minimum.z),
    );
    let big = Vec3::new(
        box0.maximum.x.max(box1.maximum.x),
        box0.maximum.y.max(box1.maximum.y),
        box0.maximum.z.max(box1.maximum.z),
    );
    AABB { minimum: small, maximum: big }
}

/// Once a window is empty, no slab makes it hold a parameter again.
pub proof fn lemma_empty_stays_empty(s: Slab, w: Window)
    ensures
        w.empty() ==> s.clip(w).empty(),
{
}

/// A ray that is inside all three slabs from `a` to `b`, a stretch of the
/// window that holds more than a point, hits.
pub proof fn lemma_hit_when_inside(s: Slabs, t_min: Scalar, t_max: Scalar, a: Scalar, b: Scalar)
    requires
        t_min.spec_le(a),
        a.spec_lt(b),
        b.spec_le(t_max),
        s.x.entry().spec_le(a) && b.spec_le(s.x.exit()),
        s.y.entry().spec_le(a) && b.spec_le(s.y.exit()),
        s.z.entry().spec_le(a) && b.spec_le(s.z.exit()),
    ensures
        s.crosses(t_min, t_max),
{
}

/// A ray that leaves one of the slabs no later than it enters it misses,
/// whatever the window. This is so for a ray that runs beside the box along
/// an axis: both planes are then infinitely far, on the same side.
pub proof fn lemma_miss_when_outside(s: Slabs, t_min: Scalar, t_max: Scalar)
    requires
        s.x.exit().spec_le(s.x.entry()) || s.y.exit().spec_le(s.y.entry()) || s.z.exit().spec_le(
            s.z.entry(),
        ),
    ensures
        !s.crosses(t_min, t_max),
{
    let w0 = Window { t_min, t_max };
    lemma_empty_stays_empty(s.y, s.x.clip(w0));
    lemma_empty_stays_empty(s.z, s.y.clip(s.x.clip(w0)));
}

/// Every point of `box0` and every point of `box1` lies in their surrounding
/// box, whatever the two boxes hold.
pub proof fn lemma_surrounding_box_contains(box0: AABB, box1: AABB, p: Vec3)
    requires
        box0.contains(p) || box1.contains(p),
    ensures
        spec_surrounding_box(box0, box1).contains(p),
{
}

/// The surrounding box of two boxes that are in order is in order and
/// encloses both.
pub proof fn lemma_surrounding_box_encloses(box0: AABB, box1: AABB)
    requires
        box0.wf(),
        box1.wf(),
    ensures
        spec_surrounding_box(box0, box1).wf(),
        spec_surrounding_box(box0, box1).encloses(box0),
        spec_surrounding_box(box0, box1).encloses(box1),
{
}

/// Enclosure is transitive, and a box in order encloses itself.
pub proof fn lemma_encloses_transitive(a: AABB, b: AABB, c: AABB)
    ensures
        a.encloses(b) && b.encloses(c) ==> a.encloses(c),
        a.wf() ==> a.encloses(a),
{
}

} // verus!
