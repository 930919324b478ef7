use vstd::prelude::*;
use crate::bool32::Bool32;
use crate::hittable::HitRecord;
use crate::material::EnumMaterial;
use crate::ray::Ray;
use crate::scalar::Scalar;
use crate::vec3::Vec3;

verus! {

/// A sphere of the scene.
#[derive(Clone, Copy, Debug, PartialEq, Eq, Structural)]
pub struct Sphere {
    pub center: Vec3,
    pub radius: Scalar,
    pub material: EnumMaterial,
}

/// One of the two points at which the line of a ray meets a sphere:
/// the parameter `t`, the point, the unit normal that points away from the
/// centre, and `facing`, the dot product of the ray's direction with that
/// normal.
#[derive(Clone, Copy, Debug, PartialEq, Eq, Structural)]
pub struct Touch {
    pub t: Scalar,
    pub position: Vec3,
    pub outward_normal: Vec3,
    pub facing: Scalar,
}

/// The line of a ray against a sphere: the discriminant of
/// `a t^2 + 2 half_b t + c = 0` and, where it is not negative, the two
/// roots, `near` the one with `-sqrt` and `far` the one with `+sqrt`.
#[derive(Clone, Copy, Debug, PartialEq, Eq, Structural)]
pub struct Crossing {
    pub discriminant: Scalar,
    pub near: Touch,
    pub far: Touch,
}

/// Whether `t` is outside `[t_min, t_max]`.
pub open spec fn outside(t: Scalar, t_min: Scalar, t_max: Scalar) -> bool {
    t.spec_lt(t_min) || t_max.spec_lt(t)
}

impl Crossing {
    /// The root at which the ray hits within `[t_min, t_max]`: none where the
    /// discriminant is negative, else the near root unless it is outside the
    /// window, else the far root unless it is outside too.
    pub open spec fn spec_nearest(&self, t_min: Scalar, t_max: Scalar) -> Option<Touch> {
        if self.discriminant.spec_lt(Scalar { bits: 0 }) {
            None
        } else if !outside(self.near.t, t_min, t_max) {
            Some(self.near)
        } else if !outside(self.far.t, t_min, t_max) {
            Some(self.far)
        } else {
            None
        }
    }

    /// The root at which the ray hits within `[t_min, t_max]`, if any.
    #[verifier::when_used_as_spec(spec_nearest)]
    pub fn nearest(&self, t_min: Scalar, t_max: Scalar) -> (r: Option<Touch>)
        ensures
            r == self.spec_nearest(t_min, t_max),
    {
        if self.discriminant.lt(Scalar::zero()) {
            return None;
        }
        let mut touch = self.near;
        if Bool32::new(touch.t.lt(t_min)).or(Bool32::new(t_max.lt(touch.t))).get() {
            touch = self.far;
            if Bool32::new(touch.t.lt(t_min)).or(Bool32::new(t_max.lt(touch.t))).get() {
                return None;
            }
        }
        Some(touch)
    }
}

impl Sphere {
    /// Whether the centre is made of numbers, the radius is above 0 and the
    /// material's parameters are in order.
    pub open spec fn wf(&self) -> bool {
        &&& !self.center.nan()
        &&& (Scalar { bits: 0 }).spec_lt(self.radius)
        &&& self.material.wf()
    }

    /// Whether the sphere is one that a scene can hold.
    #[verifier::when_used_as_spec(wf)]
    pub fn is_wf(&self) -> (r: bool)
        ensures
            r == self.wf(),
    {
        !self.center.x.is_nan() && !self.center.y.is_nan() && !self.center.z.is_nan()
            && Scalar::zero().lt(self.radius) && self.material.is_wf()
    }

    /// The record that a hit of this sphere at `touch` leaves.
    pub open spec fn record(self, touch: Touch) -> HitRecord {
        HitRecord::spec_new(
            touch.position,
            touch.outward_normal,
            touch.t,
            touch.facing,
            self.material,
        )
    }

    /// What `hit` leaves in the record and returns, given what the kernel
    /// computed.
    pub open spec fn hit_outcome(
        self,
        crossing: Crossing,
        t_min: Scalar,
        t_max: Scalar,
        before: HitRecord,
    ) -> (Bool32, HitRecord) {
        match crossing.spec_nearest(t_min, t_max) {
            Some(touch) => (Bool32::of(true), self.record(touch)),
            None => (Bool32::of(false), before),
        }
    }

    /// The intersection test on a crossing that was computed beforehand:
    /// on a hit within `[t_min, t_max]` the record is overwritten, else it
    /// is left as it was.
    pub fn hit_at(
        &self,
        crossing: &Crossing,
        t_min: Scalar,
        t_max: Scalar,
        hit_record: &mut HitRecord,
    ) -> (r: Bool32)
        ensures
            (r, *final(hit_record)) == self.hit_outcome(*crossing, t_min, t_max, *old(hit_record)),
            r@ == crossing.spec_nearest(t_min, t_max).is_some(),
    {
        proof {
            crate::bool32::lemma_of(true);
            crate::bool32::lemma_of(false);
        }
        match crossing.nearest(t_min, t_max) {
            Some(touch) => {
                *hit_record = HitRecord::new(
                    touch.position,
                    touch.outward_normal,
                    touch.t,
                    touch.facing,
                    self.material,
                );
                Bool32::new(true)
            },
            None => Bool32::new(false),
        }
    }

    /// Whether the ray hits the sphere within `[t_min, t_max]`; on a hit the
    /// record is overwritten.
    ///
    /// `crossing` solves the quadratic; which root counts, and what the
    /// record holds, is decided on what it returns.
    pub fn hit<K: Fn(&Sphere, &Ray) -> Crossing>(
        &self,
        ray: &Ray,
        t_min: Scalar,
        t_max: Scalar,
        hit_record: &mut HitRecord,
        crossing: &K,
    ) -> (r: Bool32)
        requires
            call_requires(*crossing, (self, ray)),
        ensures
            exists|c: Crossing| #[trigger]
                call_ensures(*crossing, (self, ray), c) && (r, *final(hit_record))
                    == self.hit_outcome(c, t_min, t_max, *old(hit_record)),
    {
        let c = crossing(self, ray);
        self.hit_at(&c, t_min, t_max, hit_record)
    }
}

impl Default for Sphere {
    fn default() -> (r: Sphere)
        ensures
            r.radius.bits == 0,
            r.material == EnumMaterial::blank(),
    {
        Sphere {
            center: Vec3::default(),
            radius: Scalar { bits: 0 },
            material: EnumMaterial::default(),
        }
    }
}

} // verus!
