use vstd::prelude::*;
use crate::hittable::HitRecord;
use crate::ray::Ray;
use crate::scalar::{Scalar, ONE_BITS};
use crate::vec3::{Vec3, Vec4};

verus! {

/// A material as it is stored: up to four parameters and a tag that says how
/// to read them.
///
/// Tag 0 is a diffuse surface with albedo `data.xyz`; tag 1 a metal with
/// albedo `data.xyz` and fuzz `data.w`; every other tag a dielectric with
/// refraction index `data.x`.
#[derive(Clone, Copy, Debug, PartialEq, Eq, Structural)]
pub struct EnumMaterial {
    pub data: Vec4,
    pub t: u32,
}

/// How a material scatters.
#[derive(Clone, Copy, Debug, PartialEq, Eq, Structural)]
pub enum MaterialKind {
    Lambertian,
    Metal,
    Dielectric,
}

/// What a surface makes of a ray: the colour by which it dims the light, and
/// the ray that goes on.
#[derive(Clone, Copy, Debug, PartialEq, Eq, Structural)]
pub struct Scatter {
    pub color: Vec3,
    pub ray: Ray,
}

/// The reflection of a ray off a metal: the mirrored direction, blurred by
/// the fuzz, and `facing`, its dot product with the surface normal.
#[derive(Clone, Copy, Debug, PartialEq, Eq, Structural)]
pub struct Reflection {
    pub direction: Vec3,
    pub facing: Scalar,
}

/// A ray at the face of a dielectric, for a refraction ratio that is the
/// index or its inverse: `bend`, the refraction ratio times the
/// sine of the angle of incidence; `reflectance`, the share of light that
/// is reflected at that angle; and the two directions in which the ray can
/// go on.
#[derive(Clone, Copy, Debug, PartialEq, Eq, Structural)]
pub struct Refraction {
    pub bend: Scalar,
    pub reflectance: Scalar,
    pub reflected: Vec3,
    pub refracted: Vec3,
}

/// The colour that dims nothing.
pub open spec fn white() -> Vec3 {
    Vec3 { x: Scalar { bits: ONE_BITS }, y: Scalar { bits: ONE_BITS }, z: Scalar { bits: ONE_BITS } }
}

/// Whether a colour adds no light and takes none that is not there: each
/// channel is a number from 0 to 1.
pub open spec fn dim(c: Vec3) -> bool {
    let zero = Scalar { bits: 0 };
    (Vec3 { x: zero, y: zero, z: zero }).le(c) && c.le(white())
}

impl Refraction {
    /// Whether no refracted ray exists, so that all light is reflected.
    pub open spec fn total(&self) -> bool {
        (Scalar { bits: ONE_BITS }).spec_lt(self.bend)
    }

    /// The direction in which the ray goes on where a refracted ray exists:
    /// reflected if the reflectance is above the drawn `sample`, else
    /// refracted.
    pub open spec fn spec_pick(&self, sample: Scalar) -> Vec3 {
        if sample.spec_lt(self.reflectance) {
            self.reflected
        } else {
            self.refracted
        }
    }

    /// Whether all light is reflected.
    #[verifier::when_used_as_spec(total)]
    pub fn is_total(&self) -> (r: bool)
        ensures
            r == self.total(),
    {
        Scalar::one().lt(self.bend)
    }

    /// Reflection or refraction, by the drawn sample.
    #[verifier::when_used_as_spec(spec_pick)]
    pub fn pick(&self, sample: Scalar) -> (r: Vec3)
        ensures
            r == self.spec_pick(sample),
    {
        if sample.lt(self.reflectance) {
            self.reflected
        } else {
            self.refracted
        }
    }
}

impl EnumMaterial {
    /// The material of zeros: a black diffuse surface.
    pub open spec fn blank() -> EnumMaterial {
        let zero = Scalar { bits: 0 };
        EnumMaterial { data: Vec4 { x: zero, y: zero, z: zero, w: zero }, t: 0 }
    }

    /// The share of light that the surface gives back, by channel.
    pub open spec fn spec_albedo(&self) -> Vec3 {
        self.data.spec_xyz()
    }

    /// How the tag says the material scatters.
    pub open spec fn spec_kind(&self) -> MaterialKind {
        if self.t == 0 {
            MaterialKind::Lambertian
        } else if self.t == 1 {
            MaterialKind::Metal
        } else {
            MaterialKind::Dielectric
        }
    }

    /// Whether the parameters are what the kind asks for: for a diffuse
    /// surface an albedo from 0 to 1 on each channel, for a metal a fuzz
    /// that is not negative, for a dielectric a refraction index above 0.
    pub open spec fn wf(&self) -> bool {
        let zero = Scalar { bits: 0 };
        match self.spec_kind() {
            MaterialKind::Lambertian => Vec3 { x: zero, y: zero, z: zero }.le(self.spec_albedo())
                && self.spec_albedo().le(white()),
            MaterialKind::Metal => zero.spec_le(self.data.w),
            MaterialKind::Dielectric => zero.spec_lt(self.data.x),
        }
    }

    /// The ray that leaves the hit in `direction`, at the time of `ray`.
    pub open spec fn onward(ray: Ray, hit_record: HitRecord, direction: Vec3) -> Ray {
        Ray { origin: hit_record.position, direction, time: ray.time }
    }

    /// What a diffuse surface makes of a ray, given the direction that was
    /// drawn for it: the surface normal takes its place where it is next to
    /// zero.
    pub open spec fn lambertian_outcome(
        &self,
        ray: Ray,
        hit_record: HitRecord,
        drawn: Vec3,
    ) -> Scatter {
        Scatter {
            color: self.spec_albedo(),
            ray: Self::onward(
                ray,
                hit_record,
                if drawn.near_zero() {
                    hit_record.normal
                } else {
                    drawn
                },
            ),
        }
    }

    /// What a metal makes of a ray, given its reflection: nothing where the
    /// reflection does not point away from the surface.
    pub open spec fn metal_outcome(
        &self,
        ray: Ray,
        hit_record: HitRecord,
        reflection: Reflection,
    ) -> Option<Scatter> {
        if (Scalar { bits: 0 }).spec_lt(reflection.facing) {
            Some(
                Scatter {
                    color: self.spec_albedo(),
                    ray: Self::onward(ray, hit_record, reflection.direction),
                },
            )
        } else {
            None
        }
    }

    /// What a dielectric makes of a ray that goes on in `direction`.
    pub open spec fn dielectric_outcome(ray: Ray, hit_record: HitRecord, direction: Vec3) -> Scatter {
        Scatter { color: white(), ray: Self::onward(ray, hit_record, direction) }
    }

    /// The share of light that the surface gives back, by channel.
    #[verifier::when_used_as_spec(spec_albedo)]
    pub fn albedo(&self) -> (r: Vec3)
        ensures
            r == self.spec_albedo(),
    {
        self.data.xyz()
    }

    /// Whether the parameters are what the kind asks for.
    #[verifier::when_used_as_spec(wf)]
    pub fn is_wf(&self) -> (r: bool)
        ensures
            r == self.wf(),
    {
        let zero = Scalar::zero();
        let one = Scalar::one();
        match self.t {
            0 => {
                let albedo = self.albedo();
                zero.le(albedo.x) && zero.le(albedo.y) && zero.le(albedo.z) && albedo.x.le(one)
                    && albedo.y.le(one) && albedo.z.le(one)
            },
            1 => zero.le(self.data.w),
            _ => zero.lt(self.data.x),
        }
    }

    /// Reads the tag.
    #[verifier::when_used_as_spec(spec_kind)]
    pub fn kind(&self) -> (r: MaterialKind)
        ensures
            r == self.spec_kind(),
    {
        match self.t {
            0 => MaterialKind::Lambertian,
            1 => MaterialKind::Metal,
            _ => MaterialKind::Dielectric,
        }
    }

    /// Scatters off a diffuse surface; always succeeds, so returns 1.
    ///
    /// `diffuse` draws the direction: the surface normal plus a random unit
    /// vector.
    pub fn lambertian_scatter<D: Fn(&HitRecord) -> Vec3>(
        &self,
        ray: &Ray,
        hit_record: &HitRecord,
        scatter: &mut Scatter,
        diffuse: &D,
    ) -> (r: u32)
        requires
            call_requires(*diffuse, (hit_record,)),
        ensures
            r == 1,
            exists|drawn: Vec3| #[trigger]
                call_ensures(*diffuse, (hit_record,), drawn) && *final(scatter)
                    == self.lambertian_outcome(*ray, *hit_record, drawn),
    {
        let scatter_direction = diffuse(hit_record);
        let ghost drawn = scatter_direction;
        let scatter_direction = if scatter_direction.is_near_zero() {
            hit_record.normal
        } else {
            scatter_direction
        };
        let scatterd = Ray {
            origin: hit_record.position,
            direction: scatter_direction,
            time: ray.time,
        };
        *scatter = Scatter { color: self.albedo(), ray: scatterd };
        proof {
            assert(call_ensures(*diffuse, (hit_record,), drawn));
        }
        1
    }

    /// Scatters off a metal: returns 1 and sets `scatter` where the
    /// reflection points away from the surface, else returns 0 and leaves
    /// `scatter` as it was.
    ///
    /// `mirror` computes the reflection from the ray, the hit and the fuzz.
    pub fn metal_scatter<M: Fn(&Ray, &HitRecord, Scalar) -> Reflection>(
        &self,
        ray: &Ray,
        hit_record: &HitRecord,
        scatter: &mut Scatter,
        mirror: &M,
    ) -> (r: u32)
        requires
            call_requires(*mirror, (ray, hit_record, self.data.w)),
        ensures
            exists|reflection: Reflection| #[trigger]
                call_ensures(*mirror, (ray, hit_record, self.data.w), reflection) && match self.metal_outcome(
                    *ray,
                    *hit_record,
                    reflection,
                ) {
                    Some(s) => r == 1 && *final(scatter) == s,
                    None => r == 0 && *final(scatter) == *old(scatter),
                },
    {
        let fuzz = self.data.w;
        let reflection = mirror(ray, hit_record, fuzz);
        proof {
            assert(call_ensures(*mirror, (ray, hit_record, self.data.w), reflection));
        }
        if Scalar::zero().lt(reflection.facing) {
            *scatter = Scatter {
                color: self.albedo(),
                ray: Ray {
                    origin: hit_record.position,
                    direction: reflection.direction,
                    time: ray.time,
                },
            };
            1
        } else {
            0
        }
    }

    /// Scatters off a dielectric; always succeeds, so returns 1, and dims
    /// nothing.
    ///
    /// The refraction ratio is the inverse of the index where the hit is on
    /// the front face, the ray entering the medium, and the index itself
    /// where the ray leaves it: `refraction` computes the ray at the face
    /// from the ray, the hit, the index and the flag that says to take the
    /// inverse. `uniform` draws a number from `[0, 1)`, and is called only
    /// where a refracted ray exists.
    pub fn dielectric_scatter<R: Fn(&Ray, &HitRecord, Scalar, bool) -> Refraction, U: Fn() -> Scalar>(
        &self,
        ray: &Ray,
        hit_record: &HitRecord,
        scatter: &mut Scatter,
        refraction: &R,
        uniform: &U,
    ) -> (r: u32)
        requires
            call_requires(*refraction, (ray, hit_record, self.data.x, hit_record.front_face@)),
            call_requires(*uniform, ()),
        ensures
            r == 1,
            exists|at_face: Refraction| #[trigger]
                call_ensures(
                    *refraction,
                    (ray, hit_record, self.data.x, hit_record.front_face@),
                    at_face,
                ) && {
                    ||| at_face.total() && *final(scatter) == Self::dielectric_outcome(
                        *ray,
                        *hit_record,
                        at_face.reflected,
                    )
                    ||| !at_face.total() && exists|sample: Scalar| #[trigger]
                        call_ensures(*uniform, (), sample) && *final(scatter)
                            == Self::dielectric_outcome(
                            *ray,
                            *hit_record,
                            at_face.spec_pick(sample),
                        )
                },
    {
        let ir = self.data.x;
        let inverse = hit_record.front_face.get();
        let at_face = refraction(ray, hit_record, ir, inverse);
        let direction = if at_face.is_total() {
            at_face.reflected
        } else {
            let sample = uniform();
            proof {
                assert(call_ensures(*uniform, (), sample));
            }
            at_face.pick(sample)
        };
        *scatter = Scatter {
            color: Vec3::splat(Scalar::one()),
            ray: Ray { origin: hit_record.position, direction, time: ray.time },
        };
        proof {
            assert(call_ensures(
                    *refraction,
                    (ray, hit_record, self.data.x, hit_record.front_face@),
                    at_face,
                ));
        }
        1
    }

    /// Whether `after` is what a material of this kind can make of the ray,
    /// with `r` telling whether it scattered, for some values that the
    /// kernels return.
    pub open spec fn scatters<
        D: Fn(&HitRecord) -> Vec3,
        M: Fn(&Ray, &HitRecord, Scalar) -> Reflection,
        R: Fn(&Ray, &HitRecord, Scalar, bool) -> Refraction,
        U: Fn() -> Scalar,
    >(
        &self,
        ray: Ray,
        hit_record: HitRecord,
        before: Scatter,
        after: Scatter,
        r: u32,
        diffuse: D,
        mirror: M,
        refraction: R,
        uniform: U,
    ) -> bool {
        match self.spec_kind() {
            MaterialKind::Lambertian => r == 1 && exists|drawn: Vec3| #[trigger]
                call_ensures(diffuse, (&hit_record,), drawn) && after == self.lambertian_outcome(
                    ray,
                    hit_record,
                    drawn,
                ),
            MaterialKind::Metal => exists|reflection: Reflection| #[trigger]
                call_ensures(mirror, (&ray, &hit_record, self.data.w), reflection)
                    && match self.metal_outcome(ray, hit_record, reflection) {
                    Some(s) => r == 1 && after == s,
                    None => r == 0 && after == before,
                },
            MaterialKind::Dielectric => r == 1 && exists|at_face: Refraction| #[trigger]
                call_ensures(
                    refraction,
                    (&ray, &hit_record, self.data.x, hit_record.front_face@),
                    at_face,
                ) && {
                    ||| at_face.total() && after == Self::dielectric_outcome(
                        ray,
                        hit_record,
                        at_face.reflected,
                    )
                    ||| !at_face.total() && exists|sample: Scalar| #[trigger]
                        call_ensures(uniform, (), sample) && after == Self::dielectric_outcome(
                            ray,
                            hit_record,
                            at_face.spec_pick(sample),
                        )
                },
        }
    }

    /// Scatters the ray off the material, as its tag says: returns 1 and
    /// sets `scatter` where the ray goes on, 0 where it is absorbed.
    pub fn scatter<
        D: Fn(&HitRecord) -> Vec3,
        M: Fn(&Ray, &HitRecord, Scalar) -> Reflection,
        R: Fn(&Ray, &HitRecord, Scalar, bool) -> Refraction,
        U: Fn() -> Scalar,
    >(
        &self,
        ray: &Ray,
        hit_record: &HitRecord,
        scatter: &mut Scatter,
        diffuse: &D,
        mirror: &M,
        refraction: &R,
        uniform: &U,
    ) -> (r: u32)
        requires
            call_requires(*diffuse, (hit_record,)),
            call_requires(*mirror, (ray, hit_record, self.data.w)),
            call_requires(*refraction, (ray, hit_record, self.data.x, hit_record.front_face@)),
            call_requires(*uniform, ()),
        ensures
            self.scatters(
                *ray,
                *hit_record,
                *old(scatter),
                *final(scatter),
                r,
                *diffuse,
                *mirror,
                *refraction,
                *uniform,
            ),
            self.spec_kind() != MaterialKind::Metal ==> r == 1,
            r == 0 || r == 1,
            r == 0 ==> *final(scatter) == *old(scatter),
    {
        match self.t {
            0 => self.lambertian_scatter(ray, hit_record, scatter, diffuse),
            1 => self.metal_scatter(ray, hit_record, scatter, mirror),
            _ => self.dielectric_scatter(ray, hit_record, scatter, refraction, uniform),
        }
    }
}

impl Default for EnumMaterial {
    fn default() -> (r: EnumMaterial)
        ensures
            r == EnumMaterial::blank(),
    {
        EnumMaterial { data: Vec4::default(), t: 0 }
    }
}

impl Scatter {
    /// The scatter of zeros.
    pub open spec fn blank() -> Scatter {
        let zero = Scalar { bits: 0 };
        Scatter { color: Vec3 { x: zero, y: zero, z: zero }, ray: Ray::blank() }
    }
}

impl Default for Scatter {
    fn default() -> (r: Scatter)
        ensures
            r == Scatter::blank(),
    {
        Scatter { color: Vec3::default(), ray: Ray::default() }
    }
}

/// A diffuse surface dims by its albedo and a dielectric by nothing, so
/// neither adds light: the colour of their scatter is at most 1 on each
/// channel, for a diffuse surface whose parameters are in order.
pub proof fn lemma_no_gain(
    material: EnumMaterial,
    ray: Ray,
    hit_record: HitRecord,
    drawn: Vec3,
    direction: Vec3,
)
    ensures
        material.lambertian_outcome(ray, hit_record, drawn).color == material.spec_albedo(),
        material.spec_albedo().le(white()) ==> material.lambertian_outcome(
            ray,
            hit_record,
            drawn,
        ).color.le(white()),
        material.spec_kind() == MaterialKind::Lambertian && material.wf()
            ==> material.lambertian_outcome(ray, hit_record, drawn).color.le(white()),
        EnumMaterial::dielectric_outcome(ray, hit_record, direction).color.le(white()),
{
}

} // verus!
