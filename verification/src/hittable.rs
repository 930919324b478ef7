use vstd::prelude::*;
use crate::bool32::Bool32;
use crate::material::EnumMaterial;
use crate::scalar::Scalar;
use crate::vec3::Vec3;

verus! {

/// Where a ray met a surface.
///
/// `normal` always points against the incoming ray; `front_face` tells
/// whether that is the outward side of the surface.
#[derive(Clone, Copy, Debug, PartialEq, Eq, Structural)]
pub struct HitRecord {
    pub position: Vec3,
    pub normal: Vec3,
    pub material: EnumMaterial,
    pub t: Scalar,
    pub front_face: Bool32,
}

impl HitRecord {
    /// The record of zeros that a search begins with.
    pub open spec fn blank() -> HitRecord {
        let zero = Scalar { bits: 0 };
        let origin = Vec3 { x: zero, y: zero, z: zero };
        HitRecord {
            position: origin,
            normal: origin,
            material: EnumMaterial::blank(),
            t: zero,
            front_face: Bool32::of(false),
        }
    }

    /// The record of a hit at parameter `t`, where `facing` is the dot
    /// product of the ray's direction with the outward normal: the ray meets
    /// the front face if `facing` is negative, and the stored normal is the
    /// outward one turned against the ray.
    pub open spec fn spec_new(
        position: Vec3,
        outward_normal: Vec3,
        t: Scalar,
        facing: Scalar,
        material: EnumMaterial,
    ) -> HitRecord {
        let front_face = facing.spec_lt(Scalar { bits: 0 });
        HitRecord {
            position,
            normal: if front_face {
                outward_normal
            } else {
                outward_normal.spec_neg()
            },
            material,
            t,
            front_face: Bool32::of(front_face),
        }
    }

    /// The record of a hit, with the normal turned against the ray.
    #[verifier::when_used_as_spec(spec_new)]
    pub fn new(
        position: Vec3,
        outward_normal: Vec3,
        t: Scalar,
        facing: Scalar,
        material: EnumMaterial,
    ) -> (r: HitRecord)
        ensures
            r == HitRecord::spec_new(position, outward_normal, t, facing, material),
    {
        let front_face = facing.lt(Scalar::zero());
        let normal = if front_face {
            outward_normal
        } else {
            outward_normal.neg()
        };
        HitRecord { position, normal, t, front_face: Bool32::new(front_face), material }
    }
}

impl Default for HitRecord {
    /// A record of zeros, to be overwritten by the first hit.
    fn default() -> (r: HitRecord)
        ensures
            r == HitRecord::blank(),
    {
        HitRecord {
            position: Vec3::default(),
            normal: Vec3::default(),
            material: EnumMaterial::default(),
            t: Scalar { bits: 0 },
            front_face: Bool32::new(false),
        }
    }
}

} // verus!
