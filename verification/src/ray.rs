use vstd::prelude::*;
use crate::scalar::Scalar;
use crate::vec3::Vec3;

verus! {

/// A half-line: the points `origin + t * direction`. `time` is carried along
/// and read by nothing here.
#[derive(Clone, Copy, Debug, PartialEq, Eq, Structural)]
pub struct Ray {
    pub origin: Vec3,
    pub direction: Vec3,
    pub time: Scalar,
}

impl Ray {
    /// The ray of zeros.
    pub open spec fn blank() -> Ray {
        let zero = Scalar { bits: 0 };
        let origin = Vec3 { x: zero, y: zero, z: zero };
        Ray { origin, direction: origin, time: zero }
    }
}

impl Default for Ray {
    fn default() -> (r: Ray)
        ensures
            r == Ray::blank(),
    {
        Ray { origin: Vec3::default(), direction: Vec3::default(), time: Scalar { bits: 0 } }
    }
}

} // verus!
