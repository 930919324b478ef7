use vstd::prelude::*;
use crate::scalar::{Scalar, NEAR_ZERO_BITS};

verus! {

/// Three scalars: a point, a direction or a colour.
#[derive(Clone, Copy, Debug, PartialEq, Eq, Structural)]
pub struct Vec3 {
    pub x: Scalar,
    pub y: Scalar,
    pub z: Scalar,
}

impl Vec3 {
    /// The component on axis 0, 1 or 2.
    pub open spec fn spec_axis(self, axis: int) -> Scalar {
        if axis == 0 {
            self.x
        } else if axis == 1 {
            self.y
        } else {
            self.z
        }
    }

    /// Whether any component is a NaN.
    pub open spec fn nan(self) -> bool {
        self.x.nan() || self.y.nan() || self.z.nan()
    }

    /// Each component with its sign flipped.
    pub open spec fn spec_neg(self) -> Vec3 {
        Vec3 { x: self.x.spec_neg(), y: self.y.spec_neg(), z: self.z.spec_neg() }
    }

    /// The smaller component on each axis.
    pub open spec fn spec_min(self, other: Vec3) -> Vec3 {
        Vec3 {
            x: self.x.spec_min(other.x),
            y: self.y.spec_min(other.y),
            z: self.z.spec_min(other.z),
        }
    }

    /// The larger component on each axis.
    pub open spec fn spec_max(self, other: Vec3) -> Vec3 {
        Vec3 {
            x: self.x.spec_max(other.x),
            y: self.y.spec_max(other.y),
            z: self.z.spec_max(other.z),
        }
    }

    /// Whether `self` is at most `other` on every axis.
    pub open spec fn le(self, other: Vec3) -> bool {
        self.x.spec_le(other.x) && self.y.spec_le(other.y) && self.z.spec_le(other.z)
    }

    /// Whether every component is closer to zero than 1e-8.
    pub open spec fn near_zero(self) -> bool {
        let s = Scalar { bits: NEAR_ZERO_BITS };
        self.x.spec_abs().spec_lt(s) && self.y.spec_abs().spec_lt(s) && self.z.spec_abs().spec_lt(
            s,
        )
    }

    /// The vector with the given components.
    pub fn new(x: Scalar, y: Scalar, z: Scalar) -> (r: Vec3)
        ensures
            r == (Vec3 { x, y, z }),
    {
        Vec3 { x, y, z }
    }

    /// The vector whose three components are `s`.
    pub fn splat(s: Scalar) -> (r: Vec3)
        ensures
            r == (Vec3 { x: s, y: s, z: s }),
    {
        Vec3 { x: s, y: s, z: s }
    }

    /// The component on axis 0, 1 or 2.
    #[verifier::when_used_as_spec(spec_axis_usize)]
    pub fn axis(self, axis: usize) -> (r: Scalar)
        requires
            axis < 3,
        ensures
            r == self.spec_axis(axis as int),
    {
        if axis == 0 {
            self.x
        } else if axis == 1 {
            self.y
        } else {
            self.z
        }
    }

    /// The component on axis 0, 1 or 2.
    pub open spec fn spec_axis_usize(self, axis: usize) -> Scalar {
        self.spec_axis(axis as int)
    }

    /// Each component with its sign flipped.
    #[verifier::when_used_as_spec(spec_neg)]
    pub fn neg(self) -> (r: Vec3)
        ensures
            r == self.spec_neg(),
    {
        Vec3 { x: self.x.neg(), y: self.y.neg(), z: self.z.neg() }
    }

    /// The smaller component on each axis.
    #[verifier::when_used_as_spec(spec_min)]
    pub fn min(self, other: Vec3) -> (r: Vec3)
        ensures
            r == self.spec_min(other),
    {
        Vec3 { x: self.x.min(other.x), y: self.y.min(other.y), z: self.z.min(other.z) }
    }

    /// The larger component on each axis.
    #[verifier::when_used_as_spec(spec_max)]
    pub fn max(self, other: Vec3) -> (r: Vec3)
        ensures
            r == self.spec_max(other),
    {
        Vec3 { x: self.x.max(other.x), y: self.y.max(other.y), z: self.z.max(other.z) }
    }

    /// Whether every component is closer to zero than 1e-8.
    #[verifier::when_used_as_spec(near_zero)]
    pub fn is_near_zero(self) -> (r: bool)
        ensures
            r == self.near_zero(),
    {
        let s = Scalar { bits: NEAR_ZERO_BITS };
        self.x.abs().lt(s) && self.y.abs().lt(s) && self.z.abs().lt(s)
    }
}

/// Four scalars: the parameters of a material.
#[derive(Clone, Copy, Debug, PartialEq, Eq, Structural)]
pub struct Vec4 {
    pub x: Scalar,
    pub y: Scalar,
    pub z: Scalar,
    pub w: Scalar,
}

impl Vec4 {
    /// The first three components.
    pub open spec fn spec_xyz(self) -> Vec3 {
        Vec3 { x: self.x, y: self.y, z: self.z }
    }

    /// The first three components.
    #[verifier::when_used_as_spec(spec_xyz)]
    pub fn xyz(self) -> (r: Vec3)
        ensures
            r == self.spec_xyz(),
    {
        Vec3 { x: self.x, y: self.y, z: self.z }
    }
}

impl Default for Vec4 {
    fn default() -> (r: Vec4)
        ensures
            r.x.bits == 0 && r.y.bits == 0 && r.z.bits == 0 && r.w.bits == 0,
    {
        let zero = Scalar { bits: 0 };
        Vec4 { x: zero, y: zero, z: zero, w: zero }
    }
}

/// Four unsigned words: the links of a node of the hierarchy.
#[derive(Clone, Copy, Debug, PartialEq, Eq, Structural)]
pub struct UVec4 {
    pub x: u32,
    pub y: u32,
    pub z: u32,
    pub w: u32,
}

impl Default for Vec3 {
    /// The origin.
    fn default() -> (r: Vec3)
        ensures
            r == (Vec3 { x: Scalar { bits: 0 }, y: Scalar { bits: 0 }, z: Scalar { bits: 0 } }),
    {
        Vec3 { x: Scalar { bits: 0 }, y: Scalar { bits: 0 }, z: Scalar { bits: 0 } }
    }
}

} // verus!
