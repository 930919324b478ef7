use vstd::prelude::*;
use crate::material::EnumMaterial;
use crate::scalar::Scalar;
use crate::sphere::Sphere;
use crate::vec3::{Vec3, Vec4};

pub mod bvh;

verus! {

/// A material as it lies in a buffer: eight words, the last three unused.
#[derive(Clone, Copy, Debug)]
pub struct EnumMaterialPod {
    data: [Scalar; 4],
    t: u32,
    _pad: [Scalar; 3],
}

/// A sphere as it lies in a buffer: sixteen words, with the centre and the
/// radius each padded to four.
#[derive(Clone, Copy, Debug)]
pub struct SpherePod {
    center: [Scalar; 3],
    _pad0: Scalar,
    radius: Scalar,
    _pad1: [Scalar; 3],
    material: EnumMaterialPod,
}

impl View for EnumMaterialPod {
    type V = EnumMaterial;

    /// The material that the record holds.
    closed spec fn view(&self) -> EnumMaterial {
        EnumMaterial {
            data: Vec4 { x: self.data@[0], y: self.data@[1], z: self.data@[2], w: self.data@[3] },
            t: self.t,
        }
    }
}

impl View for SpherePod {
    type V = Sphere;

    /// The sphere that the record holds.
    closed spec fn view(&self) -> Sphere {
        Sphere {
            center: Vec3 { x: self.center@[0], y: self.center@[1], z: self.center@[2] },
            radius: self.radius,
            material: self.material@,
        }
    }
}

impl EnumMaterialPod {
    /// Whether the unused words are zero.
    pub closed spec fn padded(&self) -> bool {
        self._pad@[0].bits == 0 && self._pad@[1].bits == 0 && self._pad@[2].bits == 0
    }

    /// A diffuse surface.
    pub fn new_lambertian(albedo: Vec3) -> (r: EnumMaterialPod)
        ensures
            r@ == (EnumMaterial {
                data: Vec4 { x: albedo.x, y: albedo.y, z: albedo.z, w: Scalar { bits: 0 } },
                t: 0,
            }),
            r.padded(),
    {
        let zero = Scalar::zero();
        EnumMaterialPod { data: [albedo.x, albedo.y, albedo.z, zero], t: 0, _pad: [zero, zero, zero] }
    }

    /// A metal; `fuzz` blurs its reflection.
    pub fn new_metal(albedo: Vec3, fuzz: Scalar) -> (r: EnumMaterialPod)
        ensures
            r@ == (EnumMaterial {
                data: Vec4 { x: albedo.x, y: albedo.y, z: albedo.z, w: fuzz },
                t: 1,
            }),
            r.padded(),
    {
        let zero = Scalar::zero();
        EnumMaterialPod { data: [albedo.x, albedo.y, albedo.z, fuzz], t: 1, _pad: [zero, zero, zero] }
    }

    /// A dielectric with refraction index `ir`.
    pub fn new_dielectric(ir: Scalar) -> (r: EnumMaterialPod)
        ensures
            r@ == (EnumMaterial {
                data: Vec4 {
                    x: ir,
                    y: Scalar { bits: 0 },
                    z: Scalar { bits: 0 },
                    w: Scalar { bits: 0 },
                },
                t: 2,
            }),
            r.padded(),
    {
        let zero = Scalar::zero();
        EnumMaterialPod { data: [ir, zero, zero, zero], t: 2, _pad: [zero, zero, zero] }
    }

    /// The material as the tracer reads it.
    pub fn material(&self) -> (r: EnumMaterial)
        ensures
            r == self@,
    {
        EnumMaterial {
            data: Vec4 { x: self.data[0], y: self.data[1], z: self.data[2], w: self.data[3] },
            t: self.t,
        }
    }
}

impl Default for EnumMaterialPod {
    fn default() -> (r: EnumMaterialPod)
        ensures
            r@.t == 0,
            r@.data.x.bits == 0 && r@.data.y.bits == 0 && r@.data.z.bits == 0 && r@.data.w.bits
                == 0,
            r.padded(),
    {
        let zero = Scalar::zero();
        EnumMaterialPod { data: [zero, zero, zero, zero], t: 0, _pad: [zero, zero, zero] }
    }
}

impl SpherePod {
    /// Whether the unused words are zero.
    pub closed spec fn padded(&self) -> bool {
        &&& self._pad0.bits == 0
        &&& self._pad1@[0].bits == 0 && self._pad1@[1].bits == 0 && self._pad1@[2].bits == 0
        &&& self.material.padded()
    }

    /// The record of a sphere, with its padding zero.
    pub fn new(center: Vec3, radius: Scalar, material: EnumMaterialPod) -> (r: SpherePod)
        ensures
            r@ == (Sphere { center, radius, material: material@ }),
            material.padded() ==> r.padded(),
    {
        let zero = Scalar::zero();
        SpherePod {
            center: [center.x, center.y, center.z],
            _pad0: zero,
            radius,
            _pad1: [zero, zero, zero],
            material,
        }
    }

    /// The centre of the sphere.
    pub fn center(&self) -> (r: Vec3)
        ensures
            r == self@.center,
    {
        Vec3::new(self.center[0], self.center[1], self.center[2])
    }

    /// The radius of the sphere.
    pub fn radius(&self) -> (r: Scalar)
        ensures
            r == self@.radius,
    {
        self.radius
    }

    /// The sphere as the tracer reads it.
    pub fn sphere(&self) -> (r: Sphere)
        ensures
            r == self@,
    {
        Sphere {
            center: Vec3::new(self.center[0], self.center[1], self.center[2]),
            radius: self.radius,
            material: self.material.material(),
        }
    }
}

/// The eight words of a material in a buffer: its four parameters, its tag,
/// and three words of zero.
pub open spec fn material_words(m: EnumMaterial) -> Seq<u32> {
    seq![m.data.x.bits, m.data.y.bits, m.data.z.bits, m.data.w.bits, m.t, 0, 0, 0]
}

/// The material that eight words of a buffer hold.
pub open spec fn material_of(words: Seq<u32>) -> EnumMaterial {
    EnumMaterial {
        data: Vec4 {
            x: Scalar { bits: words[0] },
            y: Scalar { bits: words[1] },
            z: Scalar { bits: words[2] },
            w: Scalar { bits: words[3] },
        },
        t: words[4],
    }
}

/// The sixteen words of a sphere in a buffer: the centre and a word of
/// zero, the radius and three words of zero, and the material.
pub open spec fn sphere_words(s: Sphere) -> Seq<u32> {
    seq![
        s.center.x.bits,
        s.center.y.bits,
        s.center.z.bits,
        0,
        s.radius.bits,
        0,
        0,
        0,
    ] + material_words(s.material)
}

/// The sphere that sixteen words of a buffer hold.
pub open spec fn sphere_of(words: Seq<u32>) -> Sphere {
    Sphere {
        center: Vec3 {
            x: Scalar { bits: words[0] },
            y: Scalar { bits: words[1] },
            z: Scalar { bits: words[2] },
        },
        radius: Scalar { bits: words[4] },
        material: material_of(words.subrange(8, 16)),
    }
}

impl EnumMaterialPod {
    /// The record as words, in the order in which they lie in a buffer.
    pub fn words(&self) -> (w: [u32; 8])
        ensures
            material_of(w@) == self@,
            self.padded() ==> w@ == material_words(self@),
    {
        let w = [
            self.data[0].bits,
            self.data[1].bits,
            self.data[2].bits,
            self.data[3].bits,
            self.t,
            self._pad[0].bits,
            self._pad[1].bits,
            self._pad[2].bits,
        ];
        assert(self.padded() ==> w@ =~= material_words(self@));
        w
    }

    /// The record that the words of a buffer hold.
    pub fn from_words(w: &[u32; 8]) -> (r: EnumMaterialPod)
        ensures
            r@ == material_of(w@),
            r.padded() == (w@[5] == 0 && w@[6] == 0 && w@[7] == 0),
    {
        EnumMaterialPod {
            data: [
                Scalar { bits: w[0] },
                Scalar { bits: w[1] },
                Scalar { bits: w[2] },
                Scalar { bits: w[3] },
            ],
            t: w[4],
            _pad: [Scalar { bits: w[5] }, Scalar { bits: w[6] }, Scalar { bits: w[7] }],
        }
    }
}

impl SpherePod {
    /// The record as words, in the order in which they lie in a buffer.
    pub fn words(&self) -> (w: [u32; 16])
        ensures
            sphere_of(w@) == self@,
            self.padded() ==> w@ == sphere_words(self@),
    {
        let m = self.material.words();
        let w = [
            self.center[0].bits,
            self.center[1].bits,
            self.center[2].bits,
            self._pad0.bits,
            self.radius.bits,
            self._pad1[0].bits,
            self._pad1[1].bits,
            self._pad1[2].bits,
            m[0],
            m[1],
            m[2],
            m[3],
            m[4],
            m[5],
            m[6],
            m[7],
        ];
        assert(w@.subrange(8, 16) =~= m@);
        assert(self.padded() ==> w@ =~= sphere_words(self@));
        w
    }

    /// The record that the words of a buffer hold.
    pub fn from_words(w: &[u32; 16]) -> (r: SpherePod)
        ensures
            r@ == sphere_of(w@),
    {
        let m = [w[8], w[9], w[10], w[11], w[12], w[13], w[14], w[15]];
        assert(m@ =~= w@.subrange(8, 16));
        SpherePod {
            center: [Scalar { bits: w[0] }, Scalar { bits: w[1] }, Scalar { bits: w[2] }],
            _pad0: Scalar { bits: w[3] },
            radius: Scalar { bits: w[4] },
            _pad1: [Scalar { bits: w[5] }, Scalar { bits: w[6] }, Scalar { bits: w[7] }],
            material: EnumMaterialPod::from_words(&m),
        }
    }
}

/// A sphere and a material come back from their words as they went in: the
/// padding takes nothing of them.
pub proof fn lemma_words_keep_the_record(s: Sphere)
    ensures
        sphere_of(sphere_words(s)) == s,
        material_of(material_words(s.material)) == s.material,
        sphere_words(s).len() == 16,
        material_words(s.material).len() == 8,
{
    assert(sphere_words(s).subrange(8, 16) =~= material_words(s.material));
}

} // verus!
