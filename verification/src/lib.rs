//! The core of a small path tracer for scenes of spheres: the records that
//! describe a scene, a bounding-volume hierarchy over them, the search for
//! the closest hit of a ray, the scattering of the three materials, and the
//! path of light that ties them together.
//!
//! Every real number is held as the bit pattern of an IEEE-754 binary32 value
//! (`scalar::Scalar`). What depends on order and sign alone is decided here,
//! on the bits: which root of a sphere counts, whether a window of ray
//! parameters is empty, which side of a surface was hit, whether a ray is
//! reflected or refracted. Arithmetic is done by the caller, who hands it in
//! as kernels: functions from records to records, such as "this ray against
//! the planes of that box". A function that takes a kernel says what it
//! makes of whatever the kernel returns.
//!
//! - `scalar`, `vec3`, `ray`, `bool32`: numbers, vectors, rays and truth
//!   values as they lie in a buffer.
//! - `aabb`, `sphere`, `hittable`: the slab test, the choice of a root, and
//!   the record of a hit.
//! - `bvh`, `stack`: the nodes of the hierarchy and its traversal with a
//!   stack of fixed size.
//! - `pod`, `hierarchy`: the records of a scene and the builder of the
//!   hierarchy, with what a finished hierarchy is.
//! - `nearest`: the traversal against the brute-force search.
//! - `material`, `path`, `integrator`: scattering, the states of a path, and
//!   the colour that a path brings back.
//! - `frame`: the sizes of the buffer of an image and the batches of
//!   samples.

pub mod bool32;
pub mod scalar;
pub mod vec3;
pub mod ray;
pub mod aabb;
pub mod material;
pub mod hittable;
pub mod sphere;
pub mod stack;
pub mod bvh;
pub mod rearranged;
pub mod hierarchy;
pub mod pod;
pub mod nearest;
pub mod path;
pub mod integrator;
pub mod frame;

use vstd::prelude::*;

verus! {

/// The width of a work group of the compute pass.
pub const NUM_THREADS_X: u32 = 8;

/// The height of a work group of the compute pass.
pub const NUM_THREADS_Y: u32 = 8;

/// What every invocation of a pass is told: the size of the image in pixels
/// and the seed of the pass.
#[derive(Clone, Copy, Debug, PartialEq, Eq, Structural)]
pub struct ShaderConstants {
    pub width: u32,
    pub height: u32,
    pub seed: u32,
}

/// What one invocation of the compute pass works with: the seed of its
/// generator and the place of its pixel in the output.
#[derive(Clone, Copy, Debug, PartialEq, Eq, Structural)]
pub struct Invocation {
    pub seed: u32,
    pub index: usize,
}

impl ShaderConstants {
    /// Whether the image has no more pixels than a word counts.
    pub open spec fn wf(&self) -> bool {
        self.width * self.height <= u32::MAX
    }

    /// Whether the pixel is in the image.
    pub open spec fn contains(&self, x: u32, y: u32) -> bool {
        x < self.width && y < self.height
    }

    /// The number of the pixel, counted along the rows from the top.
    pub open spec fn pixel(&self, x: u32, y: u32) -> int {
        self.width * y + x
    }

    /// The seed of the generator of a pixel: the seed of the pass, with the
    /// number of the pixel mixed in.
    pub open spec fn spec_pixel_seed(&self, x: u32, y: u32) -> u32 {
        self.seed ^ (self.pixel(x, y) as u32)
    }

    /// The place of a pixel in the output, whose rows run from the bottom.
    pub open spec fn spec_output_index(&self, x: u32, y: u32) -> int {
        (self.height - y - 1) * self.width + x
    }

    /// The seed of the generator of a pixel of the image.
    #[verifier::when_used_as_spec(spec_pixel_seed)]
    pub fn pixel_seed(&self, x: u32, y: u32) -> (seed: u32)
        requires
            self.wf(),
            self.contains(x, y),
        ensures
            seed == self.spec_pixel_seed(x, y),
    {
        proof {
            lemma_pixel_in_image(*self, x, y);
        }
        self.seed ^ (self.width * y + x)
    }

    /// What the invocation for pixel `(x, y)` works with; none for an
    /// invocation outside the image, which has nothing to do.
    pub fn invocation(&self, x: u32, y: u32) -> (r: Option<Invocation>)
        requires
            self.wf(),
        ensures
            r.is_some() == self.contains(x, y),
            r matches Some(inv) ==> inv.seed == self.spec_pixel_seed(x, y) && inv.index
                == self.spec_output_index(x, y) && inv.index < self.width * self.height,
    {
        if x >= self.width {
            return None;
        }
        if y >= self.height {
            return None;
        }
        proof {
            lemma_pixel_in_image(*self, x, y);
        }
        let seed = self.pixel_seed(x, y);
        let index = ((self.height - y - 1) * self.width + x) as usize;
        Some(Invocation { seed, index })
    }

    /// What the number of an instance adds to a seed: 1024 times the number,
    /// and the greatest word where that is more than a word holds.
    pub open spec fn instance_word(instance_index: u32) -> u32 {
        if 1024 * instance_index <= u32::MAX {
            (1024 * instance_index) as u32
        } else {
            u32::MAX
        }
    }

    /// The seed of the generator of one sample of a pixel in the render
    /// pass: the seed of the pass, with the word of the instance and the
    /// number of the pixel mixed in.
    pub fn fragment_seed(&self, instance_index: u32, x: u32, y: u32) -> (seed: u32)
        requires
            self.wf(),
            self.contains(x, y),
        ensures
            seed == self.seed ^ Self::instance_word(instance_index) ^ (self.pixel(x, y) as u32),
    {
        proof {
            lemma_pixel_in_image(*self, x, y);
        }
        let instance: u32 = if instance_index > u32::MAX / 1024 {
            u32::MAX
        } else {
            1024 * instance_index
        };
        self.seed ^ instance ^ (self.width * y + x)
    }
}

/// The corner of the triangle that covers the screen, for a vertex index:
/// 2 along the first axis where the index is odd, and 2 along the second
/// where its second bit is set, in units of the screen.
pub open spec fn spec_fullscreen_uv(vert_idx: i32) -> (i32, i32) {
    (
        if vert_idx & 1 == 1 {
            2
        } else {
            0
        },
        if vert_idx & 2 == 2 {
            2
        } else {
            0
        },
    )
}

/// The corner of the triangle that covers the screen, for a vertex index.
#[verifier::when_used_as_spec(spec_fullscreen_uv)]
pub fn fullscreen_uv(vert_idx: i32) -> (uv: (i32, i32))
    ensures
        uv == spec_fullscreen_uv(vert_idx),
{
    assert(((vert_idx << 1) & 2) == (if vert_idx & 1 == 1 {
        2i32
    } else {
        0i32
    })) by (bit_vector);
    assert((vert_idx & 2) == (if vert_idx & 2 == 2 {
        2i32
    } else {
        0i32
    })) by (bit_vector);
    ((vert_idx << 1) & 2, vert_idx & 2)
}

/// The three vertices of the triangle have the corners `(0, 0)`, `(2, 0)`
/// and `(0, 2)`: a triangle of which the screen is the lower left quarter.
pub proof fn lemma_fullscreen_triangle()
    ensures
        spec_fullscreen_uv(0) == (0i32, 0i32),
        spec_fullscreen_uv(1) == (2i32, 0i32),
        spec_fullscreen_uv(2) == (0i32, 2i32),
{
    assert(0i32 & 1 == 0 && 0i32 & 2 == 0) by (bit_vector);
    assert(1i32 & 1 == 1 && 1i32 & 2 == 0) by (bit_vector);
    assert(2i32 & 1 == 0 && 2i32 & 2 == 2) by (bit_vector);
}

/// A pixel of the image has a number and a place in the output below the
/// number of pixels.
pub proof fn lemma_pixel_in_image(c: ShaderConstants, x: u32, y: u32)
    requires
        c.wf(),
        c.contains(x, y),
    ensures
        0 <= c.pixel(x, y) < c.width * c.height,
        0 <= c.spec_output_index(x, y) < c.width * c.height,
        (c.height - y - 1) * c.width >= 0,
        c.width * y <= u32::MAX,
{
    assert(c.width * y + c.width <= c.width * c.height) by (nonlinear_arith)
        requires
            y < c.height,
            0 <= c.width,
    ;
    assert((c.height - y - 1) * c.width + c.width <= c.width * c.height) by (nonlinear_arith)
        requires
            y < c.height,
            0 <= c.width,
    ;
    assert((c.height - y - 1) * c.width >= 0) by (nonlinear_arith)
        requires
            y < c.height,
            0 <= c.width,
    ;
    assert(c.width * y >= 0) by (nonlinear_arith)
        requires
            0 <= y,
            0 <= c.width,
    ;
}

/// No two pixels of the image share a place in the output.
pub proof fn lemma_places_differ(c: ShaderConstants, x: u32, y: u32, u: u32, v: u32)
    requires
        c.contains(x, y),
        c.contains(u, v),
        c.spec_output_index(x, y) == c.spec_output_index(u, v),
    ensures
        x == u,
        y == v,
{
    let w = c.width as int;
    let a = c.height - y - 1;
    let b = c.height - v - 1;
    if a < b {
        assert(a * w + w <= b * w) by (nonlinear_arith)
            requires
                a + 1 <= b,
                0 <= w,
        ;
    } else if b < a {
        assert(b * w + w <= a * w) by (nonlinear_arith)
            requires
                b + 1 <= a,
                0 <= w,
        ;
    }
}

} // verus!
