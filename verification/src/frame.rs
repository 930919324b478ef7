use vstd::prelude::*;

verus! {

/// The number of bytes of one pixel: four channels of four bytes.
pub const BYTES_PER_PIXEL: usize = 16;

/// The number of samples that one pass takes of every pixel, at most.
pub const INSTANCE_PER_ITER: usize = 64;

/// The alignment that the device asks of each row of a buffer that a texture
/// is copied to, read from `wgpu::COPY_BYTES_PER_ROW_ALIGNMENT`, which is
/// 256.
#[verifier::external_body]
fn copy_bytes_per_row_alignment() -> (align: usize)
    ensures
        align == 256,
{
    wgpu::COPY_BYTES_PER_ROW_ALIGNMENT as usize
}

/// The sizes of the buffer that a finished image is read back through: the
/// device wants every row to start at a multiple of its alignment, so each
/// row of pixels is followed by padding.
#[derive(Clone, Copy, Debug, PartialEq, Eq, Structural)]
pub struct BufferDimensions {
    pub width: usize,
    pub height: usize,
    pub unpadded_bytes_per_row: usize,
    pub padded_bytes_per_row: usize,
}

/// The least multiple of 256 that is not below `bytes`.
pub open spec fn padded(bytes: int) -> int {
    (bytes + 255) / 256 * 256
}

impl BufferDimensions {
    /// Whether the sizes are those of an image `width` pixels wide.
    pub open spec fn wf(self) -> bool {
        &&& self.unpadded_bytes_per_row == self.width * BYTES_PER_PIXEL
        &&& self.padded_bytes_per_row == padded(self.unpadded_bytes_per_row as int)
    }

    /// The sizes for an image of `width` by `height` pixels. The padded row
    /// has to fit the machine's word.
    pub fn new(width: usize, height: usize) -> (r: BufferDimensions)
        requires
            padded(width * BYTES_PER_PIXEL) <= usize::MAX,
        ensures
            r.width == width,
            r.height == height,
            r.wf(),
    {
        let bytes_per_pixel = BYTES_PER_PIXEL;
        let unpadded_bytes_per_row = width * bytes_per_pixel;
        let align = copy_bytes_per_row_alignment();
        let padded_bytes_per_row_padding = (align - unpadded_bytes_per_row % align) % align;
        let padded_bytes_per_row = unpadded_bytes_per_row + padded_bytes_per_row_padding;
        BufferDimensions { width, height, unpadded_bytes_per_row, padded_bytes_per_row }
    }
}

/// The number of samples that the next pass takes of every pixel, when
/// `n_sampled` of `n_samples` are taken: what is left, and at most
/// `INSTANCE_PER_ITER`.
pub open spec fn spec_next_batch(n_samples: usize, n_sampled: usize) -> usize {
    if n_samples - n_sampled < INSTANCE_PER_ITER {
        (n_samples - n_sampled) as usize
    } else {
        INSTANCE_PER_ITER
    }
}

/// The number of samples that the next pass takes of every pixel.
#[verifier::when_used_as_spec(spec_next_batch)]
pub fn next_batch(n_samples: usize, n_sampled: usize) -> (n: usize)
    requires
        n_sampled <= n_samples,
    ensures
        n == spec_next_batch(n_samples, n_sampled),
{
    let left = n_samples - n_sampled;
    if left < INSTANCE_PER_ITER {
        left
    } else {
        INSTANCE_PER_ITER
    }
}

/// A padded row holds the row, starts the next one at a multiple of 256, and
/// wastes less than 256 bytes.
pub proof fn lemma_padded(bytes: int)
    requires
        0 <= bytes,
    ensures
        padded(bytes) % 256 == 0,
        bytes <= padded(bytes) < bytes + 256,
        bytes % 256 == 0 ==> padded(bytes) == bytes,
{
}

/// While samples are left, a pass takes at least one and never more than are
/// left, so the passes end with exactly `n_samples` taken.
pub proof fn lemma_batches(n_samples: usize, n_sampled: usize)
    requires
        n_sampled < n_samples,
    ensures
        0 < spec_next_batch(n_samples, n_sampled) <= INSTANCE_PER_ITER,
        n_sampled + spec_next_batch(n_samples, n_sampled) <= n_samples,
{
}

} // verus!
