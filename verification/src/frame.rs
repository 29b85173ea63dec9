//! Output containers: 2-D images, per-pixel accumulators, tau-resolved
//! volumes and boolean region-of-interest masks, all stored flat in
//! row-major order.

use vstd::prelude::*;

verus! {

/// Each dimension of a frame is bounded by the frame's pixel count.
pub proof fn lemma_dims_le_pixels(h: int, w: int)
    requires
        0 < h,
        0 < w,
    ensures
        h <= h * w,
        w <= h * w,
{
    vstd::arithmetic::mul::lemma_mul_inequality(1, w, h);
    vstd::arithmetic::mul::lemma_mul_inequality(1, h, w);
    vstd::arithmetic::mul::lemma_mul_is_commutative(h, w);
}

/// The largest pixel count of a single frame the library accepts
/// (`height * width`). Keeps every per-frame index and byte offset well
/// inside `usize` and every slab sum inside `u64`.
pub const MAX_FRAME_PIXELS: u64 = 0x4000_0000;

/// A single 16-bit image of `height` x `width` pixels, row-major.
pub struct Frame {
    pub height: usize,
    pub width: usize,
    pub pixels: Vec<u16>,
}

impl Frame {
    /// Shape and size agree.
    pub open spec fn wf(self) -> bool {
        &&& 0 < self.height
        &&& 0 < self.width
        &&& self.height * self.width <= MAX_FRAME_PIXELS
        &&& self.pixels@.len() == self.height * self.width
    }

    /// An all-zero frame of the given shape.
    pub fn zeros(height: usize, width: usize) -> (r: Frame)
        requires
            0 < height,
            0 < width,
            height * width <= MAX_FRAME_PIXELS,
        ensures
            r.wf(),
            r.height == height,
            r.width == width,
            forall|p: int| 0 <= p < r.pixels@.len() ==> r.pixels@[p] == 0,
    {
        let n: usize = height * width;
        let mut pixels: Vec<u16> = Vec::new();
        let mut i: usize = 0;
        while i < n
            invariant
                i <= n,
                pixels@.len() == i,
                forall|p: int| 0 <= p < i ==> pixels@[p] == 0,
            decreases n - i,
        {
            pixels.push(0);
            i = i + 1;
        }
        Frame { height, width, pixels }
    }

    /// The pixel at row `y`, column `x`.
    pub fn at(&self, y: usize, x: usize) -> (r: u16)
        requires
            self.wf(),
            y < self.height,
            x < self.width,
        ensures
            r == self.pixels@[y * self.width + x],
    {
        proof {
            crate::dimensions::lemma_pix_compose(
                y as int,
                x as int,
                self.height as int,
                self.width as int,
            );
        }
        self.pixels[y * self.width + x]
    }

    /// The sum of all pixels, as photon counts.
    pub fn total(&self) -> (r: u64)
        requires
            self.wf(),
        ensures
            r == crate::summation::index_sum(
                |p: int| self.pixels@[p] as nat,
                self.pixels@.len() as int,
            ),
    {
        let n: usize = self.pixels.len();
        let mut sum: u64 = 0;
        let mut i: usize = 0;
        while i < n
            invariant
                i <= n,
                n == self.pixels@.len(),
                self.wf(),
                sum == crate::summation::index_sum(|p: int| self.pixels@[p] as nat, i as int),
                sum <= i * 0x1_0000,
            decreases n - i,
        {
            proof {
                assert((i + 1) * 0x1_0000 == i * 0x1_0000 + 0x1_0000) by (nonlinear_arith);
                assert(i * 0x1_0000 <= 0x4000_0000 * 0x1_0000) by (nonlinear_arith)
                    requires
                        i <= 0x4000_0000,
                ;
            }
            sum = sum + self.pixels[i] as u64;
            i = i + 1;
        }
        sum
    }
}

/// A per-pixel 64-bit accumulator image (arrival-time sums), row-major.
pub struct FrameU64 {
    pub height: usize,
    pub width: usize,
    pub pixels: Vec<u64>,
}

impl FrameU64 {
    /// Shape and size agree.
    pub open spec fn wf(self) -> bool {
        &&& 0 < self.height
        &&& 0 < self.width
        &&& self.height * self.width <= MAX_FRAME_PIXELS
        &&& self.pixels@.len() == self.height * self.width
    }

    /// An all-zero accumulator of the given shape.
    pub fn zeros(height: usize, width: usize) -> (r: FrameU64)
        requires
            0 < height,
            0 < width,
            height * width <= MAX_FRAME_PIXELS,
        ensures
            r.wf(),
            r.height == height,
            r.width == width,
            forall|p: int| 0 <= p < r.pixels@.len() ==> r.pixels@[p] == 0,
    {
        let n: usize = height * width;
        let mut pixels: Vec<u64> = Vec::new();
        let mut i: usize = 0;
        while i < n
            invariant
                i <= n,
                pixels@.len() == i,
                forall|p: int| 0 <= p < i ==> pixels@[p] == 0,
            decreases n - i,
        {
            pixels.push(0);
            i = i + 1;
        }
        FrameU64 { height, width, pixels }
    }

    /// The accumulator at row `y`, column `x`.
    pub fn at(&self, y: usize, x: usize) -> (r: u64)
        requires
            self.wf(),
            y < self.height,
            x < self.width,
        ensures
            r == self.pixels@[y * self.width + x],
    {
        proof {
            crate::dimensions::lemma_pix_compose(
                y as int,
                x as int,
                self.height as int,
                self.width as int,
            );
        }
        self.pixels[y * self.width + x]
    }
}

/// A boolean region-of-interest mask over a `height` x `width` frame.
pub struct Mask {
    pub height: usize,
    pub width: usize,
    pub pixels: Vec<bool>,
}

impl Mask {
    /// Shape and size agree.
    pub open spec fn wf(self) -> bool {
        &&& 0 < self.height
        &&& 0 < self.width
        &&& self.height * self.width <= MAX_FRAME_PIXELS
        &&& self.pixels@.len() == self.height * self.width
    }

    /// A mask of the given shape with every pixel set to `value`.
    pub fn filled(height: usize, width: usize, value: bool) -> (r: Mask)
        requires
            0 < height,
            0 < width,
            height * width <= MAX_FRAME_PIXELS,
        ensures
            r.wf(),
            r.height == height,
            r.width == width,
            forall|p: int| 0 <= p < r.pixels@.len() ==> r.pixels@[p] == value,
    {
        let n: usize = height * width;
        let mut pixels: Vec<bool> = Vec::new();
        let mut i: usize = 0;
        while i < n
            invariant
                i <= n,
                pixels@.len() == i,
                forall|p: int| 0 <= p < i ==> pixels@[p] == value,
            decreases n - i,
        {
            pixels.push(value);
            i = i + 1;
        }
        Mask { height, width, pixels }
    }

    /// Sets the mask at row `y`, column `x`.
    pub fn set(&mut self, y: usize, x: usize, value: bool)
        requires
            old(self).wf(),
            y < old(self).height,
            x < old(self).width,
        ensures
            final(self).wf(),
            final(self).height == old(self).height,
            final(self).width == old(self).width,
            final(self).pixels@ == old(self).pixels@.update(
                y * old(self).width + x,
                value,
            ),
    {
        proof {
            crate::dimensions::lemma_pix_compose(
                y as int,
                x as int,
                self.height as int,
                self.width as int,
            );
        }
        let idx: usize = y * self.width + x;
        self.pixels.set(idx, value);
    }

    /// The mask at row `y`, column `x`.
    pub fn at(&self, y: usize, x: usize) -> (r: bool)
        requires
            self.wf(),
            y < self.height,
            x < self.width,
        ensures
            r == self.pixels@[y * self.width + x],
    {
        proof {
            crate::dimensions::lemma_pix_compose(
                y as int,
                x as int,
                self.height as int,
                self.width as int,
            );
        }
        self.pixels[y * self.width + x]
    }

    /// The mask rolled cyclically by `(dy, dx)`.
    pub fn roll(&self, dy: i64, dx: i64) -> (r: Mask)
        requires
            self.wf(),
            i64::MIN < dy,
            i64::MIN < dx,
        ensures
            r.wf(),
            r.height == self.height,
            r.width == self.width,
            r.pixels@ == crate::dimensions::rolled(
                self.pixels@,
                dy as int,
                dx as int,
                self.height as int,
                self.width as int,
            ),
    {
        let n: usize = self.height * self.width;
        let mut pixels: Vec<bool> = Vec::new();
        let mut p: usize = 0;
        while p < n
            invariant
                p <= n,
                self.wf(),
                i64::MIN < dy,
                i64::MIN < dx,
                n == self.height * self.width,
                pixels@.len() == p,
                forall|q: int|
                    0 <= q < p ==> pixels@[q] == self.pixels@[crate::dimensions::roll_source(
                        q,
                        dy as int,
                        dx as int,
                        self.height as int,
                        self.width as int,
                    )],
            decreases n - p,
        {
            proof {
                lemma_dims_le_pixels(self.height as int, self.width as int);
                crate::dimensions::lemma_pix_decompose(
                    p as int,
                    self.height as int,
                    self.width as int,
                );
                crate::dimensions::lemma_shift_pix_bounds(
                    p as int,
                    -(dy as int),
                    -(dx as int),
                    self.height as int,
                    self.width as int,
                );
            }
            let y: u64 = crate::dimensions::shift_coord(
                (p / self.width) as u64,
                -dy,
                self.height as u64,
            );
            let x: u64 = crate::dimensions::shift_coord(
                (p % self.width) as u64,
                -dx,
                self.width as u64,
            );
            proof {
                crate::dimensions::lemma_pix_compose(
                    y as int,
                    x as int,
                    self.height as int,
                    self.width as int,
                );
            }
            let src: usize = (y as usize) * self.width + (x as usize);
            pixels.push(self.pixels[src]);
            p = p + 1;
        }
        let r = Mask { height: self.height, width: self.width, pixels };
        proof {
            assert(r.pixels@ =~= crate::dimensions::rolled(
                self.pixels@,
                dy as int,
                dx as int,
                self.height as int,
                self.width as int,
            ));
        }
        r
    }
}

} // verus!
