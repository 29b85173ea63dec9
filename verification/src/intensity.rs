//! Intensity kernels: photon counts per pixel.
//!
//! Raw strips are decoded photon by photon, adding one count at the landing
//! pixel (registration is folded into the landing coordinate). Compressed
//! strips already hold a dense 16-bit intensity image directly *before* the
//! declared strip offset, so decoding is a copy, and registration is a
//! post-decode cyclic roll. Plain-tiff strips hold the dense image at the
//! strip offset itself. Mask reductions sum photon counts under a boolean
//! region of interest without materialising the image.

use vstd::prelude::*;
use crate::bytes::{le16_seq, le64_seq, read_u16, read_u64};
use crate::dimensions::{rolled, shift_coord, shift_pix};
use crate::frame::{Frame, Mask, MAX_FRAME_PIXELS};
use crate::photon::{
    dest_pix, hit_count, lemma_dest_pix_bounds, lemma_mask_counts_bounded, mask_hits, photon_to_x,
    photon_to_y,
};
use crate::summation::masked_sum;

verus! {

/// The photon words of a raw strip of `strip_bytes` bytes at `off`.
pub open spec fn strip_words(data: Seq<u8>, off: int, strip_bytes: int) -> Seq<u64> {
    le64_seq(data, off, strip_bytes / 8)
}

/// The dense 16-bit image of `n` pixels at byte offset `off`.
pub open spec fn strip_image(data: Seq<u8>, off: int, n: int) -> Seq<u16> {
    le16_seq(data, off, n)
}

/// A 16-bit counter after `c` more photons, with the counter's wraparound.
pub open spec fn add16(a: u16, c: nat) -> u16 {
    ((a + c) % 0x1_0000) as u16
}

/// The image `init` after adding the photons of `ws`, registered by
/// `(dy, dx)`, pixel counts wrapping at 16 bits.
pub open spec fn added_intensity(
    init: Seq<u16>,
    ws: Seq<u64>,
    dy: int,
    dx: int,
    h: int,
    w: int,
) -> Seq<u16> {
    Seq::new((h * w) as nat, |p: int| add16(init[p], hit_count(ws, dy, dx, h, w, p)))
}

/// Increments a 16-bit counter, wrapping at 16 bits.
pub(crate) fn wrap_inc(a: u16) -> (r: u16)
    ensures
        r == add16(a, 1),
{
    proof {
        if a == 0xFFFF {
            assert((a + 1) % 0x1_0000 == 0);
        } else {
            vstd::arithmetic::div_mod::lemma_small_mod((a + 1) as nat, 0x1_0000);
        }
    }
    if a == 0xFFFF {
        0
    } else {
        a + 1
    }
}

/// The flattened pixel a photon word lands on under shift `(dy, dx)`.
pub(crate) fn photon_dest(ph: u64, dy: i32, dx: i32, h: usize, w: usize) -> (q: usize)
    requires
        0 < h,
        0 < w,
        h * w <= MAX_FRAME_PIXELS,
    ensures
        q == dest_pix(ph, dy as int, dx as int, h as int, w as int),
        q < h * w,
{
    proof {
        crate::frame::lemma_dims_le_pixels(h as int, w as int);
    }
    let y: u64 = shift_coord(photon_to_y(ph), dy as i64, h as u64);
    let x: u64 = shift_coord(photon_to_x(ph), dx as i64, w as u64);
    proof {
        crate::dimensions::lemma_pix_compose(y as int, x as int, h as int, w as int);
    }
    (y as usize) * w + (x as usize)
}

/// Decodes a raw strip at `*pos` into `frame` by adding one count per
/// photon at its registered landing pixel; consumes the strip.
pub fn load_array_raw_siff_registered(
    data: &Vec<u8>,
    pos: &mut usize,
    strip_bytes: usize,
    frame: &mut Frame,
    registration: (i32, i32),
)
    requires
        old(frame).wf(),
        *old(pos) + strip_bytes <= data@.len(),
        strip_bytes % 8 == 0,
    ensures
        final(frame).wf(),
        final(frame).height == old(frame).height,
        final(frame).width == old(frame).width,
        final(frame).pixels@ == added_intensity(
            old(frame).pixels@,
            strip_words(data@, *old(pos) as int, strip_bytes as int),
            registration.0 as int,
            registration.1 as int,
            old(frame).height as int,
            old(frame).width as int,
        ),
        *final(pos) == *old(pos) + strip_bytes,
{
    let dlen: usize = data.len();
    let base: usize = *pos;
    let n: usize = strip_bytes / 8;
    let h: usize = frame.height;
    let w: usize = frame.width;
    let ghost init = frame.pixels@;
    let ghost ws = strip_words(data@, base as int, strip_bytes as int);
    let dy = registration.0;
    let dx = registration.1;
    proof {
        assert(ws.len() == n);
    }
    let mut i: usize = 0;
    while i < n
        invariant
            i <= n,
            frame.wf(),
            frame.height == h,
            frame.width == w,
            init.len() == h * w,
            ws.len() == n,
            ws == strip_words(data@, base as int, strip_bytes as int),
            base + strip_bytes <= dlen,
            dlen == data@.len(),
            strip_bytes % 8 == 0,
            n == strip_bytes / 8,
            0 < h,
            0 < w,
            h * w <= MAX_FRAME_PIXELS,
            frame.pixels@ == added_intensity(
                init,
                ws.take(i as int),
                dy as int,
                dx as int,
                h as int,
                w as int,
            ),
        decreases n - i,
    {
        proof {
            assert(8 * i + 8 <= strip_bytes) by (nonlinear_arith)
                requires
                    i < n,
                    n == strip_bytes / 8,
                    strip_bytes % 8 == 0,
            ;
        }
        let ph: u64 = read_u64(data, base + 8 * i);
        let q: usize = photon_dest(ph, dy, dx, h, w);
        let cur: u16 = frame.pixels[q];
        let bumped: u16 = wrap_inc(cur);
        frame.pixels.set(q, bumped);
        proof {
            lemma_step_added_intensity(init, ws, i as int, dy as int, dx as int, h as int, w as int);
            assert(ph == ws[i as int]);
            lemma_add16_chain(
                init[q as int],
                hit_count(ws.take(i as int), dy as int, dx as int, h as int, w as int, q as int),
            );
            assert(cur == add16(
                init[q as int],
                hit_count(ws.take(i as int), dy as int, dx as int, h as int, w as int, q as int),
            ));
            assert(bumped == add16(
                init[q as int],
                hit_count(ws.take(i as int + 1), dy as int, dx as int, h as int, w as int, q as int),
            ));
            assert(frame.pixels@ =~= added_intensity(
                init,
                ws.take(i as int + 1),
                dy as int,
                dx as int,
                h as int,
                w as int,
            ));
        }
        i = i + 1;
    }
    proof {
        assert(ws.take(n as int) =~= ws);
    }
    *pos = base + strip_bytes;
}

/// Adding photons one at a time agrees with adding them at once, despite
/// the 16-bit wraparound.
pub(crate) proof fn lemma_add16_chain(a: u16, c: nat)
    ensures
        add16(add16(a, c), 1) == add16(a, c + 1),
{
    vstd::arithmetic::div_mod::lemma_small_mod(1nat, 0x1_0000);
    vstd::arithmetic::div_mod::lemma_add_mod_noop(a + c, 1, 0x1_0000);
}

/// One decoding step: appending photon `ws[i]` bumps the accumulated image
/// at its landing pixel and leaves every other pixel unchanged.
pub(crate) proof fn lemma_step_added_intensity(
    init: Seq<u16>,
    ws: Seq<u64>,
    i: int,
    dy: int,
    dx: int,
    h: int,
    w: int,
)
    requires
        0 <= i < ws.len(),
        0 < h,
        0 < w,
        init.len() == h * w,
    ensures
        added_intensity(init, ws.take(i + 1), dy, dx, h, w) == added_intensity(
            init,
            ws.take(i),
            dy,
            dx,
            h,
            w,
        ).update(
            dest_pix(ws[i], dy, dx, h, w),
            add16(init[dest_pix(ws[i], dy, dx, h, w)], hit_count(ws.take(i + 1), dy, dx, h, w, dest_pix(ws[i], dy, dx, h, w))),
        ),
        hit_count(ws.take(i + 1), dy, dx, h, w, dest_pix(ws[i], dy, dx, h, w)) == hit_count(
            ws.take(i),
            dy,
            dx,
            h,
            w,
            dest_pix(ws[i], dy, dx, h, w),
        ) + 1,
        0 <= dest_pix(ws[i], dy, dx, h, w) < h * w,
{
    let q = dest_pix(ws[i], dy, dx, h, w);
    lemma_dest_pix_bounds(ws[i], dy, dx, h, w);
    assert(ws.take(i + 1).drop_last() =~= ws.take(i));
    assert(ws.take(i + 1).last() == ws[i]);
    assert forall|p: int| 0 <= p < h * w implies #[trigger] hit_count(ws.take(i + 1), dy, dx, h, w, p)
        == hit_count(ws.take(i), dy, dx, h, w, p) + (if p == q {
        1nat
    } else {
        0nat
    }) by {
        assert(hit_count(ws.take(i + 1), dy, dx, h, w, p) == hit_count(
            ws.take(i + 1).drop_last(),
            dy,
            dx,
            h,
            w,
            p,
        ) + (if dest_pix(ws.take(i + 1).last(), dy, dx, h, w) == p {
            1nat
        } else {
            0nat
        }));
    }
    assert forall|p: int| 0 <= p < h * w && p != q implies #[trigger] add16(
        init[p],
        hit_count(ws.take(i + 1), dy, dx, h, w, p),
    ) == add16(init[p], hit_count(ws.take(i), dy, dx, h, w, p)) by {
    }
    assert(added_intensity(init, ws.take(i + 1), dy, dx, h, w) =~= added_intensity(
        init,
        ws.take(i),
        dy,
        dx,
        h,
        w,
    ).update(q, add16(init[q], hit_count(ws.take(i + 1), dy, dx, h, w, q))));
}

/// Decodes a raw strip without registration.
pub fn load_array_raw_siff(data: &Vec<u8>, pos: &mut usize, strip_bytes: usize, frame: &mut Frame)
    requires
        old(frame).wf(),
        *old(pos) + strip_bytes <= data@.len(),
        strip_bytes % 8 == 0,
    ensures
        final(frame).wf(),
        final(frame).height == old(frame).height,
        final(frame).width == old(frame).width,
        final(frame).pixels@ == added_intensity(
            old(frame).pixels@,
            strip_words(data@, *old(pos) as int, strip_bytes as int),
            0,
            0,
            old(frame).height as int,
            old(frame).width as int,
        ),
        *final(pos) == *old(pos) + strip_bytes,
{
    load_array_raw_siff_registered(data, pos, strip_bytes, frame, (0, 0));
}

/// Sums, over the photons of a raw strip, the mask value at each photon's
/// registered landing pixel; consumes the strip.
pub fn sum_mask_raw_siff_registered(
    data: &Vec<u8>,
    pos: &mut usize,
    strip_bytes: usize,
    frame_sum: &mut u64,
    mask: &Mask,
    registration: (i32, i32),
)
    requires
        mask.wf(),
        *old(pos) + strip_bytes <= data@.len(),
        strip_bytes % 8 == 0,
        *old(frame_sum) + strip_bytes / 8 <= u64::MAX,
    ensures
        *final(frame_sum) == *old(frame_sum) + mask_hits(
            strip_words(data@, *old(pos) as int, strip_bytes as int),
            registration.0 as int,
            registration.1 as int,
            mask.height as int,
            mask.width as int,
            mask.pixels@,
        ),
        *final(pos) == *old(pos) + strip_bytes,
{
    let dlen: usize = data.len();
    let base: usize = *pos;
    let n: usize = strip_bytes / 8;
    let h: usize = mask.height;
    let w: usize = mask.width;
    let ghost init = *frame_sum;
    let ghost ws = strip_words(data@, base as int, strip_bytes as int);
    let dy = registration.0;
    let dx = registration.1;
    let mut i: usize = 0;
    while i < n
        invariant
            i <= n,
            mask.wf(),
            mask.height == h,
            mask.width == w,
            ws.len() == n,
            ws == strip_words(data@, base as int, strip_bytes as int),
            base + strip_bytes <= dlen,
            dlen == data@.len(),
            strip_bytes % 8 == 0,
            n == strip_bytes / 8,
            init + n <= u64::MAX,
            *frame_sum == init + mask_hits(
                ws.take(i as int),
                dy as int,
                dx as int,
                h as int,
                w as int,
                mask.pixels@,
            ),
        decreases n - i,
    {
        proof {
            assert(8 * i + 8 <= strip_bytes) by (nonlinear_arith)
                requires
                    i < n,
                    n == strip_bytes / 8,
                    strip_bytes % 8 == 0,
            ;
            lemma_mask_counts_bounded(
                ws.take(i as int),
                dy as int,
                dx as int,
                h as int,
                w as int,
                mask.pixels@,
            );
        }
        let ph: u64 = read_u64(data, base + 8 * i);
        let q: usize = photon_dest(ph, dy, dx, h, w);
        if mask.pixels[q] {
            *frame_sum = *frame_sum + 1;
        }
        proof {
            assert(ws.take(i + 1).drop_last() =~= ws.take(i as int));
            assert(ws.take(i + 1).last() == ws[i as int]);
        }
        i = i + 1;
    }
    proof {
        assert(ws.take(n as int) =~= ws);
    }
    *pos = base + strip_bytes;
}

/// Sums mask values over a raw strip without registration.
pub fn sum_mask_raw_siff(
    data: &Vec<u8>,
    pos: &mut usize,
    strip_bytes: usize,
    frame_sum: &mut u64,
    mask: &Mask,
)
    requires
        mask.wf(),
        *old(pos) + strip_bytes <= data@.len(),
        strip_bytes % 8 == 0,
        *old(frame_sum) + strip_bytes / 8 <= u64::MAX,
    ensures
        *final(frame_sum) == *old(frame_sum) + mask_hits(
            strip_words(data@, *old(pos) as int, strip_bytes as int),
            0,
            0,
            mask.height as int,
            mask.width as int,
            mask.pixels@,
        ),
        *final(pos) == *old(pos) + strip_bytes,
{
    sum_mask_raw_siff_registered(data, pos, strip_bytes, frame_sum, mask, (0, 0));
}

/// Reads the dense 16-bit image that starts `height * width * 2` bytes
/// before `*pos` (the compressed format's intensity slab) into `frame`,
/// leaving `*pos` where it started.
pub fn load_array_compressed_siff(data: &Vec<u8>, pos: &mut usize, frame: &mut Frame)
    requires
        old(frame).wf(),
        2 * (old(frame).height * old(frame).width) <= *old(pos),
        *old(pos) <= data@.len(),
    ensures
        final(frame).wf(),
        final(frame).height == old(frame).height,
        final(frame).width == old(frame).width,
        final(frame).pixels@ == strip_image(
            data@,
            *old(pos) - 2 * (old(frame).height * old(frame).width),
            (old(frame).height * old(frame).width) as int,
        ),
        *final(pos) == *old(pos),
{
    let dlen: usize = data.len();
    let h: usize = frame.height;
    let w: usize = frame.width;
    let n: usize = h * w;
    let slab: usize = *pos - 2 * n;
    let mut p: usize = 0;
    while p < n
        invariant
            p <= n,
            frame.wf(),
            frame.height == h,
            frame.width == w,
            n == h * w,
            slab + 2 * n <= dlen,
            dlen == data@.len(),
            forall|q: int|
                0 <= q < p ==> frame.pixels@[q] == crate::bytes::le16(data@, slab + 2 * q),
            frame.pixels@.len() == n,
        decreases n - p,
    {
        let v: u16 = read_u16(data, slab + 2 * p);
        frame.pixels.set(p, v);
        p = p + 1;
    }
    proof {
        assert(frame.pixels@ =~= strip_image(data@, slab as int, n as int));
    }
}

/// Reads the compressed intensity slab and applies the cyclic registration
/// roll to the decoded image; `*pos` is left where it started.
pub fn load_array_compressed_siff_registered(
    data: &Vec<u8>,
    pos: &mut usize,
    frame: &mut Frame,
    registration: (i32, i32),
)
    requires
        old(frame).wf(),
        2 * (old(frame).height * old(frame).width) <= *old(pos),
        *old(pos) <= data@.len(),
    ensures
        final(frame).wf(),
        final(frame).height == old(frame).height,
        final(frame).width == old(frame).width,
        final(frame).pixels@ == rolled(
            strip_image(
                data@,
                *old(pos) - 2 * (old(frame).height * old(frame).width),
                (old(frame).height * old(frame).width) as int,
            ),
            registration.0 as int,
            registration.1 as int,
            old(frame).height as int,
            old(frame).width as int,
        ),
        *final(pos) == *old(pos),
{
    load_array_compressed_siff(data, pos, frame);
    roll_frame(frame, registration);
}

/// Rolls a decoded frame cyclically by `(dy, dx)` in place.
pub fn roll_frame(frame: &mut Frame, registration: (i32, i32))
    requires
        old(frame).wf(),
    ensures
        final(frame).wf(),
        final(frame).height == old(frame).height,
        final(frame).width == old(frame).width,
        final(frame).pixels@ == rolled(
            old(frame).pixels@,
            registration.0 as int,
            registration.1 as int,
            old(frame).height as int,
            old(frame).width as int,
        ),
{
    let h: usize = frame.height;
    let w: usize = frame.width;
    let n: usize = h * w;
    let dy = registration.0;
    let dx = registration.1;
    let ghost src_img = frame.pixels@;
    let mut out: Vec<u16> = Vec::new();
    let mut p: usize = 0;
    while p < n
        invariant
            p <= n,
            frame.wf(),
            frame.height == h,
            frame.width == w,
            frame.pixels@ == src_img,
            n == h * w,
            out@.len() == p,
            forall|q: int|
                0 <= q < p ==> out@[q] == src_img[crate::dimensions::roll_source(
                    q,
                    dy as int,
                    dx as int,
                    h as int,
                    w as int,
                )],
        decreases n - p,
    {
        proof {
            crate::frame::lemma_dims_le_pixels(h as int, w as int);
            crate::dimensions::lemma_pix_decompose(p as int, h as int, w as int);
            crate::dimensions::lemma_shift_pix_bounds(
                p as int,
                -(dy as int),
                -(dx as int),
                h as int,
                w as int,
            );
        }
        let y: u64 = shift_coord((p / w) as u64, -(dy as i64), h as u64);
        let x: u64 = shift_coord((p % w) as u64, -(dx as i64), w as u64);
        proof {
            crate::dimensions::lemma_pix_compose(y as int, x as int, h as int, w as int);
        }
        let src: usize = (y as usize) * w + (x as usize);
        out.push(frame.pixels[src]);
        p = p + 1;
    }
    frame.pixels = out;
    proof {
        assert(frame.pixels@ =~= rolled(src_img, dy as int, dx as int, h as int, w as int));
    }
}

/// Sums `count * mask` over the pixels of the compressed intensity slab
/// that precedes `*pos`; `*pos` is left where it started. The shifted mask
/// lookup realises registration as an inverse mask roll.
pub fn sum_mask_compressed_siff_registered(
    data: &Vec<u8>,
    pos: &mut usize,
    frame_sum: &mut u64,
    mask: &Mask,
    registration: (i32, i32),
)
    requires
        mask.wf(),
        2 * (mask.height * mask.width) <= *old(pos),
        *old(pos) <= data@.len(),
        *old(frame_sum) + (mask.height * mask.width) * 0x1_0000 <= u64::MAX,
    ensures
        *final(frame_sum) == *old(frame_sum) + masked_sum(
            |p: int|
                strip_image(
                    data@,
                    *old(pos) - 2 * (mask.height * mask.width),
                    (mask.height * mask.width) as int,
                )[p] as nat,
            |p: int|
                mask.pixels@[shift_pix(
                    p,
                    registration.0 as int,
                    registration.1 as int,
                    mask.height as int,
                    mask.width as int,
                )],
            (mask.height * mask.width) as int,
        ),
        *final(pos) == *old(pos),
{
    let rolled_mask = mask.roll(-(registration.0 as i64), -(registration.1 as i64));
    proof {
        assert forall|p: int| 0 <= p < mask.height * mask.width implies rolled_mask.pixels@[p]
            == mask.pixels@[shift_pix(
            p,
            registration.0 as int,
            registration.1 as int,
            mask.height as int,
            mask.width as int,
        )] by {
            crate::dimensions::lemma_shift_pix_bounds(
                p,
                registration.0 as int,
                registration.1 as int,
                mask.height as int,
                mask.width as int,
            );
        }
    }
    sum_mask_compressed_siff(data, pos, frame_sum, &rolled_mask);
    proof {
        crate::summation::lemma_masked_sum_mask_congruent(
            |p: int|
                strip_image(
                    data@,
                    *old(pos) - 2 * (mask.height * mask.width),
                    (mask.height * mask.width) as int,
                )[p] as nat,
            |p: int| rolled_mask.pixels@[p],
            |p: int|
                mask.pixels@[shift_pix(
                    p,
                    registration.0 as int,
                    registration.1 as int,
                    mask.height as int,
                    mask.width as int,
                )],
            (mask.height * mask.width) as int,
        );
    }
}

/// Sums `count * mask` over the pixels of the compressed intensity slab
/// that precedes `*pos`; `*pos` is left where it started.
pub fn sum_mask_compressed_siff(data: &Vec<u8>, pos: &mut usize, frame_sum: &mut u64, mask: &Mask)
    requires
        mask.wf(),
        2 * (mask.height * mask.width) <= *old(pos),
        *old(pos) <= data@.len(),
        *old(frame_sum) + (mask.height * mask.width) * 0x1_0000 <= u64::MAX,
    ensures
        *final(frame_sum) == *old(frame_sum) + masked_sum(
            |p: int|
                strip_image(
                    data@,
                    *old(pos) - 2 * (mask.height * mask.width),
                    (mask.height * mask.width) as int,
                )[p] as nat,
            |p: int| mask.pixels@[p],
            (mask.height * mask.width) as int,
        ),
        *final(pos) == *old(pos),
{
    let dlen: usize = data.len();
    let h: usize = mask.height;
    let w: usize = mask.width;
    let n: usize = h * w;
    let slab: usize = *pos - 2 * n;
    let ghost img = strip_image(data@, slab as int, n as int);
    let ghost init = *frame_sum;
    let mut p: usize = 0;
    while p < n
        invariant
            p <= n,
            mask.wf(),
            mask.height == h,
            mask.width == w,
            n == h * w,
            slab + 2 * n <= dlen,
            dlen == data@.len(),
            img == strip_image(data@, slab as int, n as int),
            init + n * 0x1_0000 <= u64::MAX,
            *frame_sum == init + masked_sum(
                |q: int| img[q] as nat,
                |q: int| mask.pixels@[q],
                p as int,
            ),
            *frame_sum <= init + p * 0x1_0000,
        decreases n - p,
    {
        let v: u16 = read_u16(data, slab + 2 * p);
        proof {
            assert(v == img[p as int]);
            assert(p * 0x1_0000 + 0x1_0000 == (p + 1) * 0x1_0000) by (nonlinear_arith);
            assert((p + 1) * 0x1_0000 <= n * 0x1_0000) by (nonlinear_arith)
                requires
                    p + 1 <= n,
            ;
        }
        if mask.pixels[p] {
            *frame_sum = *frame_sum + v as u64;
        }
        p = p + 1;
    }
}

/// Reads a plain-tiff dense 16-bit image at `*pos` into `frame`; consumes
/// the strip.
pub fn load_array_tiff(data: &Vec<u8>, pos: &mut usize, frame: &mut Frame)
    requires
        old(frame).wf(),
        *old(pos) + 2 * (old(frame).height * old(frame).width) <= data@.len(),
    ensures
        final(frame).wf(),
        final(frame).height == old(frame).height,
        final(frame).width == old(frame).width,
        final(frame).pixels@ == strip_image(
            data@,
            *old(pos) as int,
            (old(frame).height * old(frame).width) as int,
        ),
        *final(pos) == *old(pos) + 2 * (old(frame).height * old(frame).width),
{
    let dlen: usize = data.len();
    let h: usize = frame.height;
    let w: usize = frame.width;
    let n: usize = h * w;
    let base: usize = *pos;
    let mut p: usize = 0;
    while p < n
        invariant
            p <= n,
            frame.wf(),
            frame.height == h,
            frame.width == w,
            n == h * w,
            base + 2 * n <= dlen,
            dlen == data@.len(),
            forall|q: int|
                0 <= q < p ==> frame.pixels@[q] == crate::bytes::le16(data@, base + 2 * q),
            frame.pixels@.len() == n,
        decreases n - p,
    {
        let v: u16 = read_u16(data, base + 2 * p);
        frame.pixels.set(p, v);
        p = p + 1;
    }
    proof {
        assert(frame.pixels@ =~= strip_image(data@, base as int, n as int));
    }
    *pos = base + 2 * n;
}

/// Reads a plain-tiff dense image and applies the registration roll;
/// consumes the strip.
pub fn load_array_tiff_registered(
    data: &Vec<u8>,
    pos: &mut usize,
    frame: &mut Frame,
    registration: (i32, i32),
)
    requires
        old(frame).wf(),
        *old(pos) + 2 * (old(frame).height * old(frame).width) <= data@.len(),
    ensures
        final(frame).wf(),
        final(frame).height == old(frame).height,
        final(frame).width == old(frame).width,
        final(frame).pixels@ == rolled(
            strip_image(
                data@,
                *old(pos) as int,
                (old(frame).height * old(frame).width) as int,
            ),
            registration.0 as int,
            registration.1 as int,
            old(frame).height as int,
            old(frame).width as int,
        ),
        *final(pos) == *old(pos) + 2 * (old(frame).height * old(frame).width),
{
    load_array_tiff(data, pos, frame);
    roll_frame(frame, registration);
}

} // verus!
