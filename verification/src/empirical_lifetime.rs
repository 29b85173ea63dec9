//! Empirical-lifetime kernels: per-pixel (or per-mask) sums of photon
//! arrival times paired with photon counts.
//!
//! The kernels return integer sums; the empirical mean arrival time is the
//! quotient `tau_sum / count`, a division the caller performs (a pixel with
//! no photons has no mean). For raw strips the sums accumulate photon by
//! photon at the registered landing pixel. For compressed strips a cursor
//! walks the arrival slab in lock-step with the intensity slab: pixel `p`
//! owns the `counts[p]` words after the first `counts_prefix(counts, p)`.

use vstd::prelude::*;
use crate::bytes::{le16_seq, read_u16, read_u64};
use crate::compressed::{counts_prefix, lemma_counts_prefix_monotone, pixel_tau_sum, window_sum};
use crate::dimensions::{rolled, shift_pix};
use crate::frame::{Frame, FrameU64, Mask, MAX_FRAME_PIXELS};
use crate::intensity::{added_intensity, load_array_compressed_siff, strip_image, strip_words};
use crate::photon::{
    dest_pix, hit_count, lemma_counts_bounded, lemma_mask_counts_bounded, lemma_prefix_step,
    mask_hits, mask_tau_sum, photon_to_tau, tau_sum_at,
};
use crate::summation::masked_sum;
use crate::utils::FramesError;

verus! {

/// The largest raw strip the lifetime kernels accept: `2^32` photon words.
/// Keeps every arrival-time accumulator inside `u64`.
pub const MAX_FLIM_STRIP_BYTES: u64 = 0x8_0000_0000;

/// Decodes a raw strip into per-pixel arrival-time sums and photon counts,
/// registered by `(dy, dx)`; consumes the strip. `lifetime` must start
/// zeroed; `intensity` is added to.
pub fn load_flim_raw_siff_registered(
    data: &Vec<u8>,
    pos: &mut usize,
    strip_bytes: usize,
    lifetime: &mut FrameU64,
    intensity: &mut Frame,
    registration: (i32, i32),
)
    requires
        old(lifetime).wf(),
        old(intensity).wf(),
        old(lifetime).height == old(intensity).height,
        old(lifetime).width == old(intensity).width,
        forall|p: int| 0 <= p < old(lifetime).pixels@.len() ==> old(lifetime).pixels@[p] == 0,
        *old(pos) + strip_bytes <= data@.len(),
        strip_bytes % 8 == 0,
        strip_bytes <= MAX_FLIM_STRIP_BYTES,
    ensures
        final(lifetime).wf(),
        final(intensity).wf(),
        final(lifetime).height == old(lifetime).height,
        final(lifetime).width == old(lifetime).width,
        final(intensity).height == old(intensity).height,
        final(intensity).width == old(intensity).width,
        forall|p: int|
            0 <= p < final(lifetime).pixels@.len() ==> #[trigger] final(lifetime).pixels@[p]
                == tau_sum_at(
                strip_words(data@, *old(pos) as int, strip_bytes as int),
                registration.0 as int,
                registration.1 as int,
                old(lifetime).height as int,
                old(lifetime).width as int,
                p,
            ),
        final(intensity).pixels@ == added_intensity(
            old(intensity).pixels@,
            strip_words(data@, *old(pos) as int, strip_bytes as int),
            registration.0 as int,
            registration.1 as int,
            old(intensity).height as int,
            old(intensity).width as int,
        ),
        *final(pos) == *old(pos) + strip_bytes,
{
    let dlen: usize = data.len();
    let base: usize = *pos;
    let n: usize = strip_bytes / 8;
    let h: usize = lifetime.height;
    let w: usize = lifetime.width;
    let ghost init_i = intensity.pixels@;
    let ghost ws = strip_words(data@, base as int, strip_bytes as int);
    let dy = registration.0;
    let dx = registration.1;
    let mut i: usize = 0;
    while i < n
        invariant
            i <= n,
            lifetime.wf(),
            intensity.wf(),
            lifetime.height == h,
            lifetime.width == w,
            intensity.height == h,
            intensity.width == w,
            init_i.len() == h * w,
            ws.len() == n,
            ws == strip_words(data@, base as int, strip_bytes as int),
            base + strip_bytes <= dlen,
            dlen == data@.len(),
            strip_bytes % 8 == 0,
            n == strip_bytes / 8,
            n <= 0x1_0000_0000,
            forall|p: int|
                0 <= p < h * w ==> #[trigger] lifetime.pixels@[p] == tau_sum_at(
                    ws.take(i as int),
                    dy as int,
                    dx as int,
                    h as int,
                    w as int,
                    p,
                ),
            intensity.pixels@ == added_intensity(
                init_i,
                ws.take(i as int),
                dy as int,
                dx as int,
                h as int,
                w as int,
            ),
        decreases n - i,
    {
        proof {
            assert(8 * i + 8 <= strip_bytes) by (nonlinear_arith)
                requires
                    i < n,
                    n == strip_bytes / 8,
                    strip_bytes % 8 == 0,
            ;
        }
        let ph: u64 = read_u64(data, base + 8 * i);
        let q: usize = crate::intensity::photon_dest(ph, dy, dx, h, w);
        let t: u64 = photon_to_tau(ph);
        proof {
            assert(ph == ws[i as int]);
            lemma_prefix_step(ws, i as int, dy as int, dx as int, h as int, w as int);
            lemma_counts_bounded(ws.take(i as int), dy as int, dx as int, h as int, w as int, q as int);
            assert(i * 0xFFFF_FFFF + 0xFFFF_FFFF == (i + 1) * 0xFFFF_FFFF) by (nonlinear_arith);
            assert((i + 1) * 0xFFFF_FFFF <= 0x1_0000_0000 * 0xFFFF_FFFF) by (nonlinear_arith)
                requires
                    i + 1 <= 0x1_0000_0000,
            ;
        }
        let lcur: u64 = lifetime.pixels[q];
        lifetime.pixels.set(q, lcur + t);
        let icur: u16 = intensity.pixels[q];
        let ibumped: u16 = crate::intensity::wrap_inc(icur);
        intensity.pixels.set(q, ibumped);
        proof {
            crate::intensity::lemma_step_added_intensity(
                init_i,
                ws,
                i as int,
                dy as int,
                dx as int,
                h as int,
                w as int,
            );
            crate::intensity::lemma_add16_chain(
                init_i[q as int],
                hit_count(ws.take(i as int), dy as int, dx as int, h as int, w as int, q as int),
            );
            assert(intensity.pixels@ =~= added_intensity(
                init_i,
                ws.take(i as int + 1),
                dy as int,
                dx as int,
                h as int,
                w as int,
            ));
        }
        i = i + 1;
    }
    proof {
        assert(ws.take(n as int) =~= ws);
    }
    *pos = base + strip_bytes;
}

/// Decodes a raw strip into lifetime sums and counts without registration.
pub fn load_flim_raw_siff(
    data: &Vec<u8>,
    pos: &mut usize,
    strip_bytes: usize,
    lifetime: &mut FrameU64,
    intensity: &mut Frame,
)
    requires
        old(lifetime).wf(),
        old(intensity).wf(),
        old(lifetime).height == old(intensity).height,
        old(lifetime).width == old(intensity).width,
        forall|p: int| 0 <= p < old(lifetime).pixels@.len() ==> old(lifetime).pixels@[p] == 0,
        *old(pos) + strip_bytes <= data@.len(),
        strip_bytes % 8 == 0,
        strip_bytes <= MAX_FLIM_STRIP_BYTES,
    ensures
        final(lifetime).wf(),
        final(intensity).wf(),
        final(lifetime).height == old(lifetime).height,
        final(lifetime).width == old(lifetime).width,
        final(intensity).height == old(intensity).height,
        final(intensity).width == old(intensity).width,
        forall|p: int|
            0 <= p < final(lifetime).pixels@.len() ==> #[trigger] final(lifetime).pixels@[p]
                == tau_sum_at(
                strip_words(data@, *old(pos) as int, strip_bytes as int),
                0,
                0,
                old(lifetime).height as int,
                old(lifetime).width as int,
                p,
            ),
        final(intensity).pixels@ == added_intensity(
            old(intensity).pixels@,
            strip_words(data@, *old(pos) as int, strip_bytes as int),
            0,
            0,
            old(intensity).height as int,
            old(intensity).width as int,
        ),
        *final(pos) == *old(pos) + strip_bytes,
{
    load_flim_raw_siff_registered(data, pos, strip_bytes, lifetime, intensity, (0, 0));
}

/// Sums arrival times and photon counts of a raw strip under a mask,
/// registered by `(dy, dx)`; consumes the strip.
pub fn sum_mask_flim_raw_siff_registered(
    data: &Vec<u8>,
    pos: &mut usize,
    strip_bytes: usize,
    lifetime_sum: &mut u64,
    intensity_sum: &mut u64,
    mask: &Mask,
    registration: (i32, i32),
)
    requires
        mask.wf(),
        *old(pos) + strip_bytes <= data@.len(),
        strip_bytes % 8 == 0,
        strip_bytes <= MAX_FLIM_STRIP_BYTES,
        *old(lifetime_sum) == 0,
        *old(intensity_sum) + strip_bytes / 8 <= u64::MAX,
    ensures
        *final(lifetime_sum) == mask_tau_sum(
            strip_words(data@, *old(pos) as int, strip_bytes as int),
            registration.0 as int,
            registration.1 as int,
            mask.height as int,
            mask.width as int,
            mask.pixels@,
        ),
        *final(intensity_sum) == *old(intensity_sum) + mask_hits(
            strip_words(data@, *old(pos) as int, strip_bytes as int),
            registration.0 as int,
            registration.1 as int,
            mask.height as int,
            mask.width as int,
            mask.pixels@,
        ),
        *final(pos) == *old(pos) + strip_bytes,
{
    let dlen: usize = data.len();
    let base: usize = *pos;
    let n: usize = strip_bytes / 8;
    let h: usize = mask.height;
    let w: usize = mask.width;
    let ghost init_is = *intensity_sum;
    let ghost ws = strip_words(data@, base as int, strip_bytes as int);
    let dy = registration.0;
    let dx = registration.1;
    let mut i: usize = 0;
    while i < n
        invariant
            i <= n,
            mask.wf(),
            mask.height == h,
            mask.width == w,
            ws.len() == n,
            ws == strip_words(data@, base as int, strip_bytes as int),
            base + strip_bytes <= dlen,
            dlen == data@.len(),
            strip_bytes % 8 == 0,
            n == strip_bytes / 8,
            n <= 0x1_0000_0000,
            init_is + n <= u64::MAX,
            *lifetime_sum == mask_tau_sum(
                ws.take(i as int),
                dy as int,
                dx as int,
                h as int,
                w as int,
                mask.pixels@,
            ),
            *intensity_sum == init_is + mask_hits(
                ws.take(i as int),
                dy as int,
                dx as int,
                h as int,
                w as int,
                mask.pixels@,
            ),
        decreases n - i,
    {
        proof {
            assert(8 * i + 8 <= strip_bytes) by (nonlinear_arith)
                requires
                    i < n,
                    n == strip_bytes / 8,
                    strip_bytes % 8 == 0,
            ;
            lemma_mask_counts_bounded(
                ws.take(i as int),
                dy as int,
                dx as int,
                h as int,
                w as int,
                mask.pixels@,
            );
            assert(i * 0xFFFF_FFFF + 0xFFFF_FFFF == (i + 1) * 0xFFFF_FFFF) by (nonlinear_arith);
            assert((i + 1) * 0xFFFF_FFFF <= 0x1_0000_0000 * 0xFFFF_FFFF) by (nonlinear_arith)
                requires
                    i + 1 <= 0x1_0000_0000,
            ;
        }
        let ph: u64 = read_u64(data, base + 8 * i);
        let q: usize = crate::intensity::photon_dest(ph, dy, dx, h, w);
        let t: u64 = photon_to_tau(ph);
        proof {
            assert(ph == ws[i as int]);
            lemma_prefix_step(ws, i as int, dy as int, dx as int, h as int, w as int);
        }
        if mask.pixels[q] {
            *lifetime_sum = *lifetime_sum + t;
            *intensity_sum = *intensity_sum + 1;
        }
        i = i + 1;
    }
    proof {
        assert(ws.take(n as int) =~= ws);
    }
    *pos = base + strip_bytes;
}

/// Sums arrival times and photon counts of a raw strip under a mask,
/// without registration.
pub fn sum_mask_flim_raw_siff(
    data: &Vec<u8>,
    pos: &mut usize,
    strip_bytes: usize,
    lifetime_sum: &mut u64,
    intensity_sum: &mut u64,
    mask: &Mask,
)
    requires
        mask.wf(),
        *old(pos) + strip_bytes <= data@.len(),
        strip_bytes % 8 == 0,
        strip_bytes <= MAX_FLIM_STRIP_BYTES,
        *old(lifetime_sum) == 0,
        *old(intensity_sum) + strip_bytes / 8 <= u64::MAX,
    ensures
        *final(lifetime_sum) == mask_tau_sum(
            strip_words(data@, *old(pos) as int, strip_bytes as int),
            0,
            0,
            mask.height as int,
            mask.width as int,
            mask.pixels@,
        ),
        *final(intensity_sum) == *old(intensity_sum) + mask_hits(
            strip_words(data@, *old(pos) as int, strip_bytes as int),
            0,
            0,
            mask.height as int,
            mask.width as int,
            mask.pixels@,
        ),
        *final(pos) == *old(pos) + strip_bytes,
{
    sum_mask_flim_raw_siff_registered(
        data,
        pos,
        strip_bytes,
        lifetime_sum,
        intensity_sum,
        mask,
        (0, 0),
    );
}

/// Decodes a compressed strip into per-pixel arrival-time sums and the
/// intensity slab. Fails, touching nothing further, when the slab claims
/// more photons than the arrival stream holds; on success `*pos` ends past
/// the arrival slab.
pub fn load_flim_compressed_siff(
    data: &Vec<u8>,
    pos: &mut usize,
    strip_bytes: usize,
    lifetime: &mut FrameU64,
    intensity: &mut Frame,
) -> (r: Result<(), FramesError>)
    requires
        old(lifetime).wf(),
        old(intensity).wf(),
        old(lifetime).height == old(intensity).height,
        old(lifetime).width == old(intensity).width,
        2 * (old(intensity).height * old(intensity).width) <= *old(pos),
        *old(pos) + strip_bytes <= data@.len(),
        strip_bytes % 2 == 0,
    ensures
        final(lifetime).wf(),
        final(intensity).wf(),
        final(lifetime).height == old(lifetime).height,
        final(lifetime).width == old(lifetime).width,
        final(intensity).height == old(intensity).height,
        final(intensity).width == old(intensity).width,
        r is Ok <==> counts_prefix(
            strip_image(
                data@,
                *old(pos) - 2 * (old(intensity).height * old(intensity).width),
                (old(intensity).height * old(intensity).width) as int,
            ),
            (old(intensity).height * old(intensity).width) as int,
        ) <= strip_bytes as int / 2,
        r is Ok ==> final(intensity).pixels@ == strip_image(
            data@,
            *old(pos) - 2 * (old(intensity).height * old(intensity).width),
            (old(intensity).height * old(intensity).width) as int,
        ),
        r is Ok ==> forall|p: int|
            0 <= p < final(lifetime).pixels@.len() ==> #[trigger] final(lifetime).pixels@[p]
                == pixel_tau_sum(
                strip_image(
                    data@,
                    *old(pos) - 2 * (old(intensity).height * old(intensity).width),
                    (old(intensity).height * old(intensity).width) as int,
                ),
                le16_seq(data@, *old(pos) as int, strip_bytes as int / 2),
                p,
            ),
        r is Ok ==> *final(pos) == *old(pos) + strip_bytes,
{
    let dlen: usize = data.len();
    let base: usize = *pos;
    let h: usize = intensity.height;
    let w: usize = intensity.width;
    let npix: usize = h * w;
    let m: usize = strip_bytes / 2;
    load_array_compressed_siff(data, pos, intensity);
    let ghost counts = intensity.pixels@;
    let ghost arr = le16_seq(data@, base as int, m as int);
    let mut cursor: usize = 0;
    let mut p: usize = 0;
    while p < npix
        invariant
            p <= npix,
            lifetime.wf(),
            intensity.wf(),
            lifetime.height == h,
            lifetime.width == w,
            intensity.height == h,
            intensity.width == w,
            h == old(lifetime).height,
            w == old(lifetime).width,
            h == old(intensity).height,
            w == old(intensity).width,
            base == *old(pos),
            npix == h * w,
            intensity.pixels@ == counts,
            counts == strip_image(data@, base - 2 * npix, npix as int),
            2 * npix <= base,
            counts.len() == npix,
            arr.len() == m,
            arr == le16_seq(data@, base as int, m as int),
            base + strip_bytes <= dlen,
            dlen == data@.len(),
            strip_bytes % 2 == 0,
            m == strip_bytes / 2,
            cursor == counts_prefix(counts, p as int),
            cursor <= m,
            forall|q: int|
                0 <= q < p ==> #[trigger] lifetime.pixels@[q] == pixel_tau_sum(counts, arr, q),
        decreases npix - p,
    {
        let c: u16 = intensity.pixels[p];
        proof {
            assert(counts_prefix(counts, p as int + 1) == counts_prefix(counts, p as int)
                + counts[p as int]);
        }
        if m - cursor < c as usize {
            proof {
                lemma_counts_prefix_monotone(counts, p as int + 1, npix as int);
            }
            return Err(FramesError::FormatError);
        }
        let mut acc: u64 = 0;
        let mut j: usize = 0;
        while j < c as usize
            invariant
                j <= c as usize,
                cursor + c as usize <= m,
                arr.len() == m,
                arr == le16_seq(data@, base as int, m as int),
                base + strip_bytes <= dlen,
                dlen == data@.len(),
                strip_bytes % 2 == 0,
                m == strip_bytes / 2,
                acc == window_sum(arr, cursor as int, j as int),
                acc <= j * 0xFFFF,
            decreases c as usize - j,
        {
            proof {
                assert(2 * (cursor + j) + 2 <= strip_bytes) by (nonlinear_arith)
                    requires
                        cursor + j < m,
                        m == strip_bytes / 2,
                        strip_bytes % 2 == 0,
                ;
                assert(j * 0xFFFF + 0xFFFF == (j + 1) * 0xFFFF) by (nonlinear_arith);
                assert((j + 1) * 0xFFFF <= 0x1_0000 * 0xFFFF) by (nonlinear_arith)
                    requires
                        j + 1 <= 0x1_0000,
                ;
            }
            let t: u16 = read_u16(data, base + 2 * (cursor + j));
            proof {
                assert(t == arr[cursor + j]);
            }
            acc = acc + t as u64;
            j = j + 1;
        }
        lifetime.pixels.set(p, acc);
        cursor = cursor + c as usize;
        p = p + 1;
    }
    *pos = base + strip_bytes;
    Ok(())
}

/// Decodes a compressed strip into lifetime sums and intensity, then applies
/// the registration roll to both images.
pub fn load_flim_compressed_siff_registered(
    data: &Vec<u8>,
    pos: &mut usize,
    strip_bytes: usize,
    lifetime: &mut FrameU64,
    intensity: &mut Frame,
    registration: (i32, i32),
) -> (r: Result<(), FramesError>)
    requires
        old(lifetime).wf(),
        old(intensity).wf(),
        old(lifetime).height == old(intensity).height,
        old(lifetime).width == old(intensity).width,
        2 * (old(intensity).height * old(intensity).width) <= *old(pos),
        *old(pos) + strip_bytes <= data@.len(),
        strip_bytes % 2 == 0,
    ensures
        final(lifetime).wf(),
        final(intensity).wf(),
        final(lifetime).height == old(lifetime).height,
        final(lifetime).width == old(lifetime).width,
        final(intensity).height == old(intensity).height,
        final(intensity).width == old(intensity).width,
        r is Ok <==> counts_prefix(
            strip_image(
                data@,
                *old(pos) - 2 * (old(intensity).height * old(intensity).width),
                (old(intensity).height * old(intensity).width) as int,
            ),
            (old(intensity).height * old(intensity).width) as int,
        ) <= strip_bytes as int / 2,
        r is Ok ==> final(intensity).pixels@ == rolled(
            strip_image(
                data@,
                *old(pos) - 2 * (old(intensity).height * old(intensity).width),
                (old(intensity).height * old(intensity).width) as int,
            ),
            registration.0 as int,
            registration.1 as int,
            old(intensity).height as int,
            old(intensity).width as int,
        ),
        r is Ok ==> final(lifetime).pixels@ == rolled(
            Seq::new(
                (old(intensity).height * old(intensity).width) as nat,
                |p: int|
                    pixel_tau_sum(
                        strip_image(
                            data@,
                            *old(pos) - 2 * (old(intensity).height * old(intensity).width),
                            (old(intensity).height * old(intensity).width) as int,
                        ),
                        le16_seq(data@, *old(pos) as int, strip_bytes as int / 2),
                        p,
                    ) as u64,
            ),
            registration.0 as int,
            registration.1 as int,
            old(intensity).height as int,
            old(intensity).width as int,
        ),
        r is Ok ==> *final(pos) == *old(pos) + strip_bytes,
{
    let r = load_flim_compressed_siff(data, pos, strip_bytes, lifetime, intensity);
    if r.is_err() {
        return r;
    }
    crate::intensity::roll_frame(intensity, registration);
    roll_frame_u64(lifetime, registration);
    proof {
        let hh = old(intensity).height as int;
        let ww = old(intensity).width as int;
        let img = Seq::new(
            (old(intensity).height * old(intensity).width) as nat,
            |p: int|
                pixel_tau_sum(
                    strip_image(
                        data@,
                        *old(pos) - 2 * (old(intensity).height * old(intensity).width),
                        (old(intensity).height * old(intensity).width) as int,
                    ),
                    le16_seq(data@, *old(pos) as int, strip_bytes as int / 2),
                    p,
                ) as u64,
        );
        let dyi = registration.0 as int;
        let dxi = registration.1 as int;
        assert forall|p: int| 0 <= p < hh * ww implies final(lifetime).pixels@[p] == rolled(
            img,
            dyi,
            dxi,
            hh,
            ww,
        )[p] by {
            crate::dimensions::lemma_shift_pix_bounds(p, -dyi, -dxi, hh, ww);
        }
        assert(final(lifetime).pixels@ =~= rolled(img, dyi, dxi, hh, ww));
    }
    r
}

/// Rolls a 64-bit accumulator image cyclically by `(dy, dx)` in place.
pub fn roll_frame_u64(frame: &mut FrameU64, registration: (i32, i32))
    requires
        old(frame).wf(),
    ensures
        final(frame).wf(),
        final(frame).height == old(frame).height,
        final(frame).width == old(frame).width,
        final(frame).pixels@ == rolled(
            old(frame).pixels@,
            registration.0 as int,
            registration.1 as int,
            old(frame).height as int,
            old(frame).width as int,
        ),
{
    let h: usize = frame.height;
    let w: usize = frame.width;
    let n: usize = h * w;
    let dy = registration.0;
    let dx = registration.1;
    let ghost src_img = frame.pixels@;
    let mut out: Vec<u64> = Vec::new();
    let mut p: usize = 0;
    while p < n
        invariant
            p <= n,
            frame.wf(),
            frame.height == h,
            frame.width == w,
            frame.pixels@ == src_img,
            n == h * w,
            out@.len() == p,
            forall|q: int|
                0 <= q < p ==> out@[q] == src_img[crate::dimensions::roll_source(
                    q,
                    dy as int,
                    dx as int,
                    h as int,
                    w as int,
                )],
        decreases n - p,
    {
        proof {
            crate::frame::lemma_dims_le_pixels(h as int, w as int);
            crate::dimensions::lemma_pix_decompose(p as int, h as int, w as int);
            crate::dimensions::lemma_shift_pix_bounds(
                p as int,
                -(dy as int),
                -(dx as int),
                h as int,
                w as int,
            );
        }
        let y: u64 = crate::dimensions::shift_coord((p / w) as u64, -(dy as i64), h as u64);
        let x: u64 = crate::dimensions::shift_coord((p % w) as u64, -(dx as i64), w as u64);
        proof {
            crate::dimensions::lemma_pix_compose(y as int, x as int, h as int, w as int);
        }
        let src: usize = (y as usize) * w + (x as usize);
        out.push(frame.pixels[src]);
        p = p + 1;
    }
    frame.pixels = out;
    proof {
        assert(frame.pixels@ =~= rolled(src_img, dy as int, dx as int, h as int, w as int));
    }
}

/// Sums arrival times and photon counts of a compressed strip under a mask.
/// Fails when the slab claims more photons than the arrival stream holds.
/// The shifted mask lookup realises registration as an inverse mask roll;
/// pass `(0, 0)` for an unregistered reduction. On success `*pos` ends past
/// the arrival slab.
pub fn sum_mask_flim_compressed_siff_registered(
    data: &Vec<u8>,
    pos: &mut usize,
    strip_bytes: usize,
    lifetime_sum: &mut u64,
    intensity_sum: &mut u64,
    mask: &Mask,
    registration: (i32, i32),
) -> (r: Result<(), FramesError>)
    requires
        mask.wf(),
        2 * (mask.height * mask.width) <= *old(pos),
        *old(pos) + strip_bytes <= data@.len(),
        strip_bytes % 2 == 0,
        strip_bytes <= MAX_FLIM_STRIP_BYTES,
        *old(lifetime_sum) == 0,
        *old(intensity_sum) + (mask.height * mask.width) * 0x1_0000 <= u64::MAX,
    ensures
        r is Ok <==> counts_prefix(
            strip_image(
                data@,
                *old(pos) - 2 * (mask.height * mask.width),
                (mask.height * mask.width) as int,
            ),
            (mask.height * mask.width) as int,
        ) <= strip_bytes as int / 2,
        r is Ok ==> *final(lifetime_sum) == masked_sum(
            |p: int|
                pixel_tau_sum(
                    strip_image(
                        data@,
                        *old(pos) - 2 * (mask.height * mask.width),
                        (mask.height * mask.width) as int,
                    ),
                    le16_seq(data@, *old(pos) as int, strip_bytes as int / 2),
                    p,
                ),
            |p: int|
                mask.pixels@[shift_pix(
                    p,
                    registration.0 as int,
                    registration.1 as int,
                    mask.height as int,
                    mask.width as int,
                )],
            (mask.height * mask.width) as int,
        ),
        r is Ok ==> *final(intensity_sum) == *old(intensity_sum) + masked_sum(
            |p: int|
                strip_image(
                    data@,
                    *old(pos) - 2 * (mask.height * mask.width),
                    (mask.height * mask.width) as int,
                )[p] as nat,
            |p: int|
                mask.pixels@[shift_pix(
                    p,
                    registration.0 as int,
                    registration.1 as int,
                    mask.height as int,
                    mask.width as int,
                )],
            (mask.height * mask.width) as int,
        ),
        r is Ok ==> *final(pos) == *old(pos) + strip_bytes,
{
    let rolled_mask = mask.roll(-(registration.0 as i64), -(registration.1 as i64));
    proof {
        assert forall|p: int| 0 <= p < mask.height * mask.width implies rolled_mask.pixels@[p]
            == mask.pixels@[shift_pix(
            p,
            registration.0 as int,
            registration.1 as int,
            mask.height as int,
            mask.width as int,
        )] by {
            crate::dimensions::lemma_shift_pix_bounds(
                p,
                registration.0 as int,
                registration.1 as int,
                mask.height as int,
                mask.width as int,
            );
        }
    }
    let r = sum_mask_flim_compressed_inner(
        data,
        pos,
        strip_bytes,
        lifetime_sum,
        intensity_sum,
        &rolled_mask,
    );
    proof {
        if r is Ok {
            let n = (mask.height * mask.width) as int;
            let counts = strip_image(data@, *old(pos) - 2 * (mask.height * mask.width), n);
            let arr = le16_seq(data@, *old(pos) as int, strip_bytes as int / 2);
            crate::summation::lemma_masked_sum_mask_congruent(
                |p: int| pixel_tau_sum(counts, arr, p),
                |p: int| rolled_mask.pixels@[p],
                |p: int|
                    mask.pixels@[shift_pix(
                        p,
                        registration.0 as int,
                        registration.1 as int,
                        mask.height as int,
                        mask.width as int,
                    )],
                n,
            );
            crate::summation::lemma_masked_sum_mask_congruent(
                |p: int| counts[p] as nat,
                |p: int| rolled_mask.pixels@[p],
                |p: int|
                    mask.pixels@[shift_pix(
                        p,
                        registration.0 as int,
                        registration.1 as int,
                        mask.height as int,
                        mask.width as int,
                    )],
                n,
            );
        }
    }
    r
}

/// The unregistered compressed mask reduction: one cursor pass over the
/// intensity and arrival slabs, summing under the mask as given.
fn sum_mask_flim_compressed_inner(
    data: &Vec<u8>,
    pos: &mut usize,
    strip_bytes: usize,
    lifetime_sum: &mut u64,
    intensity_sum: &mut u64,
    mask: &Mask,
) -> (r: Result<(), FramesError>)
    requires
        mask.wf(),
        2 * (mask.height * mask.width) <= *old(pos),
        *old(pos) + strip_bytes <= data@.len(),
        strip_bytes % 2 == 0,
        strip_bytes <= MAX_FLIM_STRIP_BYTES,
        *old(lifetime_sum) == 0,
        *old(intensity_sum) + (mask.height * mask.width) * 0x1_0000 <= u64::MAX,
    ensures
        r is Ok <==> counts_prefix(
            strip_image(
                data@,
                *old(pos) - 2 * (mask.height * mask.width),
                (mask.height * mask.width) as int,
            ),
            (mask.height * mask.width) as int,
        ) <= strip_bytes as int / 2,
        r is Ok ==> *final(lifetime_sum) == masked_sum(
            |p: int|
                pixel_tau_sum(
                    strip_image(
                        data@,
                        *old(pos) - 2 * (mask.height * mask.width),
                        (mask.height * mask.width) as int,
                    ),
                    le16_seq(data@, *old(pos) as int, strip_bytes as int / 2),
                    p,
                ),
            |p: int| mask.pixels@[p],
            (mask.height * mask.width) as int,
        ),
        r is Ok ==> *final(intensity_sum) == *old(intensity_sum) + masked_sum(
            |p: int|
                strip_image(
                    data@,
                    *old(pos) - 2 * (mask.height * mask.width),
                    (mask.height * mask.width) as int,
                )[p] as nat,
            |p: int| mask.pixels@[p],
            (mask.height * mask.width) as int,
        ),
        r is Ok ==> *final(pos) == *old(pos) + strip_bytes,
{
    let dlen: usize = data.len();
    let base: usize = *pos;
    let h: usize = mask.height;
    let w: usize = mask.width;
    let npix: usize = h * w;
    let slab: usize = base - 2 * npix;
    let m: usize = strip_bytes / 2;
    let ghost counts = strip_image(data@, slab as int, npix as int);
    let ghost arr = le16_seq(data@, base as int, m as int);
    let ghost init_is = *intensity_sum;
    let mut cursor: usize = 0;
    let mut p: usize = 0;
    while p < npix
        invariant
            p <= npix,
            mask.wf(),
            mask.height == h,
            mask.width == w,
            npix == h * w,
            slab == base - 2 * npix,
            2 * npix <= base,
            base == *old(pos),
            strip_bytes <= MAX_FLIM_STRIP_BYTES,
            counts == strip_image(data@, slab as int, npix as int),
            counts.len() == npix,
            arr.len() == m,
            arr == le16_seq(data@, base as int, m as int),
            base + strip_bytes <= dlen,
            dlen == data@.len(),
            strip_bytes % 2 == 0,
            m == strip_bytes / 2,
            cursor == counts_prefix(counts, p as int),
            cursor <= m,
            init_is + npix * 0x1_0000 <= u64::MAX,
            *lifetime_sum == masked_sum(
                |q: int| pixel_tau_sum(counts, arr, q),
                |q: int| mask.pixels@[q],
                p as int,
            ),
            *lifetime_sum <= cursor * 0xFFFF,
            *intensity_sum == init_is + masked_sum(
                |q: int| counts[q] as nat,
                |q: int| mask.pixels@[q],
                p as int,
            ),
            *intensity_sum <= init_is + p * 0x1_0000,
        decreases npix - p,
    {
        proof {
            assert(2 * p + 2 <= 2 * npix) by (nonlinear_arith)
                requires
                    p < npix,
            ;
        }
        let c: u16 = read_u16(data, slab + 2 * p);
        proof {
            assert(c == counts[p as int]);
            assert(counts_prefix(counts, p as int + 1) == counts_prefix(counts, p as int)
                + counts[p as int]);
        }
        if m - cursor < c as usize {
            proof {
                lemma_counts_prefix_monotone(counts, p as int + 1, npix as int);
            }
            return Err(FramesError::FormatError);
        }
        let mut acc: u64 = 0;
        let mut j: usize = 0;
        while j < c as usize
            invariant
                j <= c as usize,
                cursor + c as usize <= m,
                arr.len() == m,
                arr == le16_seq(data@, base as int, m as int),
                base + strip_bytes <= dlen,
                dlen == data@.len(),
                strip_bytes % 2 == 0,
                m == strip_bytes / 2,
                acc == window_sum(arr, cursor as int, j as int),
                acc <= j * 0xFFFF,
            decreases c as usize - j,
        {
            proof {
                assert(2 * (cursor + j) + 2 <= strip_bytes) by (nonlinear_arith)
                    requires
                        cursor + j < m,
                        m == strip_bytes / 2,
                        strip_bytes % 2 == 0,
                ;
                assert(j * 0xFFFF + 0xFFFF == (j + 1) * 0xFFFF) by (nonlinear_arith);
                assert((j + 1) * 0xFFFF <= 0x1_0000 * 0xFFFF) by (nonlinear_arith)
                    requires
                        j + 1 <= 0x1_0000,
                ;
            }
            let t: u16 = read_u16(data, base + 2 * (cursor + j));
            proof {
                assert(t == arr[cursor + j]);
            }
            acc = acc + t as u64;
            j = j + 1;
        }
        proof {
            assert(acc == pixel_tau_sum(counts, arr, p as int));
            assert(cursor * 0xFFFF + (c as usize) * 0xFFFF == (cursor + c as usize) * 0xFFFF)
                by (nonlinear_arith);
            assert((cursor + c as usize) * 0xFFFF <= 0x4_0000_0000 * 0xFFFF) by (nonlinear_arith)
                requires
                    cursor + c as usize <= 0x4_0000_0000,
            ;
            assert(p * 0x1_0000 + 0x1_0000 == (p + 1) * 0x1_0000) by (nonlinear_arith);
            assert((p + 1) * 0x1_0000 <= npix * 0x1_0000) by (nonlinear_arith)
                requires
                    p + 1 <= npix,
            ;
        }
        if mask.pixels[p] {
            *lifetime_sum = *lifetime_sum + acc;
            *intensity_sum = *intensity_sum + c as u64;
        }
        cursor = cursor + c as usize;
        p = p + 1;
    }
    *pos = base + strip_bytes;
    Ok(())
}

} // verus!
