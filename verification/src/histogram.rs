//! Arrival-time histogram kernels.
//!
//! A histogram is a run of 64-bit counters, one per arrival-time bin. Raw
//! strips contribute one count per photon at the photon's tau bin;
//! compressed strips contribute one count per word of the arrival slab.
//! A tau at or past the end of the histogram is dropped: the format can
//! contain such stray values and the kernels guard against them.

use vstd::prelude::*;
use crate::bytes::{le16_seq, read_u16, read_u64};
use crate::compressed::{
    counts_prefix, lemma_counts_prefix_monotone, lemma_window_eq_hits_bound, tau16_hits,
    window_eq_hits,
};
use crate::frame::Mask;
use crate::intensity::{strip_image, strip_words};
use crate::photon::{
    lemma_mask_tau_hits_bounded, lemma_prefix_step, lemma_tau_hits_bounded, mask_tau_hits,
    photon_to_tau, tau_hits,
};
use crate::summation::masked_sum;
use crate::utils::FramesError;

verus! {

/// Adds the tau counts of a raw strip's photons to `hist`, dropping photons
/// whose tau is not below `hist.len()`; consumes the strip.
pub fn load_histogram_uncompressed(
    data: &Vec<u8>,
    pos: &mut usize,
    strip_bytes: usize,
    hist: &mut Vec<u64>,
)
    requires
        *old(pos) + strip_bytes <= data@.len(),
        strip_bytes % 8 == 0,
        forall|b: int|
            0 <= b < old(hist)@.len() ==> #[trigger] old(hist)@[b] + strip_bytes / 8 <= u64::MAX,
    ensures
        final(hist)@.len() == old(hist)@.len(),
        forall|b: int|
            0 <= b < old(hist)@.len() ==> #[trigger] final(hist)@[b] == old(hist)@[b] + tau_hits(
                strip_words(data@, *old(pos) as int, strip_bytes as int),
                b,
            ),
        *final(pos) == *old(pos) + strip_bytes,
{
    let dlen: usize = data.len();
    let base: usize = *pos;
    let n: usize = strip_bytes / 8;
    let hbins: usize = hist.len();
    let ghost init = hist@;
    let ghost ws = strip_words(data@, base as int, strip_bytes as int);
    let mut i: usize = 0;
    while i < n
        invariant
            i <= n,
            hist@.len() == hbins,
            init.len() == hbins,
            ws.len() == n,
            ws == strip_words(data@, base as int, strip_bytes as int),
            base + strip_bytes <= dlen,
            dlen == data@.len(),
            strip_bytes % 8 == 0,
            n == strip_bytes / 8,
            forall|b: int|
                0 <= b < hbins ==> #[trigger] init[b] + n <= u64::MAX,
            forall|b: int|
                0 <= b < hbins ==> #[trigger] hist@[b] == init[b] + tau_hits(ws.take(i as int), b),
        decreases n - i,
    {
        proof {
            assert(8 * i + 8 <= strip_bytes) by (nonlinear_arith)
                requires
                    i < n,
                    n == strip_bytes / 8,
                    strip_bytes % 8 == 0,
            ;
        }
        let ph: u64 = read_u64(data, base + 8 * i);
        let t: u64 = photon_to_tau(ph);
        proof {
            assert(ph == ws[i as int]);
            lemma_prefix_step(ws, i as int, 0, 0, 1, 1);
        }
        if t < hbins as u64 {
            let tb: usize = t as usize;
            proof {
                lemma_tau_hits_bounded(ws.take(i as int), tb as int);
            }
            let cur: u64 = hist[tb];
            hist.set(tb, cur + 1);
        }
        i = i + 1;
    }
    proof {
        assert(ws.take(n as int) =~= ws);
    }
    *pos = base + strip_bytes;
}

/// Adds the tau counts of a compressed strip's arrival slab to `hist`,
/// dropping words not below `hist.len()`; consumes the slab.
pub fn load_histogram_compressed(
    data: &Vec<u8>,
    pos: &mut usize,
    strip_bytes: usize,
    hist: &mut Vec<u64>,
)
    requires
        *old(pos) + strip_bytes <= data@.len(),
        strip_bytes % 2 == 0,
        forall|b: int|
            0 <= b < old(hist)@.len() ==> #[trigger] old(hist)@[b] + strip_bytes / 2 <= u64::MAX,
    ensures
        final(hist)@.len() == old(hist)@.len(),
        forall|b: int|
            0 <= b < old(hist)@.len() ==> #[trigger] final(hist)@[b] == old(hist)@[b]
                + tau16_hits(
                le16_seq(data@, *old(pos) as int, strip_bytes as int / 2),
                b,
            ),
        *final(pos) == *old(pos) + strip_bytes,
{
    let dlen: usize = data.len();
    let base: usize = *pos;
    let n: usize = strip_bytes / 2;
    let hbins: usize = hist.len();
    let ghost init = hist@;
    let ghost arr = le16_seq(data@, base as int, n as int);
    let mut i: usize = 0;
    while i < n
        invariant
            i <= n,
            hist@.len() == hbins,
            init.len() == hbins,
            arr.len() == n,
            arr == le16_seq(data@, base as int, n as int),
            base + strip_bytes <= dlen,
            dlen == data@.len(),
            strip_bytes % 2 == 0,
            n == strip_bytes / 2,
            forall|b: int|
                0 <= b < hbins ==> #[trigger] init[b] + n <= u64::MAX,
            forall|b: int|
                0 <= b < hbins ==> #[trigger] hist@[b] == init[b] + tau16_hits(
                    arr.take(i as int),
                    b,
                ),
        decreases n - i,
    {
        proof {
            assert(2 * i + 2 <= strip_bytes) by (nonlinear_arith)
                requires
                    i < n,
                    n == strip_bytes / 2,
                    strip_bytes % 2 == 0,
            ;
        }
        let t: u16 = read_u16(data, base + 2 * i);
        proof {
            assert(t == arr[i as int]);
            assert(arr.take(i as int + 1).drop_last() =~= arr.take(i as int));
            assert(arr.take(i as int + 1).last() == arr[i as int]);
        }
        if (t as usize) < hbins {
            let tb: usize = t as usize;
            proof {
                lemma_tau16_hits_bounded(arr.take(i as int), tb as int);
            }
            let cur: u64 = hist[tb];
            hist.set(tb, cur + 1);
        }
        i = i + 1;
    }
    proof {
        assert(arr.take(n as int) =~= arr);
    }
    *pos = base + strip_bytes;
}

/// Per-bin counts of the arrival slab are bounded by its length.
proof fn lemma_tau16_hits_bounded(arr: Seq<u16>, b: int)
    ensures
        tau16_hits(arr, b) <= arr.len(),
    decreases arr.len(),
{
    if arr.len() > 0 {
        lemma_tau16_hits_bounded(arr.drop_last(), b);
    }
}


/// Adds the tau counts of the raw strip's photons that land inside `mask`
/// to `hist`, dropping photons whose tau is not below `hist.len()`;
/// consumes the strip.
pub fn load_histogram_mask_uncompressed(
    data: &Vec<u8>,
    pos: &mut usize,
    strip_bytes: usize,
    hist: &mut Vec<u64>,
    mask: &Mask,
)
    requires
        mask.wf(),
        *old(pos) + strip_bytes <= data@.len(),
        strip_bytes % 8 == 0,
        forall|b: int|
            0 <= b < old(hist)@.len() ==> #[trigger] old(hist)@[b] + strip_bytes / 8 <= u64::MAX,
    ensures
        final(hist)@.len() == old(hist)@.len(),
        forall|b: int|
            0 <= b < old(hist)@.len() ==> #[trigger] final(hist)@[b] == old(hist)@[b]
                + mask_tau_hits(
                strip_words(data@, *old(pos) as int, strip_bytes as int),
                0,
                0,
                mask.height as int,
                mask.width as int,
                mask.pixels@,
                b,
            ),
        *final(pos) == *old(pos) + strip_bytes,
{
    let dlen: usize = data.len();
    let base: usize = *pos;
    let n: usize = strip_bytes / 8;
    let h: usize = mask.height;
    let w: usize = mask.width;
    let hbins: usize = hist.len();
    let ghost init = hist@;
    let ghost ws = strip_words(data@, base as int, strip_bytes as int);
    let mut i: usize = 0;
    while i < n
        invariant
            i <= n,
            mask.wf(),
            mask.height == h,
            mask.width == w,
            hist@.len() == hbins,
            init.len() == hbins,
            ws.len() == n,
            ws == strip_words(data@, base as int, strip_bytes as int),
            base + strip_bytes <= dlen,
            dlen == data@.len(),
            strip_bytes % 8 == 0,
            n == strip_bytes / 8,
            forall|b: int| 0 <= b < hbins ==> #[trigger] init[b] + n <= u64::MAX,
            forall|b: int|
                0 <= b < hbins ==> #[trigger] hist@[b] == init[b] + mask_tau_hits(
                    ws.take(i as int),
                    0,
                    0,
                    h as int,
                    w as int,
                    mask.pixels@,
                    b,
                ),
        decreases n - i,
    {
        proof {
            assert(8 * i + 8 <= strip_bytes) by (nonlinear_arith)
                requires
                    i < n,
                    n == strip_bytes / 8,
                    strip_bytes % 8 == 0,
            ;
        }
        let ph: u64 = read_u64(data, base + 8 * i);
        let q: usize = crate::intensity::photon_dest(ph, 0, 0, h, w);
        let t: u64 = photon_to_tau(ph);
        proof {
            assert(ph == ws[i as int]);
            assert(ws.take(i as int + 1).drop_last() =~= ws.take(i as int));
            assert(ws.take(i as int + 1).last() == ws[i as int]);
        }
        if mask.pixels[q] && t < hbins as u64 {
            let tb: usize = t as usize;
            proof {
                lemma_mask_tau_hits_bounded(
                    ws.take(i as int),
                    0,
                    0,
                    h as int,
                    w as int,
                    mask.pixels@,
                    tb as int,
                );
            }
            let cur: u64 = hist[tb];
            hist.set(tb, cur + 1);
        }
        i = i + 1;
    }
    proof {
        assert(ws.take(n as int) =~= ws);
    }
    *pos = base + strip_bytes;
}

/// Adds, for each pixel of the compressed intensity slab that `mask`
/// admits, the tau counts of the pixel's arrival window to `hist`,
/// dropping out-of-range arrivals. Fails when the slab claims more photons
/// than the arrival stream holds; on success `*pos` ends past the arrival
/// slab.
pub fn load_histogram_mask_compressed(
    data: &Vec<u8>,
    pos: &mut usize,
    strip_bytes: usize,
    hist: &mut Vec<u64>,
    mask: &Mask,
) -> (r: Result<(), FramesError>)
    requires
        mask.wf(),
        2 * (mask.height * mask.width) <= *old(pos),
        *old(pos) + strip_bytes <= data@.len(),
        strip_bytes % 2 == 0,
        forall|b: int|
            0 <= b < old(hist)@.len() ==> #[trigger] old(hist)@[b] + strip_bytes / 2 <= u64::MAX,
    ensures
        final(hist)@.len() == old(hist)@.len(),
        r is Ok <==> counts_prefix(
            strip_image(
                data@,
                *old(pos) - 2 * (mask.height * mask.width),
                (mask.height * mask.width) as int,
            ),
            (mask.height * mask.width) as int,
        ) <= strip_bytes as int / 2,
        r is Ok ==> forall|b: int|
            0 <= b < old(hist)@.len() ==> #[trigger] final(hist)@[b] == old(hist)@[b]
                + masked_sum(
                |p: int|
                    window_eq_hits(
                        le16_seq(data@, *old(pos) as int, strip_bytes as int / 2),
                        counts_prefix(
                            strip_image(
                                data@,
                                *old(pos) - 2 * (mask.height * mask.width),
                                (mask.height * mask.width) as int,
                            ),
                            p,
                        ) as int,
                        strip_image(
                            data@,
                            *old(pos) - 2 * (mask.height * mask.width),
                            (mask.height * mask.width) as int,
                        )[p] as int,
                        b,
                    ),
                |p: int| mask.pixels@[p],
                (mask.height * mask.width) as int,
            ),
        r is Ok ==> *final(pos) == *old(pos) + strip_bytes,
{
    let dlen: usize = data.len();
    let base: usize = *pos;
    let h: usize = mask.height;
    let w: usize = mask.width;
    let npix: usize = h * w;
    let slab: usize = base - 2 * npix;
    let m: usize = strip_bytes / 2;
    let hbins: usize = hist.len();
    let ghost counts = strip_image(data@, slab as int, npix as int);
    let ghost arr = le16_seq(data@, base as int, m as int);
    let ghost init = hist@;
    let mut cursor: usize = 0;
    let mut p: usize = 0;
    while p < npix
        invariant
            p <= npix,
            mask.wf(),
            mask.height == h,
            mask.width == w,
            npix == h * w,
            slab == base - 2 * npix,
            2 * npix <= base,
            base == *old(pos),
            counts == strip_image(data@, slab as int, npix as int),
            counts.len() == npix,
            arr.len() == m,
            arr == le16_seq(data@, base as int, m as int),
            base + strip_bytes <= dlen,
            dlen == data@.len(),
            strip_bytes % 2 == 0,
            m == strip_bytes / 2,
            cursor == counts_prefix(counts, p as int),
            cursor <= m,
            hist@.len() == hbins,
            init.len() == hbins,
            init == old(hist)@,
            forall|b: int| 0 <= b < hbins ==> #[trigger] init[b] + m <= u64::MAX,
            forall|b: int|
                0 <= b < hbins ==> #[trigger] hist@[b] == init[b] + masked_sum(
                    |q: int| window_eq_hits(arr, counts_prefix(counts, q) as int, counts[q] as int, b),
                    |q: int| mask.pixels@[q],
                    p as int,
                ),
            forall|b: int|
                0 <= b < hbins ==> hist@[b] <= init[b] + cursor,
        decreases npix - p,
    {
        proof {
            assert(2 * p + 2 <= 2 * npix) by (nonlinear_arith)
                requires
                    p < npix,
            ;
        }
        let c: u16 = read_u16(data, slab + 2 * p);
        proof {
            assert(c == counts[p as int]);
            assert(counts_prefix(counts, p as int + 1) == counts_prefix(counts, p as int)
                + counts[p as int]);
        }
        if m - cursor < c as usize {
            proof {
                lemma_counts_prefix_monotone(counts, p as int + 1, npix as int);
            }
            return Err(FramesError::FormatError);
        }
        if mask.pixels[p] {
            let mut j: usize = 0;
            while j < c as usize
                invariant
                    j <= c as usize,
                    cursor + c as usize <= m,
                    arr.len() == m,
                    arr == le16_seq(data@, base as int, m as int),
                    base + strip_bytes <= dlen,
                    dlen == data@.len(),
                    strip_bytes % 2 == 0,
                    m == strip_bytes / 2,
                    hist@.len() == hbins,
                    init.len() == hbins,
                    forall|b: int| 0 <= b < hbins ==> #[trigger] init[b] + m <= u64::MAX,
                    forall|b: int|
                        0 <= b < hbins ==> #[trigger] hist@[b] == init[b] + masked_sum(
                            |q: int|
                                window_eq_hits(
                                    arr,
                                    counts_prefix(counts, q) as int,
                                    counts[q] as int,
                                    b,
                                ),
                            |q: int| mask.pixels@[q],
                            p as int,
                        ) + window_eq_hits(arr, cursor as int, j as int, b),
                    forall|b: int|
                        0 <= b < hbins ==> hist@[b] <= init[b] + cursor + j,
                decreases c as usize - j,
            {
                proof {
                    assert(2 * (cursor + j) + 2 <= strip_bytes) by (nonlinear_arith)
                        requires
                            cursor + j < m,
                            m == strip_bytes / 2,
                            strip_bytes % 2 == 0,
                    ;
                }
                let t: u16 = read_u16(data, base + 2 * (cursor + j));
                proof {
                    assert(t == arr[cursor + j]);
                }
                if (t as usize) < hbins {
                    let tb: usize = t as usize;
                    let cur: u64 = hist[tb];
                    hist.set(tb, cur + 1);
                }
                j = j + 1;
            }
        }
        cursor = cursor + c as usize;
        p = p + 1;
    }
    proof {
        lemma_counts_prefix_monotone(counts, npix as int, npix as int);
    }
    *pos = base + strip_bytes;
    Ok(())
}

} // verus!
