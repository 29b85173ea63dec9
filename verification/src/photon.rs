//! The photon word and the counting model of raw strips.
//!
//! A raw strip is a run of 64-bit little-endian words, one per photon:
//! bits 48..63 hold the y coordinate, bits 32..47 the x coordinate, and
//! bits 0..31 the arrival-time bin. Every raw kernel is specified against
//! the counting functions here: how many photons of a word sequence land on
//! a given pixel (`hit_count`), inside a mask (`mask_hits`), or in an
//! arrival-time bin (`tau_hits`), and the total of their arrival times per
//! pixel (`tau_sum_at`) or per mask (`mask_tau_sum`).

use vstd::prelude::*;
use crate::dimensions::{lemma_pix_compose, lemma_wrap_bounds, shift_pix, wrap};
use crate::summation::{
    index_sum, lemma_masked_sum_bump, lemma_masked_sum_congruent, lemma_masked_sum_zero,
    masked_sum,
};

verus! {

/// Bits 48..63 of a photon word: the y coordinate.
pub open spec fn photon_y(w: u64) -> u64 {
    (w >> 48) & 0xFFFF
}

/// Bits 32..47 of a photon word: the x coordinate.
pub open spec fn photon_x(w: u64) -> u64 {
    (w >> 32) & 0xFFFF
}

/// Bits 0..31 of a photon word: the arrival-time bin.
pub open spec fn photon_tau(w: u64) -> u64 {
    w & 0xFFFF_FFFF
}

/// Field bounds of the photon word.
pub proof fn lemma_photon_field_bounds(w: u64)
    ensures
        photon_y(w) < 0x1_0000,
        photon_x(w) < 0x1_0000,
        photon_tau(w) < 0x1_0000_0000,
{
    assert(((w >> 48) & 0xFFFF) < 0x1_0000 && ((w >> 32) & 0xFFFF) < 0x1_0000 && (w
        & 0xFFFF_FFFF) < 0x1_0000_0000) by (bit_vector);
}

/// Extracts the y coordinate of a photon word.
pub fn photon_to_y(w: u64) -> (r: u64)
    ensures
        r == photon_y(w),
        r < 0x1_0000,
{
    proof {
        lemma_photon_field_bounds(w);
    }
    (w >> 48) & 0xFFFF
}

/// Extracts the x coordinate of a photon word.
pub fn photon_to_x(w: u64) -> (r: u64)
    ensures
        r == photon_x(w),
        r < 0x1_0000,
{
    proof {
        lemma_photon_field_bounds(w);
    }
    (w >> 32) & 0xFFFF
}

/// Extracts the arrival-time bin of a photon word.
pub fn photon_to_tau(w: u64) -> (r: u64)
    ensures
        r == photon_tau(w),
        r < 0x1_0000_0000,
{
    proof {
        lemma_photon_field_bounds(w);
    }
    w & 0xFFFF_FFFF
}

/// The pixel of a `h` x `w` frame that photon `ph` lands on under the
/// registration shift `(dy, dx)`: row `(y + dy) mod h`, column
/// `(x + dx) mod w`, flattened in row-major order.
pub open spec fn dest_pix(ph: u64, dy: int, dx: int, h: int, w: int) -> int {
    wrap(photon_y(ph) as int, dy, h) * w + wrap(photon_x(ph) as int, dx, w)
}

/// The landing pixel is inside the frame.
pub proof fn lemma_dest_pix_bounds(ph: u64, dy: int, dx: int, h: int, w: int)
    requires
        0 < h,
        0 < w,
    ensures
        0 <= dest_pix(ph, dy, dx, h, w) < h * w,
        dest_pix(ph, dy, dx, h, w) / w == wrap(photon_y(ph) as int, dy, h),
        dest_pix(ph, dy, dx, h, w) % w == wrap(photon_x(ph) as int, dx, w),
{
    lemma_wrap_bounds(photon_y(ph) as int, dy, h);
    lemma_wrap_bounds(photon_x(ph) as int, dx, w);
    lemma_pix_compose(
        wrap(photon_y(ph) as int, dy, h),
        wrap(photon_x(ph) as int, dx, w),
        h,
        w,
    );
}

/// Registering a photon is shifting its unregistered landing pixel.
pub proof fn lemma_dest_pix_shift(ph: u64, dy: int, dx: int, h: int, w: int)
    requires
        0 < h,
        0 < w,
    ensures
        dest_pix(ph, dy, dx, h, w) == shift_pix(dest_pix(ph, 0, 0, h, w), dy, dx, h, w),
{
    let y = photon_y(ph) as int;
    let x = photon_x(ph) as int;
    lemma_dest_pix_bounds(ph, 0, 0, h, w);
    crate::dimensions::lemma_wrap_cancel(y, 0, dy, h);
    crate::dimensions::lemma_wrap_cancel(x, 0, dx, w);
}

/// How many photons of `ws` land on pixel `p`.
pub open spec fn hit_count(ws: Seq<u64>, dy: int, dx: int, h: int, w: int, p: int) -> nat
    decreases ws.len(),
{
    if ws.len() == 0 {
        0
    } else {
        hit_count(ws.drop_last(), dy, dx, h, w, p) + (if dest_pix(ws.last(), dy, dx, h, w)
            == p {
            1nat
        } else {
            0nat
        })
    }
}

/// How many photons of `ws` land on a pixel where `mask` is set.
pub open spec fn mask_hits(ws: Seq<u64>, dy: int, dx: int, h: int, w: int, mask: Seq<bool>) -> nat
    decreases ws.len(),
{
    if ws.len() == 0 {
        0
    } else {
        mask_hits(ws.drop_last(), dy, dx, h, w, mask) + (if mask[dest_pix(
            ws.last(),
            dy,
            dx,
            h,
            w,
        )] {
            1nat
        } else {
            0nat
        })
    }
}

/// The sum of the arrival times of the photons of `ws` that land on pixel `p`.
pub open spec fn tau_sum_at(ws: Seq<u64>, dy: int, dx: int, h: int, w: int, p: int) -> nat
    decreases ws.len(),
{
    if ws.len() == 0 {
        0
    } else {
        tau_sum_at(ws.drop_last(), dy, dx, h, w, p) + (if dest_pix(ws.last(), dy, dx, h, w)
            == p {
            photon_tau(ws.last()) as nat
        } else {
            0nat
        })
    }
}

/// The sum of the arrival times of the photons of `ws` that land inside `mask`.
pub open spec fn mask_tau_sum(
    ws: Seq<u64>,
    dy: int,
    dx: int,
    h: int,
    w: int,
    mask: Seq<bool>,
) -> nat
    decreases ws.len(),
{
    if ws.len() == 0 {
        0
    } else {
        mask_tau_sum(ws.drop_last(), dy, dx, h, w, mask) + (if mask[dest_pix(
            ws.last(),
            dy,
            dx,
            h,
            w,
        )] {
            photon_tau(ws.last()) as nat
        } else {
            0nat
        })
    }
}

/// How many photons of `ws` have arrival-time bin exactly `b`.
pub open spec fn tau_hits(ws: Seq<u64>, b: int) -> nat
    decreases ws.len(),
{
    if ws.len() == 0 {
        0
    } else {
        tau_hits(ws.drop_last(), b) + (if photon_tau(ws.last()) == b {
            1nat
        } else {
            0nat
        })
    }
}

/// How many photons of `ws` have arrival-time bin below `hbins`.
pub open spec fn tau_in_range(ws: Seq<u64>, hbins: int) -> nat
    decreases ws.len(),
{
    if ws.len() == 0 {
        0
    } else {
        tau_in_range(ws.drop_last(), hbins) + (if photon_tau(ws.last()) < hbins {
            1nat
        } else {
            0nat
        })
    }
}

/// How many photons of `ws` land on pixel `p` with arrival-time bin
/// `(tau mod hbins) == b`: the tau-resolved volume model.
pub open spec fn volume_hits(
    ws: Seq<u64>,
    dy: int,
    dx: int,
    h: int,
    w: int,
    hbins: int,
    p: int,
    b: int,
) -> nat
    decreases ws.len(),
{
    if ws.len() == 0 {
        0
    } else {
        volume_hits(ws.drop_last(), dy, dx, h, w, hbins, p, b) + (if dest_pix(
            ws.last(),
            dy,
            dx,
            h,
            w,
        ) == p && photon_tau(ws.last()) as int % hbins == b {
            1nat
        } else {
            0nat
        })
    }
}

/// How many photons of `ws` land inside `mask` with arrival-time bin
/// exactly `b`: the masked histogram model.
pub open spec fn mask_tau_hits(
    ws: Seq<u64>,
    dy: int,
    dx: int,
    h: int,
    w: int,
    mask: Seq<bool>,
    b: int,
) -> nat
    decreases ws.len(),
{
    if ws.len() == 0 {
        0
    } else {
        mask_tau_hits(ws.drop_last(), dy, dx, h, w, mask, b) + (if mask[dest_pix(
            ws.last(),
            dy,
            dx,
            h,
            w,
        )] && photon_tau(ws.last()) == b {
            1nat
        } else {
            0nat
        })
    }
}

/// Masked per-bin counts are bounded by the number of photons.
pub proof fn lemma_mask_tau_hits_bounded(
    ws: Seq<u64>,
    dy: int,
    dx: int,
    h: int,
    w: int,
    mask: Seq<bool>,
    b: int,
)
    ensures
        mask_tau_hits(ws, dy, dx, h, w, mask, b) <= ws.len(),
    decreases ws.len(),
{
    if ws.len() > 0 {
        lemma_mask_tau_hits_bounded(ws.drop_last(), dy, dx, h, w, mask, b);
    }
}

/// Every per-pixel or per-bin count is bounded by the number of photons,
/// and per-pixel arrival-time sums by `len * 0xFFFF_FFFF`.
pub proof fn lemma_counts_bounded(ws: Seq<u64>, dy: int, dx: int, h: int, w: int, p: int)
    ensures
        hit_count(ws, dy, dx, h, w, p) <= ws.len(),
        tau_sum_at(ws, dy, dx, h, w, p) <= ws.len() * 0xFFFF_FFFF,
    decreases ws.len(),
{
    if ws.len() > 0 {
        lemma_counts_bounded(ws.drop_last(), dy, dx, h, w, p);
        lemma_photon_field_bounds(ws.last());
        assert((ws.len() - 1) * 0xFFFF_FFFF + 0xFFFF_FFFF == ws.len() * 0xFFFF_FFFF)
            by (nonlinear_arith);
    }
}

/// Mask reductions are bounded by the number of photons and by
/// `len * 0xFFFF_FFFF` respectively.
pub proof fn lemma_mask_counts_bounded(
    ws: Seq<u64>,
    dy: int,
    dx: int,
    h: int,
    w: int,
    mask: Seq<bool>,
)
    ensures
        mask_hits(ws, dy, dx, h, w, mask) <= ws.len(),
        mask_tau_sum(ws, dy, dx, h, w, mask) <= ws.len() * 0xFFFF_FFFF,
    decreases ws.len(),
{
    if ws.len() > 0 {
        lemma_mask_counts_bounded(ws.drop_last(), dy, dx, h, w, mask);
        lemma_photon_field_bounds(ws.last());
        assert((ws.len() - 1) * 0xFFFF_FFFF + 0xFFFF_FFFF == ws.len() * 0xFFFF_FFFF)
            by (nonlinear_arith);
    }
}

/// Per-bin counts are bounded by the number of photons.
pub proof fn lemma_tau_hits_bounded(ws: Seq<u64>, b: int)
    ensures
        tau_hits(ws, b) <= ws.len(),
    decreases ws.len(),
{
    if ws.len() > 0 {
        lemma_tau_hits_bounded(ws.drop_last(), b);
    }
}

/// Volume counts are bounded by the number of photons.
pub proof fn lemma_volume_hits_bounded(
    ws: Seq<u64>,
    dy: int,
    dx: int,
    h: int,
    w: int,
    hbins: int,
    p: int,
    b: int,
)
    ensures
        volume_hits(ws, dy, dx, h, w, hbins, p, b) <= ws.len(),
    decreases ws.len(),
{
    if ws.len() > 0 {
        lemma_volume_hits_bounded(ws.drop_last(), dy, dx, h, w, hbins, p, b);
    }
}

/// The photons of a mask reduction are exactly the photons counted pixel by
/// pixel under the mask: `mask_hits` equals the mask-weighted sum of the
/// per-pixel `hit_count` image, and likewise for the arrival-time sums.
pub proof fn lemma_mask_reduction_is_weighted_image(
    ws: Seq<u64>,
    dy: int,
    dx: int,
    h: int,
    w: int,
    mask: Seq<bool>,
)
    requires
        0 < h,
        0 < w,
        mask.len() == h * w,
    ensures
        mask_hits(ws, dy, dx, h, w, mask) == masked_sum(
            |p: int| hit_count(ws, dy, dx, h, w, p),
            |p: int| mask[p],
            h * w,
        ),
        mask_tau_sum(ws, dy, dx, h, w, mask) == masked_sum(
            |p: int| tau_sum_at(ws, dy, dx, h, w, p),
            |p: int| mask[p],
            h * w,
        ),
    decreases ws.len(),
{
    let n = h * w;
    let m = |p: int| mask[p];
    if ws.len() == 0 {
        lemma_masked_sum_zero(|p: int| hit_count(ws, dy, dx, h, w, p), m, n);
        lemma_masked_sum_zero(|p: int| tau_sum_at(ws, dy, dx, h, w, p), m, n);
    } else {
        let prev = ws.drop_last();
        let q = dest_pix(ws.last(), dy, dx, h, w);
        lemma_dest_pix_bounds(ws.last(), dy, dx, h, w);
        lemma_mask_reduction_is_weighted_image(prev, dy, dx, h, w, mask);
        lemma_masked_sum_bump(
            |p: int| hit_count(prev, dy, dx, h, w, p),
            |p: int| hit_count(ws, dy, dx, h, w, p),
            m,
            n,
            q,
            1,
        );
        lemma_masked_sum_bump(
            |p: int| tau_sum_at(prev, dy, dx, h, w, p),
            |p: int| tau_sum_at(ws, dy, dx, h, w, p),
            m,
            n,
            q,
            photon_tau(ws.last()) as nat,
        );
    }
}

/// Every photon lands on exactly one pixel: the per-pixel counts over the
/// whole frame add up to the number of photons.
pub proof fn lemma_total_hits(ws: Seq<u64>, dy: int, dx: int, h: int, w: int)
    requires
        0 < h,
        0 < w,
    ensures
        index_sum(|p: int| hit_count(ws, dy, dx, h, w, p), h * w) == ws.len(),
    decreases ws.len(),
{
    let n = h * w;
    if ws.len() == 0 {
        lemma_masked_sum_zero(|p: int| hit_count(ws, dy, dx, h, w, p), |p: int| true, n);
    } else {
        let prev = ws.drop_last();
        let q = dest_pix(ws.last(), dy, dx, h, w);
        lemma_dest_pix_bounds(ws.last(), dy, dx, h, w);
        lemma_total_hits(prev, dy, dx, h, w);
        lemma_masked_sum_bump(
            |p: int| hit_count(prev, dy, dx, h, w, p),
            |p: int| hit_count(ws, dy, dx, h, w, p),
            |p: int| true,
            n,
            q,
            1,
        );
    }
}

/// Every photon with an in-range arrival time falls in exactly one histogram
/// bin: the per-bin counts add up to the number of in-range photons.
pub proof fn lemma_total_tau_hits(ws: Seq<u64>, hbins: int)
    requires
        0 < hbins,
    ensures
        index_sum(|b: int| tau_hits(ws, b), hbins) == tau_in_range(ws, hbins),
    decreases ws.len(),
{
    if ws.len() == 0 {
        lemma_masked_sum_zero(|b: int| tau_hits(ws, b), |b: int| true, hbins);
    } else {
        let prev = ws.drop_last();
        let t = photon_tau(ws.last()) as int;
        lemma_total_tau_hits(prev, hbins);
        if t < hbins {
            lemma_masked_sum_bump(
                |b: int| tau_hits(prev, b),
                |b: int| tau_hits(ws, b),
                |b: int| true,
                hbins,
                t,
                1,
            );
        } else {
            lemma_masked_sum_congruent(
                |b: int| tau_hits(prev, b),
                |b: int| tau_hits(ws, b),
                |b: int| true,
                hbins,
            );
        }
    }
}

/// One decoding step, pointwise: appending photon `ws[i]` to the prefix
/// changes the per-pixel counts and arrival-time sums only at its landing
/// pixel, and the per-bin counts only at its arrival bin.
pub proof fn lemma_prefix_step(ws: Seq<u64>, i: int, dy: int, dx: int, h: int, w: int)
    requires
        0 <= i < ws.len(),
    ensures
        forall|p: int|
            #[trigger] hit_count(ws.take(i + 1), dy, dx, h, w, p) == hit_count(
                ws.take(i),
                dy,
                dx,
                h,
                w,
                p,
            ) + (if dest_pix(ws[i], dy, dx, h, w) == p {
                1nat
            } else {
                0nat
            }),
        forall|p: int|
            #[trigger] tau_sum_at(ws.take(i + 1), dy, dx, h, w, p) == tau_sum_at(
                ws.take(i),
                dy,
                dx,
                h,
                w,
                p,
            ) + (if dest_pix(ws[i], dy, dx, h, w) == p {
                photon_tau(ws[i]) as nat
            } else {
                0nat
            }),
        forall|b: int|
            #[trigger] tau_hits(ws.take(i + 1), b) == tau_hits(ws.take(i), b) + (if photon_tau(
                ws[i],
            ) == b {
                1nat
            } else {
                0nat
            }),
        forall|mask: Seq<bool>|
            #[trigger] mask_hits(ws.take(i + 1), dy, dx, h, w, mask) == mask_hits(
                ws.take(i),
                dy,
                dx,
                h,
                w,
                mask,
            ) + (if mask[dest_pix(ws[i], dy, dx, h, w)] {
                1nat
            } else {
                0nat
            }),
        forall|mask: Seq<bool>|
            #[trigger] mask_tau_sum(ws.take(i + 1), dy, dx, h, w, mask) == mask_tau_sum(
                ws.take(i),
                dy,
                dx,
                h,
                w,
                mask,
            ) + (if mask[dest_pix(ws[i], dy, dx, h, w)] {
                photon_tau(ws[i]) as nat
            } else {
                0nat
            }),
{
    assert(ws.take(i + 1).drop_last() =~= ws.take(i));
    assert(ws.take(i + 1).last() == ws[i]);
}

/// A pixel no photon landed on collects no arrival time, and a mask no
/// photon landed in collects none either.
pub proof fn lemma_no_hits_no_tau(ws: Seq<u64>, dy: int, dx: int, h: int, w: int, p: int)
    ensures
        hit_count(ws, dy, dx, h, w, p) == 0 ==> tau_sum_at(ws, dy, dx, h, w, p) == 0,
    decreases ws.len(),
{
    if ws.len() > 0 {
        lemma_no_hits_no_tau(ws.drop_last(), dy, dx, h, w, p);
    }
}

/// A mask no photon landed in collects no arrival time.
pub proof fn lemma_no_mask_hits_no_tau(
    ws: Seq<u64>,
    dy: int,
    dx: int,
    h: int,
    w: int,
    mask: Seq<bool>,
)
    ensures
        mask_hits(ws, dy, dx, h, w, mask) == 0 ==> mask_tau_sum(ws, dy, dx, h, w, mask) == 0,
    decreases ws.len(),
{
    if ws.len() > 0 {
        lemma_no_mask_hits_no_tau(ws.drop_last(), dy, dx, h, w, mask);
    }
}

/// The registered per-pixel counts are the cyclic roll of the unregistered
/// ones: pixel `p` of the shifted image collects exactly the photons of the
/// pixel the roll brings onto `p`.
pub proof fn lemma_hit_count_roll(ws: Seq<u64>, dy: int, dx: int, h: int, w: int, p: int)
    requires
        0 < h,
        0 < w,
        0 <= p < h * w,
    ensures
        hit_count(ws, dy, dx, h, w, p) == hit_count(
            ws,
            0,
            0,
            h,
            w,
            crate::dimensions::roll_source(p, dy, dx, h, w),
        ),
        tau_sum_at(ws, dy, dx, h, w, p) == tau_sum_at(
            ws,
            0,
            0,
            h,
            w,
            crate::dimensions::roll_source(p, dy, dx, h, w),
        ),
    decreases ws.len(),
{
    let src = crate::dimensions::roll_source(p, dy, dx, h, w);
    if ws.len() > 0 {
        lemma_hit_count_roll(ws.drop_last(), dy, dx, h, w, p);
        let ph = ws.last();
        lemma_dest_pix_shift(ph, dy, dx, h, w);
        lemma_dest_pix_bounds(ph, 0, 0, h, w);
        crate::dimensions::lemma_roll_inverse(p, dy, dx, h, w);
        crate::dimensions::lemma_roll_inverse(dest_pix(ph, 0, 0, h, w), dy, dx, h, w);
    }
}

} // verus!
