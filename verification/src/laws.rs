//! The library's general laws, stated over the same specification
//! functions that the reader methods' contracts use, and proved for every
//! frame record and file. One more law lives as an `ensures` clause rather
//! than here: every dispatcher of `crate::dispatch` (and the volume loader
//! of `crate::flim`) restores the reader position on every exit path.

use vstd::prelude::*;
use crate::compressed::{counts_prefix, tau16_in_range};
use crate::dimensions::{lemma_rolled_identity, rolled, shift_pix};
use crate::frame::lemma_dims_le_pixels;
use crate::intensity::add16;
use crate::photon::{
    hit_count, lemma_hit_count_roll, lemma_mask_reduction_is_weighted_image, lemma_total_hits,
    lemma_total_tau_hits, mask_hits, photon_tau, tau_hits, tau_in_range,
};
use crate::record::{
    comp_counts_ok, flim_decodable, flim_mask_decodable, frame_hist_spec, frame_intensity_spec,
    frame_mask_sum_spec, frame_mask_tau_spec, frame_tau_spec, hist_decodable,
    intensity_decodable, mask_sum_decodable, record_arrivals, record_counts, record_tiff_image,
    record_words, zero16, FrameRecord, FORMAT_COMPRESSED, FORMAT_RAW,
};
use crate::summation::{
    index_sum, lemma_index_sum_congruent, lemma_masked_sum_congruent,
    lemma_masked_sum_mask_congruent, masked_sum,
};

verus! {

/// `shift_pix` by `(0, 0)` is the identity on in-range pixels; masks and
/// images looked up through a zero shift are looked up directly.
proof fn lemma_zero_shift_mask(mask: Seq<bool>, h: int, w: int)
    requires
        0 < h,
        0 < w,
    ensures
        forall|p: int| 0 <= p < h * w ==> #[trigger] shift_pix(p, 0, 0, h, w) == p,
{
    assert forall|p: int| 0 <= p < h * w implies #[trigger] shift_pix(p, 0, 0, h, w) == p by {
        crate::dimensions::lemma_pix_decompose(p, h, w);
        vstd::arithmetic::div_mod::lemma_small_mod((p / w) as nat, h as nat);
        vstd::arithmetic::div_mod::lemma_small_mod((p % w) as nat, w as nat);
    }
}

/// A region-of-interest reduction is the mask-weighted sum of the decoded
/// intensity image: for every frame whose strip decodes, and every mask of
/// the frame's shape, the masked photon sum equals the sum of
/// `mask[p] * image[p]` over the frame's pixels. For a raw frame the
/// per-pixel counts must stay below the 16-bit image wraparound.
pub proof fn law_sum_roi_is_masked_image_total(data: Seq<u8>, rec: FrameRecord, mask: Seq<bool>)
    requires
        rec.wf(),
        mask.len() == rec.pixel_count(),
        mask_sum_decodable(data, rec),
        rec.siff_tag == Some(FORMAT_RAW) ==> forall|p: int|
            0 <= p < rec.pixel_count() ==> #[trigger] hit_count(
                record_words(data, rec),
                0,
                0,
                rec.height as int,
                rec.width as int,
                p,
            ) < 0x1_0000,
    ensures
        frame_mask_sum_spec(data, rec, mask, 0, 0) == masked_sum(
            |p: int|
                frame_intensity_spec(data, rec, zero16(rec.pixel_count()), 0, 0)[p] as nat,
            |p: int| mask[p],
            rec.pixel_count(),
        ),
{
    let h = rec.height as int;
    let w = rec.width as int;
    let n = rec.pixel_count();
    let img = frame_intensity_spec(data, rec, zero16(n), 0, 0);
    lemma_zero_shift_mask(mask, h, w);
    if rec.siff_tag == Some(FORMAT_RAW) {
        let ws = record_words(data, rec);
        lemma_mask_reduction_is_weighted_image(ws, 0, 0, h, w, mask);
        assert forall|p: int| 0 <= p < n implies #[trigger] img[p] as nat == hit_count(
            ws,
            0,
            0,
            h,
            w,
            p,
        ) by {
            vstd::arithmetic::div_mod::lemma_small_mod(
                hit_count(ws, 0, 0, h, w, p),
                0x1_0000,
            );
        }
        lemma_masked_sum_congruent(
            |p: int| hit_count(ws, 0, 0, h, w, p),
            |p: int| img[p] as nat,
            |p: int| mask[p],
            n,
        );
    } else if rec.siff_tag == Some(FORMAT_COMPRESSED) {
        let counts = record_counts(data, rec);
        lemma_rolled_identity(counts, h, w);
        lemma_masked_sum_mask_congruent(
            |p: int| counts[p] as nat,
            |p: int| mask[shift_pix(p, 0, 0, h, w)],
            |p: int| mask[p],
            n,
        );
        lemma_masked_sum_congruent(
            |p: int| counts[p] as nat,
            |p: int| img[p] as nat,
            |p: int| mask[p],
            n,
        );
    } else {
        let tiff = record_tiff_image(data, rec);
        lemma_rolled_identity(tiff, h, w);
        lemma_masked_sum_mask_congruent(
            |p: int| tiff[p] as nat,
            |p: int| mask[shift_pix(p, 0, 0, h, w)],
            |p: int| mask[p],
            n,
        );
        lemma_masked_sum_congruent(
            |p: int| tiff[p] as nat,
            |p: int| img[p] as nat,
            |p: int| mask[p],
            n,
        );
    }
}

/// All photons of a sequence have in-range arrival times, so every one of
/// them is counted.
proof fn lemma_tau_all_in_range(ws: Seq<u64>, hbins: int)
    requires
        forall|i: int| 0 <= i < ws.len() ==> photon_tau(#[trigger] ws[i]) < hbins,
    ensures
        tau_in_range(ws, hbins) == ws.len(),
    decreases ws.len(),
{
    if ws.len() > 0 {
        lemma_tau_all_in_range(ws.drop_last(), hbins);
    }
}

/// All arrival words are in range, so every one of them is counted.
proof fn lemma_tau16_all_in_range(arr: Seq<u16>, hbins: int)
    requires
        forall|i: int| 0 <= i < arr.len() ==> (#[trigger] arr[i]) < hbins,
    ensures
        tau16_in_range(arr, hbins) == arr.len(),
    decreases arr.len(),
{
    if arr.len() > 0 {
        lemma_tau16_all_in_range(arr.drop_last(), hbins);
    }
}

/// A frame's histogram holds as many photons as its intensity image: the
/// total over the histogram's bins equals the total over the image's
/// pixels. Holds for every frame whose photon data decodes, whenever every
/// arrival time falls below the histogram length (an out-of-range arrival
/// is dropped from the histogram but still counted by the intensity
/// image), the pixel counts stay below the 16-bit wraparound, and — for a
/// compressed frame — the intensity slab claims exactly the photons the
/// arrival slab holds.
pub proof fn law_histogram_total_is_intensity_total(
    data: Seq<u8>,
    rec: FrameRecord,
    hbins: int,
)
    requires
        rec.wf(),
        0 < hbins,
        hist_decodable(data, rec),
        intensity_decodable(data, rec),
        rec.siff_tag == Some(FORMAT_RAW) ==> forall|i: int|
            0 <= i < record_words(data, rec).len() ==> photon_tau(
                #[trigger] record_words(data, rec)[i],
            ) < hbins,
        rec.siff_tag == Some(FORMAT_RAW) ==> forall|p: int|
            0 <= p < rec.pixel_count() ==> #[trigger] hit_count(
                record_words(data, rec),
                0,
                0,
                rec.height as int,
                rec.width as int,
                p,
            ) < 0x1_0000,
        rec.siff_tag == Some(FORMAT_COMPRESSED) ==> forall|i: int|
            0 <= i < record_arrivals(data, rec).len() ==> (#[trigger] record_arrivals(
                data,
                rec,
            )[i]) < hbins,
        rec.siff_tag == Some(FORMAT_COMPRESSED) ==> counts_prefix(
            record_counts(data, rec),
            rec.pixel_count(),
        ) == record_arrivals(data, rec).len(),
    ensures
        index_sum(|b: int| frame_hist_spec(data, rec, b), hbins) == index_sum(
            |p: int|
                frame_intensity_spec(data, rec, zero16(rec.pixel_count()), 0, 0)[p] as nat,
            rec.pixel_count(),
        ),
{
    let h = rec.height as int;
    let w = rec.width as int;
    let n = rec.pixel_count();
    let img = frame_intensity_spec(data, rec, zero16(n), 0, 0);
    if rec.siff_tag == Some(FORMAT_RAW) {
        let ws = record_words(data, rec);
        lemma_total_tau_hits(ws, hbins);
        lemma_tau_all_in_range(ws, hbins);
        lemma_index_sum_congruent(
            |b: int| tau_hits(ws, b),
            |b: int| frame_hist_spec(data, rec, b),
            hbins,
        );
        lemma_total_hits(ws, 0, 0, h, w);
        assert forall|p: int| 0 <= p < n implies #[trigger] img[p] as nat == hit_count(
            ws,
            0,
            0,
            h,
            w,
            p,
        ) by {
            vstd::arithmetic::div_mod::lemma_small_mod(
                hit_count(ws, 0, 0, h, w, p),
                0x1_0000,
            );
        }
        lemma_index_sum_congruent(
            |p: int| hit_count(ws, 0, 0, h, w, p),
            |p: int| img[p] as nat,
            n,
        );
    } else {
        let counts = record_counts(data, rec);
        let arr = record_arrivals(data, rec);
        crate::compressed::lemma_total_tau16_hits(arr, hbins);
        lemma_tau16_all_in_range(arr, hbins);
        lemma_index_sum_congruent(
            |b: int| crate::compressed::tau16_hits(arr, b),
            |b: int| frame_hist_spec(data, rec, b),
            hbins,
        );
        lemma_rolled_identity(counts, h, w);
        crate::compressed::lemma_prefix_eq_sum(counts, n, |p: int| img[p] as nat);
    }
}

/// Registration is a cyclic roll: for every frame and shift, the
/// registered decode is the unregistered decode rolled by the shift. For
/// raw frames the shift is folded into the photons' landing coordinates;
/// for compressed and plain-tiff frames it is an image roll; this law says
/// the two agree with rolling after the fact, wraparound edges included.
pub proof fn law_registered_decode_is_rolled(
    data: Seq<u8>,
    rec: FrameRecord,
    dy: int,
    dx: int,
)
    requires
        rec.wf(),
    ensures
        frame_intensity_spec(data, rec, zero16(rec.pixel_count()), dy, dx) == rolled(
            frame_intensity_spec(data, rec, zero16(rec.pixel_count()), 0, 0),
            dy,
            dx,
            rec.height as int,
            rec.width as int,
        ),
{
    let h = rec.height as int;
    let w = rec.width as int;
    let n = rec.pixel_count();
    let reg = frame_intensity_spec(data, rec, zero16(n), dy, dx);
    let base = frame_intensity_spec(data, rec, zero16(n), 0, 0);
    if rec.siff_tag == Some(FORMAT_RAW) {
        let ws = record_words(data, rec);
        assert forall|p: int| 0 <= p < n implies #[trigger] reg[p] == rolled(
            base,
            dy,
            dx,
            h,
            w,
        )[p] by {
            lemma_hit_count_roll(ws, dy, dx, h, w, p);
            crate::dimensions::lemma_shift_pix_bounds(p, -dy, -dx, h, w);
        }
        assert(reg =~= rolled(base, dy, dx, h, w));
    } else if rec.siff_tag == Some(FORMAT_COMPRESSED) {
        let counts = record_counts(data, rec);
        lemma_rolled_identity(counts, h, w);
        assert(base == counts);
    } else {
        let tiff = record_tiff_image(data, rec);
        lemma_rolled_identity(tiff, h, w);
        assert(base == tiff);
    }
}

/// The lifetime decode pairs with the intensity decode: whenever a frame's
/// photon data decodes for lifetimes, its intensity decodes too, the two
/// outputs share the frame's shape, and a pixel whose intensity is zero has
/// a zero arrival-time sum — the arrival data never outruns the photon
/// counts it is paired with. (For a raw frame the pixel counts must stay
/// below the 16-bit wraparound, or a wrapped pixel could read zero while
/// photons, and arrival time, landed on it.)
pub proof fn law_flim_pairs_with_intensity(data: Seq<u8>, rec: FrameRecord, dy: int, dx: int)
    requires
        rec.wf(),
        flim_decodable(data, rec),
        rec.siff_tag == Some(FORMAT_RAW) ==> forall|p: int|
            0 <= p < rec.pixel_count() ==> #[trigger] hit_count(
                record_words(data, rec),
                dy,
                dx,
                rec.height as int,
                rec.width as int,
                p,
            ) < 0x1_0000,
    ensures
        intensity_decodable(data, rec),
        frame_tau_spec(data, rec, dy, dx).len() == rec.pixel_count(),
        frame_intensity_spec(data, rec, zero16(rec.pixel_count()), dy, dx).len()
            == rec.pixel_count(),
        forall|p: int|
            0 <= p < rec.pixel_count() && frame_intensity_spec(
                data,
                rec,
                zero16(rec.pixel_count()),
                dy,
                dx,
            )[p] == 0 ==> #[trigger] frame_tau_spec(data, rec, dy, dx)[p] == 0,
{
    let h = rec.height as int;
    let w = rec.width as int;
    let n = rec.pixel_count();
    let img = frame_intensity_spec(data, rec, zero16(n), dy, dx);
    let tau = frame_tau_spec(data, rec, dy, dx);
    if rec.siff_tag == Some(FORMAT_RAW) {
        let ws = record_words(data, rec);
        assert forall|p: int| 0 <= p < n && img[p] == 0 implies #[trigger] tau[p] == 0 by {
            vstd::arithmetic::div_mod::lemma_small_mod(
                hit_count(ws, dy, dx, h, w, p),
                0x1_0000,
            );
            crate::photon::lemma_no_hits_no_tau(ws, dy, dx, h, w, p);
        }
    } else {
        let counts = record_counts(data, rec);
        assert forall|p: int| 0 <= p < n && img[p] == 0 implies #[trigger] tau[p] == 0 by {
            crate::dimensions::lemma_shift_pix_bounds(p, -dy, -dx, h, w);
        }
    }
}

/// The masked lifetime reduction pairs with the masked intensity
/// reduction: whenever a frame supports the former it supports the latter
/// — the intensity sums the two deliver obey one specification — and a
/// region that collects no photons collects no arrival time either. (For
/// a raw frame nothing more is needed: the reduction counts photons
/// directly, without a wrapping image.)
pub proof fn law_flim_mask_pairs_with_intensity_mask(
    data: Seq<u8>,
    rec: FrameRecord,
    mask: Seq<bool>,
    dy: int,
    dx: int,
)
    requires
        rec.wf(),
        flim_mask_decodable(data, rec),
        mask.len() == rec.pixel_count(),
    ensures
        mask_sum_decodable(data, rec),
        frame_mask_sum_spec(data, rec, mask, dy, dx) == 0 ==> frame_mask_tau_spec(
            data,
            rec,
            mask,
            dy,
            dx,
        ) == 0,
{
    let h = rec.height as int;
    let w = rec.width as int;
    let n = rec.pixel_count();
    if rec.siff_tag == Some(FORMAT_RAW) {
        crate::photon::lemma_no_mask_hits_no_tau(record_words(data, rec), dy, dx, h, w, mask);
    } else if frame_mask_sum_spec(data, rec, mask, dy, dx) == 0 {
        let counts = record_counts(data, rec);
        let arr = record_arrivals(data, rec);
        let shifted = |p: int| mask[shift_pix(p, dy, dx, h, w)];
        crate::summation::lemma_masked_sum_zero_inverse(
            |p: int| counts[p] as nat,
            shifted,
            n,
        );
        assert forall|p: int| 0 <= p < n && shifted(p) implies #[trigger] crate::compressed::pixel_tau_sum(
            counts,
            arr,
            p,
        ) == 0 by {
            assert((|p2: int| counts[p2] as nat)(p) == 0);
        }
        crate::summation::lemma_masked_sum_of_masked_zero(
            |p: int| crate::compressed::pixel_tau_sum(counts, arr, p),
            shifted,
            n,
        );
    }
}

/// The pointwise union of two masks.
pub open spec fn mask_union(a: Seq<bool>, b: Seq<bool>) -> Seq<bool> {
    Seq::new(a.len(), |p: int| a[p] || b[p])
}

/// Two masks are disjoint when no pixel is set in both.
pub open spec fn masks_disjoint(a: Seq<bool>, b: Seq<bool>) -> bool {
    forall|p: int| 0 <= p < a.len() ==> !((#[trigger] a[p]) && b[p])
}

/// Photon counts under a union of disjoint masks split into the counts
/// under each mask.
proof fn lemma_mask_hits_additive(
    ws: Seq<u64>,
    dy: int,
    dx: int,
    h: int,
    w: int,
    a: Seq<bool>,
    b: Seq<bool>,
)
    requires
        0 < h,
        0 < w,
        a.len() == h * w,
        b.len() == h * w,
        masks_disjoint(a, b),
    ensures
        mask_hits(ws, dy, dx, h, w, mask_union(a, b)) == mask_hits(ws, dy, dx, h, w, a)
            + mask_hits(ws, dy, dx, h, w, b),
    decreases ws.len(),
{
    if ws.len() > 0 {
        lemma_mask_hits_additive(ws.drop_last(), dy, dx, h, w, a, b);
        crate::photon::lemma_dest_pix_bounds(ws.last(), dy, dx, h, w);
    }
}

/// Weighted pixel sums under a union of disjoint masks split into the sums
/// under each mask.
proof fn lemma_masked_sum_additive(
    v: spec_fn(int) -> nat,
    a: Seq<bool>,
    b: Seq<bool>,
    k: int,
)
    requires
        masks_disjoint(a, b),
        k <= a.len(),
        a.len() == b.len(),
    ensures
        masked_sum(v, |p: int| mask_union(a, b)[p], k) == masked_sum(v, |p: int| a[p], k)
            + masked_sum(v, |p: int| b[p], k),
    decreases k,
{
    if k > 0 {
        lemma_masked_sum_additive(v, a, b, k - 1);
    }
}

/// Multi-mask reductions are additive: for two disjoint regions of
/// interest, the reduction under their union is the sum of the reductions
/// under each — so reducing several masks at once agrees with reducing
/// each alone.
pub proof fn law_disjoint_rois_are_additive(
    data: Seq<u8>,
    rec: FrameRecord,
    a: Seq<bool>,
    b: Seq<bool>,
    dy: int,
    dx: int,
)
    requires
        rec.wf(),
        a.len() == rec.pixel_count(),
        b.len() == rec.pixel_count(),
        masks_disjoint(a, b),
    ensures
        frame_mask_sum_spec(data, rec, mask_union(a, b), dy, dx) == frame_mask_sum_spec(
            data,
            rec,
            a,
            dy,
            dx,
        ) + frame_mask_sum_spec(data, rec, b, dy, dx),
        frame_mask_tau_spec(data, rec, mask_union(a, b), dy, dx) == frame_mask_tau_spec(
            data,
            rec,
            a,
            dy,
            dx,
        ) + frame_mask_tau_spec(data, rec, b, dy, dx),
{
    let h = rec.height as int;
    let w = rec.width as int;
    let n = rec.pixel_count();
    lemma_dims_le_pixels(h, w);
    if rec.siff_tag == Some(FORMAT_RAW) {
        let ws = record_words(data, rec);
        lemma_mask_hits_additive(ws, dy, dx, h, w, a, b);
        lemma_mask_tau_additive(ws, dy, dx, h, w, a, b);
    } else {
        let u = mask_union(a, b);
        assert forall|p: int| 0 <= p < n implies #[trigger] u[shift_pix(p, dy, dx, h, w)] == (
        a[shift_pix(p, dy, dx, h, w)] || b[shift_pix(p, dy, dx, h, w)]) by {
            crate::dimensions::lemma_shift_pix_bounds(p, dy, dx, h, w);
        }
        let shifted_u = |p: int| u[shift_pix(p, dy, dx, h, w)];
        let shifted_a = Seq::new(n as nat, |p: int| a[shift_pix(p, dy, dx, h, w)]);
        let shifted_b = Seq::new(n as nat, |p: int| b[shift_pix(p, dy, dx, h, w)]);
        assert forall|p: int| 0 <= p < n implies !((#[trigger] shifted_a[p]) && shifted_b[p]) by {
            crate::dimensions::lemma_shift_pix_bounds(p, dy, dx, h, w);
        }
        if rec.siff_tag == Some(FORMAT_COMPRESSED) {
            let counts = record_counts(data, rec);
            let arr = record_arrivals(data, rec);
            lemma_split_shifted_sums(
                |p: int| counts[p] as nat,
                a,
                b,
                shifted_a,
                shifted_b,
                dy,
                dx,
                h,
                w,
            );
            lemma_split_shifted_sums(
                |p: int| crate::compressed::pixel_tau_sum(counts, arr, p),
                a,
                b,
                shifted_a,
                shifted_b,
                dy,
                dx,
                h,
                w,
            );
        } else {
            let tiff = record_tiff_image(data, rec);
            lemma_split_shifted_sums(
                |p: int| tiff[p] as nat,
                a,
                b,
                shifted_a,
                shifted_b,
                dy,
                dx,
                h,
                w,
            );
            let counts = record_counts(data, rec);
            let arr = record_arrivals(data, rec);
            lemma_split_shifted_sums(
                |p: int| crate::compressed::pixel_tau_sum(counts, arr, p),
                a,
                b,
                shifted_a,
                shifted_b,
                dy,
                dx,
                h,
                w,
            );
        }
    }
}

/// Arrival-time sums under a union of disjoint masks split into the sums
/// under each mask.
proof fn lemma_mask_tau_additive(
    ws: Seq<u64>,
    dy: int,
    dx: int,
    h: int,
    w: int,
    a: Seq<bool>,
    b: Seq<bool>,
)
    requires
        0 < h,
        0 < w,
        a.len() == h * w,
        b.len() == h * w,
        masks_disjoint(a, b),
    ensures
        crate::photon::mask_tau_sum(ws, dy, dx, h, w, mask_union(a, b))
            == crate::photon::mask_tau_sum(ws, dy, dx, h, w, a) + crate::photon::mask_tau_sum(
            ws,
            dy,
            dx,
            h,
            w,
            b,
        ),
    decreases ws.len(),
{
    if ws.len() > 0 {
        lemma_mask_tau_additive(ws.drop_last(), dy, dx, h, w, a, b);
        crate::photon::lemma_dest_pix_bounds(ws.last(), dy, dx, h, w);
    }
}

/// Splits a shift-composed mask union inside a weighted sum: the sum under
/// the union's shifted lookup is the sum of the sums under each mask's.
proof fn lemma_split_shifted_sums(
    v: spec_fn(int) -> nat,
    a: Seq<bool>,
    b: Seq<bool>,
    shifted_a: Seq<bool>,
    shifted_b: Seq<bool>,
    dy: int,
    dx: int,
    h: int,
    w: int,
)
    requires
        0 < h,
        0 < w,
        a.len() == h * w,
        b.len() == h * w,
        masks_disjoint(a, b),
        shifted_a == Seq::new((h * w) as nat, |p: int| a[shift_pix(p, dy, dx, h, w)]),
        shifted_b == Seq::new((h * w) as nat, |p: int| b[shift_pix(p, dy, dx, h, w)]),
    ensures
        masked_sum(v, |p: int| mask_union(a, b)[shift_pix(p, dy, dx, h, w)], h * w)
            == masked_sum(v, |p: int| a[shift_pix(p, dy, dx, h, w)], h * w) + masked_sum(
            v,
            |p: int| b[shift_pix(p, dy, dx, h, w)],
            h * w,
        ),
{
    let n = h * w;
    assert forall|p: int| 0 <= p < n implies !((#[trigger] shifted_a[p]) && shifted_b[p]) by {
        crate::dimensions::lemma_shift_pix_bounds(p, dy, dx, h, w);
    }
    lemma_masked_sum_additive(v, shifted_a, shifted_b, n);
    assert forall|p: int| 0 <= p < n implies #[trigger] mask_union(shifted_a, shifted_b)[p]
        == mask_union(a, b)[shift_pix(p, dy, dx, h, w)] by {
        crate::dimensions::lemma_shift_pix_bounds(p, dy, dx, h, w);
    }
    lemma_masked_sum_mask_congruent(
        v,
        |p: int| mask_union(shifted_a, shifted_b)[p],
        |p: int| mask_union(a, b)[shift_pix(p, dy, dx, h, w)],
        n,
    );
    lemma_masked_sum_mask_congruent(
        v,
        |p: int| shifted_a[p],
        |p: int| a[shift_pix(p, dy, dx, h, w)],
        n,
    );
    lemma_masked_sum_mask_congruent(
        v,
        |p: int| shifted_b[p],
        |p: int| b[shift_pix(p, dy, dx, h, w)],
        n,
    );
}

} // verus!
