//! The model of a compressed strip.
//!
//! A compressed frame is two slabs: a dense 16-bit intensity image of
//! `height * width` counts directly *before* the declared strip offset, and
//! an arrival stream of 16-bit tau values at the strip offset, in pixel-scan
//! order: for pixel `p` with count `c`, the `c` tau values after the first
//! `counts_prefix(counts, p)` belong to pixel `p`. A well-formed strip has
//! exactly `sum(counts)` arrival words.

use vstd::prelude::*;
use crate::summation::{index_sum, lemma_masked_sum_bump, lemma_masked_sum_congruent,
    lemma_masked_sum_zero, masked_sum};

verus! {

/// The number of arrival words owned by pixels before `k`:
/// `Σ_{p < k} counts[p]`.
pub open spec fn counts_prefix(counts: Seq<u16>, k: int) -> nat {
    index_sum(|p: int| counts[p] as nat, k)
}

/// `Σ_{0 <= j < c} arr[start + j]`.
pub open spec fn window_sum(arr: Seq<u16>, start: int, c: int) -> nat
    decreases c,
{
    if c <= 0 {
        0
    } else {
        window_sum(arr, start, c - 1) + arr[start + c - 1] as nat
    }
}

/// The sum of the arrival times of pixel `p`'s photons.
pub open spec fn pixel_tau_sum(counts: Seq<u16>, arr: Seq<u16>, p: int) -> nat {
    window_sum(arr, counts_prefix(counts, p) as int, counts[p] as int)
}

/// How many arrival words of `arr` equal `b`.
pub open spec fn tau16_hits(arr: Seq<u16>, b: int) -> nat
    decreases arr.len(),
{
    if arr.len() == 0 {
        0
    } else {
        tau16_hits(arr.drop_last(), b) + (if arr.last() == b {
            1nat
        } else {
            0nat
        })
    }
}

/// How many arrival words of `arr` lie below `hbins`.
pub open spec fn tau16_in_range(arr: Seq<u16>, hbins: int) -> nat
    decreases arr.len(),
{
    if arr.len() == 0 {
        0
    } else {
        tau16_in_range(arr.drop_last(), hbins) + (if arr.last() < hbins {
            1nat
        } else {
            0nat
        })
    }
}

/// A prefix count is the plain sum of the counts it covers — stated for
/// any reading of the summed function.
pub proof fn lemma_prefix_eq_sum(counts: Seq<u16>, k: int, v: spec_fn(int) -> nat)
    requires
        forall|p: int| 0 <= p < k ==> #[trigger] v(p) == counts[p] as nat,
    ensures
        counts_prefix(counts, k) == index_sum(v, k),
    decreases k,
{
    if k > 0 {
        lemma_prefix_eq_sum(counts, k - 1, v);
    }
}

/// How many of the `c` arrival words of a window equal `b` exactly.
pub open spec fn window_eq_hits(arr: Seq<u16>, start: int, c: int, b: int) -> nat
    decreases c,
{
    if c <= 0 {
        0
    } else {
        window_eq_hits(arr, start, c - 1, b) + (if arr[start + c - 1] == b {
            1nat
        } else {
            0nat
        })
    }
}

/// A window of `c` words matches a bin at most `c` times.
pub proof fn lemma_window_eq_hits_bound(arr: Seq<u16>, start: int, c: int, b: int)
    ensures
        window_eq_hits(arr, start, c, b) <= (if c <= 0 {
            0
        } else {
            c
        }),
    decreases c,
{
    if c > 0 {
        lemma_window_eq_hits_bound(arr, start, c - 1, b);
    }
}

/// Prefix counts are monotone in the prefix length.
pub proof fn lemma_counts_prefix_monotone(counts: Seq<u16>, k1: int, k2: int)
    requires
        k1 <= k2,
    ensures
        counts_prefix(counts, k1) <= counts_prefix(counts, k2),
    decreases k2 - k1,
{
    if k1 < k2 {
        lemma_counts_prefix_monotone(counts, k1, k2 - 1);
    }
}

/// Every in-range arrival word falls in exactly one histogram bin: the
/// per-bin counts add up to the number of in-range words.
pub proof fn lemma_total_tau16_hits(arr: Seq<u16>, hbins: int)
    requires
        0 < hbins,
    ensures
        index_sum(|b: int| tau16_hits(arr, b), hbins) == tau16_in_range(arr, hbins),
    decreases arr.len(),
{
    if arr.len() == 0 {
        lemma_masked_sum_zero(|b: int| tau16_hits(arr, b), |b: int| true, hbins);
    } else {
        let prev = arr.drop_last();
        let t = arr.last() as int;
        lemma_total_tau16_hits(prev, hbins);
        if t < hbins {
            lemma_masked_sum_bump(
                |b: int| tau16_hits(prev, b),
                |b: int| tau16_hits(arr, b),
                |b: int| true,
                hbins,
                t,
                1,
            );
        } else {
            lemma_masked_sum_congruent(
                |b: int| tau16_hits(prev, b),
                |b: int| tau16_hits(arr, b),
                |b: int| true,
                hbins,
            );
        }
    }
}

} // verus!
