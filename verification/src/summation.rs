//! Finite summations over pixel- and bin-indexed quantities.
//!
//! The kernels' contracts describe images as functions from an index to a
//! count; the reductions sum such functions over a prefix of the index range,
//! optionally weighted by a boolean mask. The lemmas here are the standard
//! facts about these sums: how they respond to a pointwise bump, congruence
//! under pointwise equality, and the value on everywhere-zero functions.

use vstd::prelude::*;

verus! {

/// `Σ_{0 <= i < k} (if mask(i) then v(i) else 0)`.
pub open spec fn masked_sum(v: spec_fn(int) -> nat, mask: spec_fn(int) -> bool, k: int) -> nat
    decreases k,
{
    if k <= 0 {
        0
    } else {
        masked_sum(v, mask, k - 1) + (if mask(k - 1) {
            v(k - 1)
        } else {
            0
        })
    }
}

/// `Σ_{0 <= i < k} v(i)`.
pub open spec fn index_sum(v: spec_fn(int) -> nat, k: int) -> nat {
    masked_sum(v, |i: int| true, k)
}

/// Bumping `v` by `d` at one index `q < k` raises the masked sum by `d`
/// when the mask holds at `q`, and leaves it unchanged otherwise.
pub proof fn lemma_masked_sum_bump(
    v: spec_fn(int) -> nat,
    v2: spec_fn(int) -> nat,
    mask: spec_fn(int) -> bool,
    k: int,
    q: int,
    d: nat,
)
    requires
        0 <= q < k,
        v2(q) == v(q) + d,
        forall|i: int| 0 <= i < k && i != q ==> #[trigger] v2(i) == v(i),
    ensures
        masked_sum(v2, mask, k) == masked_sum(v, mask, k) + (if mask(q) {
            d
        } else {
            0
        }),
    decreases k,
{
    if q == k - 1 {
        lemma_masked_sum_congruent(v, v2, mask, k - 1);
    } else {
        lemma_masked_sum_bump(v, v2, mask, k - 1, q, d);
    }
}

/// Two functions that agree below `k` have the same masked sum up to `k`.
pub proof fn lemma_masked_sum_congruent(
    v: spec_fn(int) -> nat,
    v2: spec_fn(int) -> nat,
    mask: spec_fn(int) -> bool,
    k: int,
)
    requires
        forall|i: int| 0 <= i < k ==> #[trigger] v2(i) == v(i),
    ensures
        masked_sum(v2, mask, k) == masked_sum(v, mask, k),
    decreases k,
{
    if k > 0 {
        lemma_masked_sum_congruent(v, v2, mask, k - 1);
    }
}

/// Masks that agree below `k` give the same masked sum up to `k`.
pub proof fn lemma_masked_sum_mask_congruent(
    v: spec_fn(int) -> nat,
    mask: spec_fn(int) -> bool,
    mask2: spec_fn(int) -> bool,
    k: int,
)
    requires
        forall|i: int| 0 <= i < k ==> #[trigger] mask2(i) == mask(i),
    ensures
        masked_sum(v, mask2, k) == masked_sum(v, mask, k),
    decreases k,
{
    if k > 0 {
        lemma_masked_sum_mask_congruent(v, mask, mask2, k - 1);
    }
}

/// Two functions that agree below `k` have the same plain sum up to `k`.
pub proof fn lemma_index_sum_congruent(v: spec_fn(int) -> nat, v2: spec_fn(int) -> nat, k: int)
    requires
        forall|i: int| 0 <= i < k ==> #[trigger] v2(i) == v(i),
    ensures
        index_sum(v2, k) == index_sum(v, k),
    decreases k,
{
    if k > 0 {
        lemma_index_sum_congruent(v, v2, k - 1);
    }
}

/// A masked sum of zero admits no masked index with a positive value.
pub proof fn lemma_masked_sum_zero_inverse(
    v: spec_fn(int) -> nat,
    mask: spec_fn(int) -> bool,
    k: int,
)
    requires
        masked_sum(v, mask, k) == 0,
    ensures
        forall|i: int| 0 <= i < k && mask(i) ==> #[trigger] v(i) == 0,
    decreases k,
{
    if k > 0 {
        lemma_masked_sum_zero_inverse(v, mask, k - 1);
    }
}

/// A sum over masked indices that all carry zero is zero.
pub proof fn lemma_masked_sum_of_masked_zero(
    v: spec_fn(int) -> nat,
    mask: spec_fn(int) -> bool,
    k: int,
)
    requires
        forall|i: int| 0 <= i < k && mask(i) ==> #[trigger] v(i) == 0,
    ensures
        masked_sum(v, mask, k) == 0,
    decreases k,
{
    if k > 0 {
        lemma_masked_sum_of_masked_zero(v, mask, k - 1);
    }
}

/// The sum of an everywhere-zero function is zero.
pub proof fn lemma_masked_sum_zero(v: spec_fn(int) -> nat, mask: spec_fn(int) -> bool, k: int)
    requires
        forall|i: int| 0 <= i < k ==> #[trigger] v(i) == 0,
    ensures
        masked_sum(v, mask, k) == 0,
    decreases k,
{
    if k > 0 {
        lemma_masked_sum_zero(v, mask, k - 1);
    }
}

} // verus!
