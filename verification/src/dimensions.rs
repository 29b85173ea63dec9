//! Frame dimensions and the cyclic registration shift.
//!
//! A registration shift `(dy, dx)` moves every pixel to
//! `((y + dy) mod h, (x + dx) mod w)`. The spec-level shift is the
//! mathematical modulus (always in `[0, m)`); `shift_coord` computes it in
//! executable code for a possibly negative shift. `shift_pix` and
//! `roll_source` express the shift and its inverse on flattened pixel
//! indices, and are proved to be mutually inverse: this is what ties the
//! photon-level registration of raw frames to the post-decode image roll of
//! compressed frames.

use vstd::prelude::*;
use vstd::arithmetic::div_mod::{
    lemma_add_mod_noop, lemma_fundamental_div_mod_converse, lemma_mod_division_less_than_divisor,
    lemma_mod_twice, lemma_small_mod, lemma_sub_mod_noop,
};
use vstd::arithmetic::mul::lemma_mul_inequality;

verus! {

/// `Dimensions` holds the width (`xdim`) and height (`ydim`) of a frame.
#[derive(PartialEq, Eq, Structural, Debug, Clone, Copy)]
pub struct Dimensions {
    pub xdim: u64,
    pub ydim: u64,
}

/// What can go wrong with the dimensions of a request: a mask whose shape
/// differs from the frames', frames that do not share one shape, or a frame
/// index past the end of the file.
#[derive(Debug, Clone)]
pub enum DimensionsError {
    MismatchedDimensions { required: Dimensions, requested: Dimensions },
    NoConsistentDimensions,
    IncorrectFrames,
}

impl Dimensions {
    pub fn new(xdim: u64, ydim: u64) -> (r: Dimensions)
        ensures
            r.xdim == xdim,
            r.ydim == ydim,
    {
        Dimensions { xdim, ydim }
    }

    /// Returns the dimensions as a tuple (y, x).
    pub fn to_tuple(&self) -> (r: (u64, u64))
        ensures
            r.0 == self.ydim,
            r.1 == self.xdim,
    {
        (self.ydim, self.xdim)
    }

    /// Builds `Dimensions` from a (y, x) tuple.
    pub fn from_tuple(t: (u64, u64)) -> (r: Dimensions)
        ensures
            r.ydim == t.0,
            r.xdim == t.1,
    {
        Dimensions { xdim: t.1, ydim: t.0 }
    }
}

/// The coordinate `v` shifted by `d`, wrapped cyclically into `[0, m)`.
pub open spec fn wrap(v: int, d: int, m: int) -> int {
    (v + d) % m
}

/// The pixel of a `h` x `w` frame that pixel `p` moves to under the cyclic
/// shift `(dy, dx)`.
pub open spec fn shift_pix(p: int, dy: int, dx: int, h: int, w: int) -> int {
    wrap(p / w, dy, h) * w + wrap(p % w, dx, w)
}

/// The source pixel that lands on pixel `p` of a rolled image: the inverse
/// of `shift_pix`.
pub open spec fn roll_source(p: int, dy: int, dx: int, h: int, w: int) -> int {
    shift_pix(p, -dy, -dx, h, w)
}

/// An image rolled cyclically by `(dy, dx)`: output pixel `p` holds the
/// source pixel that the shift moves onto `p`.
pub open spec fn rolled<T>(img: Seq<T>, dy: int, dx: int, h: int, w: int) -> Seq<T> {
    Seq::new((h * w) as nat, |p: int| img[roll_source(p, dy, dx, h, w)])
}

/// A shifted coordinate lies in `[0, m)`.
pub proof fn lemma_wrap_bounds(v: int, d: int, m: int)
    requires
        0 < m,
    ensures
        0 <= wrap(v, d, m) < m,
{
    lemma_mod_division_less_than_divisor(v + d, m);
}

/// Shifting by `d` and then by `-d` (or the reverse) returns a coordinate
/// already in `[0, m)` to itself.
pub proof fn lemma_wrap_inverse(v: int, d: int, m: int)
    requires
        0 < m,
        0 <= v < m,
    ensures
        wrap(wrap(v, d, m), -d, m) == v,
        wrap(wrap(v, -d, m), d, m) == v,
{
    lemma_wrap_cancel(v, d, -d, m);
    lemma_wrap_cancel(v, -d, d, m);
    lemma_small_mod(v as nat, m as nat);
}

/// Composing two shifts is one shift by the sum: in particular two opposite
/// shifts cancel down to `(v + 0) % m`.
pub proof fn lemma_wrap_cancel(v: int, d1: int, d2: int, m: int)
    requires
        0 < m,
    ensures
        wrap(wrap(v, d1, m), d2, m) == wrap(v, d1 + d2, m),
{
    // ((v + d1) % m + d2) % m == ((v + d1) % m % m + d2 % m) % m == (v + d1 + d2) % m
    lemma_mod_twice(v + d1, m);
    lemma_add_mod_noop((v + d1) % m, d2, m);
    lemma_add_mod_noop(v + d1, d2, m);
}

/// A pixel index in range decomposes as `p == (p / w) * w + p % w` with both
/// parts in range.
pub proof fn lemma_pix_decompose(p: int, h: int, w: int)
    requires
        0 < h,
        0 < w,
        0 <= p < h * w,
    ensures
        p == (p / w) * w + p % w,
        0 <= p % w < w,
        0 <= p / w < h,
{
    vstd::arithmetic::div_mod::lemma_fundamental_div_mod(p, w);
    lemma_mod_division_less_than_divisor(p, w);
    if p / w >= h {
        lemma_mul_inequality(h, p / w, w);
    }
    if p / w < 0 {
        vstd::arithmetic::div_mod::lemma_div_pos_is_pos(p, w);
    }
}

/// Building a pixel index from a row `y < h` and a column `x < w` lands in
/// range and splits back into exactly that row and column.
pub proof fn lemma_pix_compose(y: int, x: int, h: int, w: int)
    requires
        0 < h,
        0 < w,
        0 <= y < h,
        0 <= x < w,
    ensures
        0 <= y * w + x < h * w,
        (y * w + x) / w == y,
        (y * w + x) % w == x,
{
    lemma_mul_inequality(y + 1, h, w);
    vstd::arithmetic::mul::lemma_mul_is_distributive_add_other_way(w, y, 1);
    if y > 0 {
        vstd::arithmetic::mul::lemma_mul_strictly_positive(y, w);
    }
    lemma_fundamental_div_mod_converse(y * w + x, w, y, x);
}

/// `shift_pix` stays inside the frame.
pub proof fn lemma_shift_pix_bounds(p: int, dy: int, dx: int, h: int, w: int)
    requires
        0 < h,
        0 < w,
    ensures
        0 <= shift_pix(p, dy, dx, h, w) < h * w,
{
    lemma_wrap_bounds(p / w, dy, h);
    lemma_wrap_bounds(p % w, dx, w);
    lemma_pix_compose(wrap(p / w, dy, h), wrap(p % w, dx, w), h, w);
}

/// `roll_source` and `shift_pix` are mutually inverse on in-range pixels.
pub proof fn lemma_roll_inverse(p: int, dy: int, dx: int, h: int, w: int)
    requires
        0 < h,
        0 < w,
        0 <= p < h * w,
    ensures
        shift_pix(roll_source(p, dy, dx, h, w), dy, dx, h, w) == p,
        roll_source(shift_pix(p, dy, dx, h, w), dy, dx, h, w) == p,
{
    lemma_pix_decompose(p, h, w);
    let y = p / w;
    let x = p % w;
    // roll_source(p) splits into rows/columns wrap(y, -dy, h) and wrap(x, -dx, w)
    lemma_wrap_bounds(y, -dy, h);
    lemma_wrap_bounds(x, -dx, w);
    lemma_pix_compose(wrap(y, -dy, h), wrap(x, -dx, w), h, w);
    lemma_wrap_inverse(y, dy, h);
    lemma_wrap_inverse(x, dx, w);
    lemma_pix_compose(y, x, h, w);
    // and symmetrically for shift_pix(p)
    lemma_wrap_bounds(y, dy, h);
    lemma_wrap_bounds(x, dx, w);
    lemma_pix_compose(wrap(y, dy, h), wrap(x, dx, w), h, w);
}

/// Rolling by `(0, 0)` is the identity.
pub proof fn lemma_rolled_identity<T>(img: Seq<T>, h: int, w: int)
    requires
        0 < h,
        0 < w,
        img.len() == h * w,
    ensures
        rolled(img, 0, 0, h, w) == img,
{
    assert forall|p: int| 0 <= p < h * w implies rolled(img, 0, 0, h, w)[p] == img[p] by {
        lemma_pix_decompose(p, h, w);
        lemma_small_mod((p / w) as nat, h as nat);
        lemma_small_mod((p % w) as nat, w as nat);
    }
    assert(rolled(img, 0, 0, h, w) =~= img);
}

/// Computes `wrap(v, d, m)` executably: the coordinate `v` shifted by `d`,
/// wrapped cyclically into `[0, m)`.
pub fn shift_coord(v: u64, d: i64, m: u64) -> (r: u64)
    requires
        0 < m,
        v <= 0x1_0000_0000,
        m <= 0x1_0000_0000,
        i64::MIN < d,
    ensures
        r == wrap(v as int, d as int, m as int),
        r < m,
{
    // Reduce the (possibly negative) shift to its representative in [0, m),
    // then work entirely in unsigned arithmetic.
    let dmod: u64 = if d >= 0 {
        (d as u64) % m
    } else {
        let e: u64 = (-d) as u64;
        let k: u64 = e % m;
        proof {
            // (-e) % m == (m * (e / m + 1) - e) % m == (m - e % m) % m
            let ei = e as int;
            let mi = m as int;
            let q = ei / mi;
            vstd::arithmetic::div_mod::lemma_fundamental_div_mod(ei, mi);
            vstd::arithmetic::mul::lemma_mul_is_distributive_add(mi, q, 1);
            assert(mi * (q + 1) == mi * q + mi);
            assert(mi * (q + 1) + (-ei) == mi - k);
            vstd::arithmetic::div_mod::lemma_mod_multiples_vanish(q + 1, -ei, mi);
            assert((mi - k) % mi == (-ei) % mi);
            if k == 0 {
                vstd::arithmetic::div_mod::lemma_mod_self_0(mi);
            } else {
                lemma_small_mod((m - k) as nat, m as nat);
            }
            assert((d as int) % mi == (-ei) % mi);
        }
        if k == 0 {
            0
        } else {
            m - k
        }
    };
    proof {
        lemma_add_mod_noop(v as int, d as int, m as int);
        lemma_mod_division_less_than_divisor(v as int, m as int);
        lemma_mod_division_less_than_divisor(v as int % m as int + dmod as int, m as int);
    }
    (v % m + dmod) % m
}

} // verus!
