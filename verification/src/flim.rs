//! Tau-resolved volume kernels: per-pixel arrival-time histograms.
//!
//! A tau-resolved volume counts, for every pixel and every arrival-time
//! bin, the photons that landed on the pixel with that arrival time
//! (reduced modulo the bin count). It is the integer decomposition that
//! float post-processing — phasor transforms in particular — works from.

use vstd::prelude::*;
use crate::bytes::{le16_seq, read_u16, read_u64};
use crate::compressed::{counts_prefix, lemma_counts_prefix_monotone};
use crate::frame::MAX_FRAME_PIXELS;
use crate::intensity::{add16, load_array_compressed_siff, strip_image, strip_words, wrap_inc};
use crate::photon::{dest_pix, photon_tau, photon_to_tau, volume_hits};
use crate::record::{
    comp_counts_ok, comp_stream_ok, raw_ok, record_arrivals, record_counts, record_words,
    FrameRecord, FORMAT_COMPRESSED, FORMAT_RAW,
};
use crate::utils::{FramesError, IoFault};

verus! {

/// A `height` x `width` x `hbins` volume of 16-bit counters, row-major
/// with the arrival-time axis fastest.
pub struct TauVolume {
    pub height: usize,
    pub width: usize,
    pub hbins: usize,
    pub voxels: Vec<u16>,
}

impl TauVolume {
    /// Shape and size agree and stay in the supported range.
    pub open spec fn wf(self) -> bool {
        &&& 0 < self.height
        &&& 0 < self.width
        &&& 0 < self.hbins
        &&& self.height * self.width <= MAX_FRAME_PIXELS
        &&& (self.height * self.width) * self.hbins <= 0x4000_0000
        &&& self.voxels@.len() == (self.height * self.width) * self.hbins
    }

    /// The flattened voxel index of pixel `p`, bin `b`.
    pub open spec fn vox(self, p: int, b: int) -> int {
        p * self.hbins + b
    }

    /// An all-zero volume of the given shape.
    pub fn zeros(height: usize, width: usize, hbins: usize) -> (r: TauVolume)
        requires
            0 < height,
            0 < width,
            0 < hbins,
            height * width <= MAX_FRAME_PIXELS,
            (height * width) * hbins <= 0x4000_0000,
        ensures
            r.wf(),
            r.height == height,
            r.width == width,
            r.hbins == hbins,
            forall|i: int| 0 <= i < r.voxels@.len() ==> r.voxels@[i] == 0,
    {
        let n: usize = (height * width) * hbins;
        let mut voxels: Vec<u16> = Vec::new();
        let mut i: usize = 0;
        while i < n
            invariant
                i <= n,
                voxels@.len() == i,
                forall|q: int| 0 <= q < i ==> voxels@[q] == 0,
            decreases n - i,
        {
            voxels.push(0);
            i = i + 1;
        }
        TauVolume { height, width, hbins, voxels }
    }

    /// The counter at row `y`, column `x`, arrival bin `b`.
    pub fn at(&self, y: usize, x: usize, b: usize) -> (r: u16)
        requires
            self.wf(),
            y < self.height,
            x < self.width,
            b < self.hbins,
        ensures
            r == self.voxels@[self.vox(y * self.width + x, b as int)],
    {
        proof {
            crate::dimensions::lemma_pix_compose(
                y as int,
                x as int,
                self.height as int,
                self.width as int,
            );
            crate::dimensions::lemma_pix_compose(
                (y * self.width + x) as int,
                b as int,
                (self.height * self.width) as int,
                self.hbins as int,
            );
        }
        let p: usize = y * self.width + x;
        self.voxels[p * self.hbins + b]
    }
}

/// How many of the `c` arrival words of a window land in bin
/// `(word mod hbins) == b`.
pub open spec fn window_mod_hits(
    arr: Seq<u16>,
    start: int,
    c: int,
    hbins: int,
    b: int,
) -> nat
    decreases c,
{
    if c <= 0 {
        0
    } else {
        window_mod_hits(arr, start, c - 1, hbins, b) + (if arr[start + c - 1] as int % hbins
            == b {
            1nat
        } else {
            0nat
        })
    }
}

/// One step of the raw volume decode: appending photon `ws[i]` bumps
/// exactly its landing pixel's bin.
proof fn lemma_volume_step(ws: Seq<u64>, i: int, dy: int, dx: int, h: int, w: int, hbins: int)
    requires
        0 <= i < ws.len(),
    ensures
        forall|p: int, b: int|
            #[trigger] volume_hits(ws.take(i + 1), dy, dx, h, w, hbins, p, b) == volume_hits(
                ws.take(i),
                dy,
                dx,
                h,
                w,
                hbins,
                p,
                b,
            ) + (if dest_pix(ws[i], dy, dx, h, w) == p && photon_tau(ws[i]) as int % hbins == b {
                1nat
            } else {
                0nat
            }),
{
    assert(ws.take(i + 1).drop_last() =~= ws.take(i));
    assert(ws.take(i + 1).last() == ws[i]);
}

/// Decodes a raw strip into a tau-resolved volume, adding one count per
/// photon at its registered landing pixel and reduced arrival bin;
/// consumes the strip.
pub fn load_tau_d_raw_registered(
    data: &Vec<u8>,
    pos: &mut usize,
    strip_bytes: usize,
    vol: &mut TauVolume,
    registration: (i32, i32),
)
    requires
        old(vol).wf(),
        *old(pos) + strip_bytes <= data@.len(),
        strip_bytes % 8 == 0,
    ensures
        final(vol).wf(),
        final(vol).height == old(vol).height,
        final(vol).width == old(vol).width,
        final(vol).hbins == old(vol).hbins,
        forall|p: int, b: int|
            0 <= p < old(vol).height * old(vol).width && 0 <= b < old(vol).hbins
                ==> final(vol).voxels@[#[trigger] final(vol).vox(p, b)] == add16(
                old(vol).voxels@[old(vol).vox(p, b)],
                volume_hits(
                    strip_words(data@, *old(pos) as int, strip_bytes as int),
                    registration.0 as int,
                    registration.1 as int,
                    old(vol).height as int,
                    old(vol).width as int,
                    old(vol).hbins as int,
                    p,
                    b,
                ),
            ),
        *final(pos) == *old(pos) + strip_bytes,
{
    let dlen: usize = data.len();
    let base: usize = *pos;
    let n: usize = strip_bytes / 8;
    let h: usize = vol.height;
    let w: usize = vol.width;
    let hbins: usize = vol.hbins;
    let hw: usize = h * w;
    let ghost init = vol.voxels@;
    let ghost ws = strip_words(data@, base as int, strip_bytes as int);
    let dy = registration.0;
    let dx = registration.1;
    let mut i: usize = 0;
    while i < n
        invariant
            i <= n,
            vol.wf(),
            vol.height == h,
            vol.width == w,
            vol.hbins == hbins,
            hw == h * w,
            init.len() == hw * hbins,
            ws.len() == n,
            ws == strip_words(data@, base as int, strip_bytes as int),
            base + strip_bytes <= dlen,
            dlen == data@.len(),
            strip_bytes % 8 == 0,
            n == strip_bytes / 8,
            forall|p: int, b: int|
                0 <= p < hw && 0 <= b < hbins ==> vol.voxels@[p * hbins + b] == add16(
                    init[p * hbins + b],
                    #[trigger] volume_hits(
                        ws.take(i as int),
                        dy as int,
                        dx as int,
                        h as int,
                        w as int,
                        hbins as int,
                        p,
                        b,
                    ),
                ),
        decreases n - i,
    {
        proof {
            assert(8 * i + 8 <= strip_bytes) by (nonlinear_arith)
                requires
                    i < n,
                    n == strip_bytes / 8,
                    strip_bytes % 8 == 0,
            ;
        }
        let ph: u64 = read_u64(data, base + 8 * i);
        let q: usize = crate::intensity::photon_dest(ph, dy, dx, h, w);
        let t: u64 = photon_to_tau(ph);
        let tb: usize = (t % (hbins as u64)) as usize;
        proof {
            assert(ph == ws[i as int]);
            lemma_volume_step(ws, i as int, dy as int, dx as int, h as int, w as int, hbins as int);
            crate::dimensions::lemma_pix_compose(q as int, tb as int, hw as int, hbins as int);
        }
        let idx: usize = q * hbins + tb;
        let cur: u16 = vol.voxels[idx];
        proof {
            assert(cur == add16(
                init[idx as int],
                volume_hits(
                    ws.take(i as int),
                    dy as int,
                    dx as int,
                    h as int,
                    w as int,
                    hbins as int,
                    q as int,
                    tb as int,
                ),
            ));
        }
        let bumped: u16 = wrap_inc(cur);
        let ghost prev_vox = vol.voxels@;
        vol.voxels.set(idx, bumped);
        proof {
            crate::intensity::lemma_add16_chain(
                init[idx as int],
                volume_hits(
                    ws.take(i as int),
                    dy as int,
                    dx as int,
                    h as int,
                    w as int,
                    hbins as int,
                    q as int,
                    tb as int,
                ),
            );
            assert forall|p: int, b: int| 0 <= p < hw && 0 <= b < hbins implies vol.voxels@[p
                * hbins + b] == add16(
                init[p * hbins + b],
                #[trigger] volume_hits(
                    ws.take(i as int + 1),
                    dy as int,
                    dx as int,
                    h as int,
                    w as int,
                    hbins as int,
                    p,
                    b,
                ),
            ) by {
                crate::dimensions::lemma_pix_compose(p, b, hw as int, hbins as int);
                crate::dimensions::lemma_pix_compose(q as int, tb as int, hw as int, hbins as int);
                if p == q && b == tb {
                    assert(photon_tau(ws[i as int]) as int % (hbins as int) == tb as int);
                    assert(vol.voxels@[p * hbins + b] == bumped);
                } else {
                    assert(p * hbins + b != idx as int);
                    assert(vol.voxels@[p * hbins + b] == prev_vox[p * hbins + b]);
                }
            }
        }
        i = i + 1;
    }
    proof {
        assert(ws.take(n as int) =~= ws);
    }
    *pos = base + strip_bytes;
}

/// Decodes a compressed strip into a tau-resolved volume: pixel `p`'s row
/// of bins histograms its arrival window, reduced modulo the bin count.
/// `vol` must start zeroed. Fails when the slab claims more photons than
/// the arrival stream holds; on success `*pos` ends past the arrival
/// slab.
pub fn load_tau_d_compressed(
    data: &Vec<u8>,
    pos: &mut usize,
    strip_bytes: usize,
    vol: &mut TauVolume,
) -> (r: Result<(), FramesError>)
    requires
        old(vol).wf(),
        forall|i: int| 0 <= i < old(vol).voxels@.len() ==> old(vol).voxels@[i] == 0,
        2 * (old(vol).height * old(vol).width) <= *old(pos),
        *old(pos) + strip_bytes <= data@.len(),
        strip_bytes % 2 == 0,
    ensures
        final(vol).wf(),
        final(vol).height == old(vol).height,
        final(vol).width == old(vol).width,
        final(vol).hbins == old(vol).hbins,
        r is Ok <==> counts_prefix(
            strip_image(
                data@,
                *old(pos) - 2 * (old(vol).height * old(vol).width),
                (old(vol).height * old(vol).width) as int,
            ),
            (old(vol).height * old(vol).width) as int,
        ) <= strip_bytes as int / 2,
        r is Ok ==> forall|p: int, b: int|
            0 <= p < old(vol).height * old(vol).width && 0 <= b < old(vol).hbins
                ==> final(vol).voxels@[#[trigger] final(vol).vox(p, b)] as nat == window_mod_hits(
                le16_seq(data@, *old(pos) as int, strip_bytes as int / 2),
                counts_prefix(
                    strip_image(
                        data@,
                        *old(pos) - 2 * (old(vol).height * old(vol).width),
                        (old(vol).height * old(vol).width) as int,
                    ),
                    p,
                ) as int,
                strip_image(
                    data@,
                    *old(pos) - 2 * (old(vol).height * old(vol).width),
                    (old(vol).height * old(vol).width) as int,
                )[p] as int,
                old(vol).hbins as int,
                b,
            ),
        r is Ok ==> *final(pos) == *old(pos) + strip_bytes,
{
    let dlen: usize = data.len();
    let base: usize = *pos;
    let h: usize = vol.height;
    let w: usize = vol.width;
    let hbins: usize = vol.hbins;
    let hw: usize = h * w;
    let slab: usize = base - 2 * hw;
    let m: usize = strip_bytes / 2;
    let ghost counts = strip_image(data@, slab as int, hw as int);
    let ghost arr = le16_seq(data@, base as int, m as int);
    proof {
        assert forall|ii: int| 0 <= ii < hw * hbins implies vol.voxels@[ii] == 0 by {}
    }
    let mut cursor: usize = 0;
    let mut p: usize = 0;
    while p < hw
        invariant
            p <= hw,
            vol.wf(),
            vol.height == h,
            vol.width == w,
            vol.hbins == hbins,
            h == old(vol).height,
            w == old(vol).width,
            hbins == old(vol).hbins,
            hw == h * w,
            slab == base - 2 * hw,
            2 * hw <= base,
            base == *old(pos),
            counts == strip_image(data@, slab as int, hw as int),
            counts.len() == hw,
            arr.len() == m,
            arr == le16_seq(data@, base as int, m as int),
            base + strip_bytes <= dlen,
            dlen == data@.len(),
            strip_bytes % 2 == 0,
            m == strip_bytes / 2,
            cursor == counts_prefix(counts, p as int),
            cursor <= m,
            forall|q: int, b: int|
                0 <= q < p && 0 <= b < hbins ==> vol.voxels@[q * hbins + b] as nat
                    == #[trigger] window_mod_hits(
                    arr,
                    counts_prefix(counts, q) as int,
                    counts[q] as int,
                    hbins as int,
                    b,
                ),
            forall|ii: int| p * hbins <= ii < hw * hbins ==> #[trigger] vol.voxels@[ii] == 0,
        decreases hw - p,
    {
        proof {
            assert(2 * p + 2 <= 2 * hw) by (nonlinear_arith)
                requires
                    p < hw,
            ;
            assert(p * hbins + hbins <= hw * hbins) by (nonlinear_arith)
                requires
                    p < hw,
            ;
        }
        let c: u16 = read_u16(data, slab + 2 * p);
        proof {
            assert(c == counts[p as int]);
            assert(counts_prefix(counts, p as int + 1) == counts_prefix(counts, p as int)
                + counts[p as int]);
        }
        if m - cursor < c as usize {
            proof {
                lemma_counts_prefix_monotone(counts, p as int + 1, hw as int);
            }
            return Err(FramesError::FormatError);
        }
        let mut j: usize = 0;
        while j < c as usize
            invariant
                j <= c as usize,
                vol.wf(),
                vol.height == h,
                vol.width == w,
                vol.hbins == hbins,
                hw == h * w,
                0 <= p < hw,
                p * hbins + hbins <= hw * hbins,
                cursor + c as usize <= m,
                arr.len() == m,
                arr == le16_seq(data@, base as int, m as int),
                base + strip_bytes <= dlen,
                dlen == data@.len(),
                strip_bytes % 2 == 0,
                m == strip_bytes / 2,
                cursor == counts_prefix(counts, p as int),
                counts.len() == hw,
                c == counts[p as int],
                forall|q: int, b: int|
                    0 <= q < p && 0 <= b < hbins ==> vol.voxels@[q * hbins + b] as nat
                        == #[trigger] window_mod_hits(
                        arr,
                        counts_prefix(counts, q) as int,
                        counts[q] as int,
                        hbins as int,
                        b,
                    ),
                forall|b: int|
                    0 <= b < hbins ==> vol.voxels@[p * hbins + b] as nat
                        == #[trigger] window_mod_hits(
                        arr,
                        cursor as int,
                        j as int,
                        hbins as int,
                        b,
                    ),
                forall|ii: int|
                    p * hbins + hbins <= ii < hw * hbins ==> #[trigger] vol.voxels@[ii] == 0,
            decreases c as usize - j,
        {
            proof {
                assert(2 * (cursor + j) + 2 <= strip_bytes) by (nonlinear_arith)
                    requires
                        cursor + j < m,
                        m == strip_bytes / 2,
                        strip_bytes % 2 == 0,
                ;
            }
            let t: u16 = read_u16(data, base + 2 * (cursor + j));
            let tb: usize = (t as usize) % hbins;
            proof {
                assert(t == arr[cursor + j]);
            }
            let idx: usize = p * hbins + tb;
            let cur: u16 = vol.voxels[idx];
            proof {
                // the bins of pixel p hold at most j counts so far: they
                // never wrap within one window of at most 0xFFFF words
                assert(cur as nat == window_mod_hits(
                    arr,
                    cursor as int,
                    j as int,
                    hbins as int,
                    tb as int,
                ));
                lemma_window_mod_hits_bound(arr, cursor as int, j as int, hbins as int, tb as int);
                assert(cur < 0xFFFF);
            }
            let ghost prev_vox = vol.voxels@;
            vol.voxels.set(idx, cur + 1);
            proof {
                assert forall|b: int| 0 <= b < hbins implies vol.voxels@[p * hbins + b] as nat
                    == #[trigger] window_mod_hits(
                    arr,
                    cursor as int,
                    j as int + 1,
                    hbins as int,
                    b,
                ) by {
                    assert(arr[cursor + j] as int % (hbins as int) == tb as int);
                    if b == tb {
                        assert(vol.voxels@[idx as int] == cur + 1);
                        assert(window_mod_hits(arr, cursor as int, j as int + 1, hbins as int, b)
                            == window_mod_hits(arr, cursor as int, j as int, hbins as int, b) + 1);
                    } else {
                        assert(p * hbins + b != idx as int);
                        assert(vol.voxels@[p * hbins + b] == prev_vox[p * hbins + b]);
                        assert(window_mod_hits(arr, cursor as int, j as int + 1, hbins as int, b)
                            == window_mod_hits(arr, cursor as int, j as int, hbins as int, b));
                    }
                }
                assert forall|q: int, b: int| 0 <= q < p && 0 <= b < hbins implies vol.voxels@[q
                    * hbins + b] as nat == #[trigger] window_mod_hits(
                    arr,
                    counts_prefix(counts, q) as int,
                    counts[q] as int,
                    hbins as int,
                    b,
                ) by {
                    assert(q * hbins + b < p * hbins) by (nonlinear_arith)
                        requires
                            0 <= q < p,
                            0 <= b < hbins,
                    ;
                    assert(vol.voxels@[q * hbins + b] == prev_vox[q * hbins + b]);
                }
                assert forall|ii: int| p * hbins + hbins <= ii < hw * hbins implies
                    #[trigger] vol.voxels@[ii] == 0 by {
                    assert(vol.voxels@[ii] == prev_vox[ii]);
                }
            }
            j = j + 1;
        }
        proof {
            assert forall|b: int| 0 <= b < hbins implies vol.voxels@[p * hbins + b] as nat
                == #[trigger] window_mod_hits(
                arr,
                counts_prefix(counts, p as int) as int,
                counts[p as int] as int,
                hbins as int,
                b,
            ) by {}
            assert forall|ii: int| (p + 1) * hbins <= ii < hw * hbins implies
                #[trigger] vol.voxels@[ii] == 0 by {
                assert((p + 1) * hbins == p * hbins + hbins) by (nonlinear_arith);
            }
            assert forall|q: int, b: int| 0 <= q < p + 1 && 0 <= b < hbins implies vol.voxels@[q
                * hbins + b] as nat == #[trigger] window_mod_hits(
                arr,
                counts_prefix(counts, q) as int,
                counts[q] as int,
                hbins as int,
                b,
            ) by {}
        }
        cursor = cursor + c as usize;
        p = p + 1;
    }
    *pos = base + strip_bytes;
    proof {
        assert forall|p2: int, b: int|
            0 <= p2 < old(vol).height * old(vol).width && 0 <= b < old(vol).hbins implies
            vol.voxels@[vol.vox(p2, b)] as nat == window_mod_hits(
            arr,
            counts_prefix(counts, p2) as int,
            counts[p2] as int,
            hbins as int,
            b,
        ) by {}
    }
    Ok(())
}

/// A window of `c` words lands at most `c` counts in any one bin.
proof fn lemma_window_mod_hits_bound(arr: Seq<u16>, start: int, c: int, hbins: int, b: int)
    ensures
        window_mod_hits(arr, start, c, hbins, b) <= (if c <= 0 {
            0
        } else {
            c
        }),
    decreases c,
{
    if c > 0 {
        lemma_window_mod_hits_bound(arr, start, c - 1, hbins, b);
    }
}

/// Loads one frame's tau-resolved volume, registered by `registration`;
/// the reader position is restored on every exit path. Raw photons land
/// at their registered pixel; a compressed frame is decoded in place and
/// each arrival-time plane is rolled. `vol` must start zeroed and match
/// the record's shape.
pub fn load_array_tau_d_registered(
    data: &Vec<u8>,
    pos: &mut usize,
    rec: &FrameRecord,
    vol: &mut TauVolume,
    registration: (i32, i32),
) -> (r: Result<(), FramesError>)
    requires
        rec.wf(),
        old(vol).wf(),
        old(vol).height == rec.height,
        old(vol).width == rec.width,
        forall|i: int| 0 <= i < old(vol).voxels@.len() ==> old(vol).voxels@[i] == 0,
    ensures
        *final(pos) == *old(pos),
        final(vol).wf(),
        final(vol).height == rec.height,
        final(vol).width == rec.width,
        final(vol).hbins == old(vol).hbins,
        r is Ok <==> tau_d_decodable(data@, *rec),
        (match rec.siff_tag {
            Some(t) => t != FORMAT_RAW && t != FORMAT_COMPRESSED,
            None => true,
        }) ==> (r matches Err(FramesError::FormatError)),
        r is Ok ==> forall|p: int, b: int|
            0 <= p < rec.pixel_count() && 0 <= b < old(vol).hbins ==> final(vol).voxels@[
                #[trigger] final(vol).vox(p, b)
            ] as nat == frame_tau_d_spec(
                data@,
                *rec,
                old(vol).hbins as int,
                registration.0 as int,
                registration.1 as int,
                p,
                b,
            ),
{
    let dlen: usize = data.len();
    let saved: usize = *pos;
    let npix: usize = rec.height * rec.width;
    match rec.siff_tag {
        Some(tag) => {
            if tag == FORMAT_RAW {
                if rec.strip_offset > dlen || dlen - rec.strip_offset < rec.strip_bytes {
                    return Err(FramesError::IOError(IoFault::UnexpectedEof));
                }
                if rec.strip_bytes % 8 != 0 {
                    return Err(FramesError::IOError(IoFault::MisalignedStrip));
                }
                *pos = rec.strip_offset;
                load_tau_d_raw_registered(data, pos, rec.strip_bytes, vol, registration);
                *pos = saved;
                proof {
                    assert forall|p: int, b: int|
                        0 <= p < rec.pixel_count() && 0 <= b < old(vol).hbins implies vol.voxels@[
                        #[trigger] vol.vox(p, b)
                    ] as nat == frame_tau_d_spec(
                        data@,
                        *rec,
                        old(vol).hbins as int,
                        registration.0 as int,
                        registration.1 as int,
                        p,
                        b,
                    ) by {
                        crate::dimensions::lemma_pix_compose(
                            p,
                            b,
                            rec.pixel_count(),
                            old(vol).hbins as int,
                        );
                        crate::photon::lemma_volume_hits_bounded(
                            record_words(data@, *rec),
                            registration.0 as int,
                            registration.1 as int,
                            rec.height as int,
                            rec.width as int,
                            old(vol).hbins as int,
                            p,
                            b,
                        );
                        if volume_hits(
                            record_words(data@, *rec),
                            registration.0 as int,
                            registration.1 as int,
                            rec.height as int,
                            rec.width as int,
                            old(vol).hbins as int,
                            p,
                            b,
                        ) < 0x1_0000 {
                            vstd::arithmetic::div_mod::lemma_small_mod(
                                volume_hits(
                                    record_words(data@, *rec),
                                    registration.0 as int,
                                    registration.1 as int,
                                    rec.height as int,
                                    rec.width as int,
                                    old(vol).hbins as int,
                                    p,
                                    b,
                                ),
                                0x1_0000,
                            );
                        }
                    }
                }
                Ok(())
            } else if tag == FORMAT_COMPRESSED {
                if rec.strip_offset < 2 * npix || rec.strip_offset > dlen || dlen
                    - rec.strip_offset < rec.strip_bytes {
                    return Err(FramesError::IOError(IoFault::UnexpectedEof));
                }
                if rec.strip_bytes % 2 != 0 {
                    return Err(FramesError::IOError(IoFault::MisalignedStrip));
                }
                *pos = rec.strip_offset;
                let r = load_tau_d_compressed(data, pos, rec.strip_bytes, vol);
                *pos = saved;
                if r.is_err() {
                    return r;
                }
                roll_volume(vol, registration);
                proof {
                    assert forall|p: int, b: int|
                        0 <= p < rec.pixel_count() && 0 <= b < old(vol).hbins implies vol.voxels@[
                        #[trigger] vol.vox(p, b)
                    ] as nat == frame_tau_d_spec(
                        data@,
                        *rec,
                        old(vol).hbins as int,
                        registration.0 as int,
                        registration.1 as int,
                        p,
                        b,
                    ) by {
                        crate::dimensions::lemma_shift_pix_bounds(
                            p,
                            -(registration.0 as int),
                            -(registration.1 as int),
                            rec.height as int,
                            rec.width as int,
                        );
                    }
                }
                Ok(())
            } else {
                Err(FramesError::FormatError)
            }
        },
        None => Err(FramesError::FormatError),
    }
}

/// Loads one frame's tau-resolved volume without registration.
pub fn load_array_tau_d(
    data: &Vec<u8>,
    pos: &mut usize,
    rec: &FrameRecord,
    vol: &mut TauVolume,
) -> (r: Result<(), FramesError>)
    requires
        rec.wf(),
        old(vol).wf(),
        old(vol).height == rec.height,
        old(vol).width == rec.width,
        forall|i: int| 0 <= i < old(vol).voxels@.len() ==> old(vol).voxels@[i] == 0,
    ensures
        *final(pos) == *old(pos),
        final(vol).wf(),
        final(vol).height == rec.height,
        final(vol).width == rec.width,
        final(vol).hbins == old(vol).hbins,
        r is Ok <==> tau_d_decodable(data@, *rec),
        (match rec.siff_tag {
            Some(t) => t != FORMAT_RAW && t != FORMAT_COMPRESSED,
            None => true,
        }) ==> (r matches Err(FramesError::FormatError)),
        r is Ok ==> forall|p: int, b: int|
            0 <= p < rec.pixel_count() && 0 <= b < old(vol).hbins ==> final(vol).voxels@[
                #[trigger] final(vol).vox(p, b)
            ] as nat == frame_tau_d_spec(data@, *rec, old(vol).hbins as int, 0, 0, p, b),
{
    load_array_tau_d_registered(data, pos, rec, vol, (0, 0))
}

/// Whether a tau-resolved decode of this frame succeeds: it needs photon
/// data, like the histogram and lifetime decodes.
pub open spec fn tau_d_decodable(data: Seq<u8>, rec: FrameRecord) -> bool {
    if rec.siff_tag == Some(FORMAT_RAW) {
        raw_ok(data, rec)
    } else if rec.siff_tag == Some(FORMAT_COMPRESSED) {
        comp_stream_ok(data, rec) && comp_counts_ok(data, rec)
    } else {
        false
    }
}

/// The count a tau-resolved decode leaves at pixel `p`, bin `b` (counters
/// wrap at 16 bits): photons landing on the registered pixel with that
/// reduced arrival time for a raw frame; for a compressed frame the bins
/// of the pixel the roll brings onto `p`.
pub open spec fn frame_tau_d_spec(
    data: Seq<u8>,
    rec: FrameRecord,
    hbins: int,
    dy: int,
    dx: int,
    p: int,
    b: int,
) -> nat {
    if rec.siff_tag == Some(FORMAT_RAW) {
        (volume_hits(
            record_words(data, rec),
            dy,
            dx,
            rec.height as int,
            rec.width as int,
            hbins,
            p,
            b,
        ) % 0x1_0000) as nat
    } else {
        window_mod_hits(
            record_arrivals(data, rec),
            counts_prefix(
                record_counts(data, rec),
                crate::dimensions::roll_source(p, dy, dx, rec.height as int, rec.width as int),
            ) as int,
            record_counts(data, rec)[crate::dimensions::roll_source(
                p,
                dy,
                dx,
                rec.height as int,
                rec.width as int,
            )] as int,
            hbins,
            b,
        )
    }
}

/// Rolls every arrival-time plane of a volume cyclically by `(dy, dx)` in
/// place.
pub fn roll_volume(vol: &mut TauVolume, registration: (i32, i32))
    requires
        old(vol).wf(),
    ensures
        final(vol).wf(),
        final(vol).height == old(vol).height,
        final(vol).width == old(vol).width,
        final(vol).hbins == old(vol).hbins,
        forall|p: int, b: int|
            0 <= p < old(vol).height * old(vol).width && 0 <= b < old(vol).hbins
                ==> final(vol).voxels@[#[trigger] final(vol).vox(p, b)] == old(vol).voxels@[
                old(vol).vox(
                    crate::dimensions::roll_source(
                        p,
                        registration.0 as int,
                        registration.1 as int,
                        old(vol).height as int,
                        old(vol).width as int,
                    ),
                    b,
                )
            ],
{
    let h: usize = vol.height;
    let w: usize = vol.width;
    let hbins: usize = vol.hbins;
    let hw: usize = h * w;
    let dy = registration.0;
    let dx = registration.1;
    let ghost src_vox = vol.voxels@;
    let ghost target = Seq::<u16>::new(
        (hw * hbins) as nat,
        |ii: int|
            src_vox[crate::dimensions::roll_source(
                ii / hbins as int,
                dy as int,
                dx as int,
                h as int,
                w as int,
            ) * hbins + ii % hbins as int],
    );
    let mut out: Vec<u16> = Vec::new();
    let mut p: usize = 0;
    while p < hw
        invariant
            p <= hw,
            vol.wf(),
            vol.height == h,
            vol.width == w,
            vol.hbins == hbins,
            h == old(vol).height,
            w == old(vol).width,
            hbins == old(vol).hbins,
            src_vox == old(vol).voxels@,
            vol.voxels@ == src_vox,
            hw == h * w,
            p * hbins <= hw * hbins,
            target == Seq::<u16>::new(
                (hw * hbins) as nat,
                |ii: int|
                    src_vox[crate::dimensions::roll_source(
                        ii / hbins as int,
                        dy as int,
                        dx as int,
                        h as int,
                        w as int,
                    ) * hbins + ii % hbins as int],
            ),
            out@ == target.take((p * hbins) as int),
        decreases hw - p,
    {
        proof {
            crate::frame::lemma_dims_le_pixels(h as int, w as int);
            crate::dimensions::lemma_pix_decompose(p as int, h as int, w as int);
            crate::dimensions::lemma_shift_pix_bounds(
                p as int,
                -(dy as int),
                -(dx as int),
                h as int,
                w as int,
            );
        }
        let y: u64 = crate::dimensions::shift_coord((p / w) as u64, -(dy as i64), h as u64);
        let x: u64 = crate::dimensions::shift_coord((p % w) as u64, -(dx as i64), w as u64);
        proof {
            crate::dimensions::lemma_pix_compose(y as int, x as int, h as int, w as int);
        }
        let src: usize = (y as usize) * w + (x as usize);
        proof {
            assert(p * hbins + hbins <= hw * hbins) by (nonlinear_arith)
                requires
                    p < hw,
            ;
            assert(src * hbins + hbins <= hw * hbins) by (nonlinear_arith)
                requires
                    src < hw,
            ;
        }
        let mut bb: usize = 0;
        while bb < hbins
            invariant
                bb <= hbins,
                vol.wf(),
                vol.hbins == hbins,
                vol.voxels@ == src_vox,
                src_vox.len() == hw * hbins,
                src < hw,
                p < hw,
                src * hbins + hbins <= hw * hbins,
                p * hbins + hbins <= hw * hbins,
                src == crate::dimensions::roll_source(
                    p as int,
                    dy as int,
                    dx as int,
                    h as int,
                    w as int,
                ),
                target.len() == hw * hbins,
                forall|ii: int|
                    0 <= ii < hw * hbins ==> #[trigger] target[ii] == src_vox[
                        crate::dimensions::roll_source(
                            ii / hbins as int,
                            dy as int,
                            dx as int,
                            h as int,
                            w as int,
                        ) * hbins + ii % hbins as int
                    ],
                out@ == target.take((p * hbins + bb) as int),
            decreases hbins - bb,
        {
            out.push(vol.voxels[src * hbins + bb]);
            proof {
                let ii = (p * hbins + bb) as int;
                crate::dimensions::lemma_pix_compose(p as int, bb as int, hw as int, hbins as int);
                assert(target[ii] == src_vox[src * hbins + bb]);
                assert(out@ =~= target.take(ii + 1));
            }
            bb = bb + 1;
        }
        proof {
            assert((p + 1) * hbins == p * hbins + hbins) by (nonlinear_arith);
        }
        p = p + 1;
    }
    proof {
        assert(out@ =~= target);
    }
    vol.voxels = out;
    proof {
        assert forall|p2: int, b: int|
            0 <= p2 < old(vol).height * old(vol).width && 0 <= b < old(vol).hbins implies
            vol.voxels@[vol.vox(p2, b)] == old(vol).voxels@[
            old(vol).vox(
                crate::dimensions::roll_source(
                    p2,
                    registration.0 as int,
                    registration.1 as int,
                    old(vol).height as int,
                    old(vol).width as int,
                ),
                b,
            )
        ] by {
            crate::dimensions::lemma_pix_compose(p2, b, hw as int, hbins as int);
        }
    }
}

} // verus!
