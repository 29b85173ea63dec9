//! The frame dispatcher.
//!
//! Given a reader position over the file's bytes and a frame record, each
//! dispatcher saves the position, seeks to the strip, selects the kernel
//! that the record's format tag calls for, and restores the position on
//! every exit path — the stream position is unchanged whether the dispatch
//! succeeds or fails. Bounds and alignment are validated here, so the
//! kernels run only on strips that lie inside the file.

use vstd::prelude::*;
use crate::empirical_lifetime::{
    load_flim_compressed_siff_registered, load_flim_raw_siff_registered,
    sum_mask_flim_compressed_siff_registered, sum_mask_flim_raw_siff_registered,
};
use crate::frame::{Frame, FrameU64, Mask};
use crate::histogram::{
    load_histogram_compressed, load_histogram_mask_compressed, load_histogram_mask_uncompressed,
    load_histogram_uncompressed,
};
use crate::intensity::{
    load_array_compressed_siff_registered, load_array_raw_siff_registered,
    load_array_tiff_registered, sum_mask_compressed_siff_registered,
    sum_mask_raw_siff_registered,
};
use crate::record::{
    flim_decodable, flim_mask_decodable, frame_hist_spec, frame_intensity_spec,
    frame_mask_hist_spec, frame_mask_sum_spec, frame_mask_tau_spec, frame_tau_spec,
    hist_decodable, hist_mask_decodable, intensity_decodable, mask_sum_decodable, FrameRecord,
    FORMAT_COMPRESSED, FORMAT_RAW,
};
use crate::utils::{FramesError, IoFault};

verus! {

/// Loads one frame's intensity image into `frame` (adding, for a raw
/// frame), registered by `registration`; the reader position is restored
/// on every exit path.
pub fn load_array_intensity_registered(
    data: &Vec<u8>,
    pos: &mut usize,
    rec: &FrameRecord,
    frame: &mut Frame,
    registration: (i32, i32),
) -> (r: Result<(), FramesError>)
    requires
        rec.wf(),
        old(frame).wf(),
        old(frame).height == rec.height,
        old(frame).width == rec.width,
    ensures
        *final(pos) == *old(pos),
        final(frame).wf(),
        final(frame).height == rec.height,
        final(frame).width == rec.width,
        r is Ok <==> intensity_decodable(data@, *rec),
        (rec.siff_tag matches Some(t) && t != FORMAT_RAW && t != FORMAT_COMPRESSED) ==> (
        r matches Err(FramesError::FormatError)),
        r is Ok ==> final(frame).pixels@ == frame_intensity_spec(
            data@,
            *rec,
            old(frame).pixels@,
            registration.0 as int,
            registration.1 as int,
        ),
{
    let dlen: usize = data.len();
    let saved: usize = *pos;
    let npix: usize = rec.height * rec.width;
    match rec.siff_tag {
        Some(tag) => {
            if tag == FORMAT_RAW {
                if rec.strip_offset > dlen || dlen - rec.strip_offset < rec.strip_bytes {
                    return Err(FramesError::IOError(IoFault::UnexpectedEof));
                }
                if rec.strip_bytes % 8 != 0 {
                    return Err(FramesError::IOError(IoFault::MisalignedStrip));
                }
                *pos = rec.strip_offset;
                load_array_raw_siff_registered(data, pos, rec.strip_bytes, frame, registration);
                *pos = saved;
                Ok(())
            } else if tag == FORMAT_COMPRESSED {
                if rec.strip_offset < 2 * npix || rec.strip_offset > dlen {
                    return Err(FramesError::IOError(IoFault::UnexpectedEof));
                }
                *pos = rec.strip_offset;
                load_array_compressed_siff_registered(data, pos, frame, registration);
                *pos = saved;
                Ok(())
            } else {
                Err(FramesError::FormatError)
            }
        },
        None => {
            if rec.strip_offset > dlen || (dlen - rec.strip_offset) / 2 < npix {
                return Err(FramesError::IOError(IoFault::UnexpectedEof));
            }
            *pos = rec.strip_offset;
            load_array_tiff_registered(data, pos, frame, registration);
            *pos = saved;
            Ok(())
        },
    }
}

/// Loads one frame's intensity image without registration.
pub fn load_array_intensity(
    data: &Vec<u8>,
    pos: &mut usize,
    rec: &FrameRecord,
    frame: &mut Frame,
) -> (r: Result<(), FramesError>)
    requires
        rec.wf(),
        old(frame).wf(),
        old(frame).height == rec.height,
        old(frame).width == rec.width,
    ensures
        *final(pos) == *old(pos),
        final(frame).wf(),
        final(frame).height == rec.height,
        final(frame).width == rec.width,
        r is Ok <==> intensity_decodable(data@, *rec),
        (rec.siff_tag matches Some(t) && t != FORMAT_RAW && t != FORMAT_COMPRESSED) ==> (
        r matches Err(FramesError::FormatError)),
        r is Ok ==> final(frame).pixels@ == frame_intensity_spec(
            data@,
            *rec,
            old(frame).pixels@,
            0,
            0,
        ),
{
    load_array_intensity_registered(data, pos, rec, frame, (0, 0))
}

/// Loads one frame's per-pixel arrival-time sums and intensity image,
/// registered by `registration`; the reader position is restored on every
/// exit path. `lifetime` must start zeroed.
pub fn load_flim_empirical_and_intensity_arrays_registered(
    data: &Vec<u8>,
    pos: &mut usize,
    rec: &FrameRecord,
    lifetime: &mut FrameU64,
    intensity: &mut Frame,
    registration: (i32, i32),
) -> (r: Result<(), FramesError>)
    requires
        rec.wf(),
        old(lifetime).wf(),
        old(intensity).wf(),
        old(lifetime).height == rec.height,
        old(lifetime).width == rec.width,
        old(intensity).height == rec.height,
        old(intensity).width == rec.width,
        forall|p: int| 0 <= p < old(lifetime).pixels@.len() ==> old(lifetime).pixels@[p] == 0,
    ensures
        *final(pos) == *old(pos),
        final(lifetime).wf(),
        final(intensity).wf(),
        final(lifetime).height == rec.height,
        final(lifetime).width == rec.width,
        final(intensity).height == rec.height,
        final(intensity).width == rec.width,
        r is Ok <==> flim_decodable(data@, *rec),
        (match rec.siff_tag {
            Some(t) => t != FORMAT_RAW && t != FORMAT_COMPRESSED,
            None => true,
        }) ==> (r matches Err(FramesError::FormatError)),
        r is Ok ==> final(lifetime).pixels@ == frame_tau_spec(
            data@,
            *rec,
            registration.0 as int,
            registration.1 as int,
        ),
        r is Ok ==> final(intensity).pixels@ == frame_intensity_spec(
            data@,
            *rec,
            old(intensity).pixels@,
            registration.0 as int,
            registration.1 as int,
        ),
{
    let dlen: usize = data.len();
    let saved: usize = *pos;
    let npix: usize = rec.height * rec.width;
    match rec.siff_tag {
        Some(tag) => {
            if tag == FORMAT_RAW {
                if rec.strip_offset > dlen || dlen - rec.strip_offset < rec.strip_bytes {
                    return Err(FramesError::IOError(IoFault::UnexpectedEof));
                }
                if rec.strip_bytes % 8 != 0 {
                    return Err(FramesError::IOError(IoFault::MisalignedStrip));
                }
                if rec.strip_bytes as u64 > crate::empirical_lifetime::MAX_FLIM_STRIP_BYTES {
                    return Err(FramesError::IOError(IoFault::StripTooLarge));
                }
                *pos = rec.strip_offset;
                load_flim_raw_siff_registered(
                    data,
                    pos,
                    rec.strip_bytes,
                    lifetime,
                    intensity,
                    registration,
                );
                *pos = saved;
                proof {
                    let ws = crate::record::record_words(data@, *rec);
                    let hh = rec.height as int;
                    let ww = rec.width as int;
                    let dyi = registration.0 as int;
                    let dxi = registration.1 as int;
                    assert forall|p: int| 0 <= p < npix implies final(lifetime).pixels@[p]
                        == frame_tau_spec(data@, *rec, dyi, dxi)[p] by {
                        crate::photon::lemma_counts_bounded(ws, dyi, dxi, hh, ww, p);
                    }
                    assert(final(lifetime).pixels@ =~= frame_tau_spec(data@, *rec, dyi, dxi));
                }
                Ok(())
            } else if tag == FORMAT_COMPRESSED {
                if rec.strip_offset < 2 * npix || rec.strip_offset > dlen || dlen
                    - rec.strip_offset < rec.strip_bytes {
                    return Err(FramesError::IOError(IoFault::UnexpectedEof));
                }
                if rec.strip_bytes % 2 != 0 {
                    return Err(FramesError::IOError(IoFault::MisalignedStrip));
                }
                *pos = rec.strip_offset;
                let r = load_flim_compressed_siff_registered(
                    data,
                    pos,
                    rec.strip_bytes,
                    lifetime,
                    intensity,
                    registration,
                );
                *pos = saved;
                r
            } else {
                Err(FramesError::FormatError)
            }
        },
        None => Err(FramesError::FormatError),
    }
}

/// Loads one frame's arrival-time sums and intensity without registration.
pub fn load_flim_empirical_and_intensity_arrays(
    data: &Vec<u8>,
    pos: &mut usize,
    rec: &FrameRecord,
    lifetime: &mut FrameU64,
    intensity: &mut Frame,
) -> (r: Result<(), FramesError>)
    requires
        rec.wf(),
        old(lifetime).wf(),
        old(intensity).wf(),
        old(lifetime).height == rec.height,
        old(lifetime).width == rec.width,
        old(intensity).height == rec.height,
        old(intensity).width == rec.width,
        forall|p: int| 0 <= p < old(lifetime).pixels@.len() ==> old(lifetime).pixels@[p] == 0,
    ensures
        *final(pos) == *old(pos),
        final(lifetime).wf(),
        final(intensity).wf(),
        final(lifetime).height == rec.height,
        final(lifetime).width == rec.width,
        final(intensity).height == rec.height,
        final(intensity).width == rec.width,
        r is Ok <==> flim_decodable(data@, *rec),
        (match rec.siff_tag {
            Some(t) => t != FORMAT_RAW && t != FORMAT_COMPRESSED,
            None => true,
        }) ==> (r matches Err(FramesError::FormatError)),
        r is Ok ==> final(lifetime).pixels@ == frame_tau_spec(data@, *rec, 0, 0),
        r is Ok ==> final(intensity).pixels@ == frame_intensity_spec(
            data@,
            *rec,
            old(intensity).pixels@,
            0,
            0,
        ),
{
    load_flim_empirical_and_intensity_arrays_registered(
        data,
        pos,
        rec,
        lifetime,
        intensity,
        (0, 0),
    )
}

/// Adds one frame's arrival-time counts to `hist`, dropping out-of-range
/// arrivals; the reader position is restored on every exit path.
pub fn load_histogram(
    data: &Vec<u8>,
    pos: &mut usize,
    rec: &FrameRecord,
    hist: &mut Vec<u64>,
) -> (r: Result<(), FramesError>)
    requires
        rec.wf(),
        forall|b: int|
            0 <= b < old(hist)@.len() ==> #[trigger] old(hist)@[b] + rec.strip_bytes <= u64::MAX,
    ensures
        *final(pos) == *old(pos),
        final(hist)@.len() == old(hist)@.len(),
        r is Ok <==> hist_decodable(data@, *rec),
        (match rec.siff_tag {
            Some(t) => t != FORMAT_RAW && t != FORMAT_COMPRESSED,
            None => true,
        }) ==> (r matches Err(FramesError::FormatError)),
        r is Ok ==> forall|b: int|
            0 <= b < old(hist)@.len() ==> #[trigger] final(hist)@[b] == old(hist)@[b]
                + frame_hist_spec(data@, *rec, b),
{
    let dlen: usize = data.len();
    let saved: usize = *pos;
    match rec.siff_tag {
        Some(tag) => {
            if tag == FORMAT_RAW {
                if rec.strip_offset > dlen || dlen - rec.strip_offset < rec.strip_bytes {
                    return Err(FramesError::IOError(IoFault::UnexpectedEof));
                }
                if rec.strip_bytes % 8 != 0 {
                    return Err(FramesError::IOError(IoFault::MisalignedStrip));
                }
                proof {
                    vstd::arithmetic::div_mod::lemma_div_nonincreasing(rec.strip_bytes as int, 8);
                }
                *pos = rec.strip_offset;
                load_histogram_uncompressed(data, pos, rec.strip_bytes, hist);
                *pos = saved;
                Ok(())
            } else if tag == FORMAT_COMPRESSED {
                if rec.strip_offset > dlen || dlen - rec.strip_offset < rec.strip_bytes {
                    return Err(FramesError::IOError(IoFault::UnexpectedEof));
                }
                if rec.strip_bytes % 2 != 0 {
                    return Err(FramesError::IOError(IoFault::MisalignedStrip));
                }
                proof {
                    vstd::arithmetic::div_mod::lemma_div_nonincreasing(rec.strip_bytes as int, 2);
                }
                *pos = rec.strip_offset;
                load_histogram_compressed(data, pos, rec.strip_bytes, hist);
                *pos = saved;
                Ok(())
            } else {
                Err(FramesError::FormatError)
            }
        },
        None => Err(FramesError::FormatError),
    }
}

/// Sums one frame's photon counts under `mask`, registered by
/// `registration`; the reader position is restored on every exit path.
pub fn sum_intensity_mask_registered(
    data: &Vec<u8>,
    pos: &mut usize,
    rec: &FrameRecord,
    frame_sum: &mut u64,
    mask: &Mask,
    registration: (i32, i32),
) -> (r: Result<(), FramesError>)
    requires
        rec.wf(),
        mask.wf(),
        mask.height == rec.height,
        mask.width == rec.width,
        *old(frame_sum) == 0,
    ensures
        *final(pos) == *old(pos),
        r is Ok <==> mask_sum_decodable(data@, *rec),
        (rec.siff_tag matches Some(t) && t != FORMAT_RAW && t != FORMAT_COMPRESSED) ==> (
        r matches Err(FramesError::FormatError)),
        r is Ok ==> *final(frame_sum) == frame_mask_sum_spec(
            data@,
            *rec,
            mask.pixels@,
            registration.0 as int,
            registration.1 as int,
        ),
{
    let dlen: usize = data.len();
    let saved: usize = *pos;
    let npix: usize = rec.height * rec.width;
    match rec.siff_tag {
        Some(tag) => {
            if tag == FORMAT_RAW {
                if rec.strip_offset > dlen || dlen - rec.strip_offset < rec.strip_bytes {
                    return Err(FramesError::IOError(IoFault::UnexpectedEof));
                }
                if rec.strip_bytes % 8 != 0 {
                    return Err(FramesError::IOError(IoFault::MisalignedStrip));
                }
                proof {
                    vstd::arithmetic::div_mod::lemma_div_nonincreasing(rec.strip_bytes as int, 8);
                }
                *pos = rec.strip_offset;
                sum_mask_raw_siff_registered(
                    data,
                    pos,
                    rec.strip_bytes,
                    frame_sum,
                    mask,
                    registration,
                );
                *pos = saved;
                Ok(())
            } else if tag == FORMAT_COMPRESSED {
                if rec.strip_offset < 2 * npix || rec.strip_offset > dlen {
                    return Err(FramesError::IOError(IoFault::UnexpectedEof));
                }
                *pos = rec.strip_offset;
                sum_mask_compressed_siff_registered(data, pos, frame_sum, mask, registration);
                *pos = saved;
                Ok(())
            } else {
                Err(FramesError::FormatError)
            }
        },
        None => {
            if rec.strip_offset > dlen || (dlen - rec.strip_offset) / 2 < npix {
                return Err(FramesError::IOError(IoFault::UnexpectedEof));
            }
            // The dense image plays the intensity slab's part: point the
            // cursor past it and reuse the slab reduction.
            *pos = rec.strip_offset + 2 * npix;
            sum_mask_compressed_siff_registered(data, pos, frame_sum, mask, registration);
            *pos = saved;
            Ok(())
        },
    }
}

/// Sums one frame's photon counts under `mask` without registration.
pub fn sum_intensity_mask(
    data: &Vec<u8>,
    pos: &mut usize,
    rec: &FrameRecord,
    frame_sum: &mut u64,
    mask: &Mask,
) -> (r: Result<(), FramesError>)
    requires
        rec.wf(),
        mask.wf(),
        mask.height == rec.height,
        mask.width == rec.width,
        *old(frame_sum) == 0,
    ensures
        *final(pos) == *old(pos),
        r is Ok <==> mask_sum_decodable(data@, *rec),
        (rec.siff_tag matches Some(t) && t != FORMAT_RAW && t != FORMAT_COMPRESSED) ==> (
        r matches Err(FramesError::FormatError)),
        r is Ok ==> *final(frame_sum) == frame_mask_sum_spec(data@, *rec, mask.pixels@, 0, 0),
{
    sum_intensity_mask_registered(data, pos, rec, frame_sum, mask, (0, 0))
}

/// Sums one frame's arrival times and photon counts under `mask`,
/// registered by `registration`; the reader position is restored on every
/// exit path. `lifetime_sum` must start zeroed.
pub fn sum_flim_mask_registered(
    data: &Vec<u8>,
    pos: &mut usize,
    rec: &FrameRecord,
    lifetime_sum: &mut u64,
    intensity_sum: &mut u64,
    mask: &Mask,
    registration: (i32, i32),
) -> (r: Result<(), FramesError>)
    requires
        rec.wf(),
        mask.wf(),
        mask.height == rec.height,
        mask.width == rec.width,
        *old(lifetime_sum) == 0,
        *old(intensity_sum) == 0,
    ensures
        *final(pos) == *old(pos),
        r is Ok <==> flim_mask_decodable(data@, *rec),
        (match rec.siff_tag {
            Some(t) => t != FORMAT_RAW && t != FORMAT_COMPRESSED,
            None => true,
        }) ==> (r matches Err(FramesError::FormatError)),
        r is Ok ==> *final(lifetime_sum) == frame_mask_tau_spec(
            data@,
            *rec,
            mask.pixels@,
            registration.0 as int,
            registration.1 as int,
        ),
        r is Ok ==> *final(intensity_sum) == frame_mask_sum_spec(
            data@,
            *rec,
            mask.pixels@,
            registration.0 as int,
            registration.1 as int,
        ),
{
    let dlen: usize = data.len();
    let saved: usize = *pos;
    let npix: usize = rec.height * rec.width;
    match rec.siff_tag {
        Some(tag) => {
            if tag == FORMAT_RAW {
                if rec.strip_offset > dlen || dlen - rec.strip_offset < rec.strip_bytes {
                    return Err(FramesError::IOError(IoFault::UnexpectedEof));
                }
                if rec.strip_bytes % 8 != 0 {
                    return Err(FramesError::IOError(IoFault::MisalignedStrip));
                }
                if rec.strip_bytes as u64 > crate::empirical_lifetime::MAX_FLIM_STRIP_BYTES {
                    return Err(FramesError::IOError(IoFault::StripTooLarge));
                }
                proof {
                    vstd::arithmetic::div_mod::lemma_div_nonincreasing(rec.strip_bytes as int, 8);
                }
                *pos = rec.strip_offset;
                sum_mask_flim_raw_siff_registered(
                    data,
                    pos,
                    rec.strip_bytes,
                    lifetime_sum,
                    intensity_sum,
                    mask,
                    registration,
                );
                *pos = saved;
                Ok(())
            } else if tag == FORMAT_COMPRESSED {
                if rec.strip_offset < 2 * npix || rec.strip_offset > dlen || dlen
                    - rec.strip_offset < rec.strip_bytes {
                    return Err(FramesError::IOError(IoFault::UnexpectedEof));
                }
                if rec.strip_bytes % 2 != 0 {
                    return Err(FramesError::IOError(IoFault::MisalignedStrip));
                }
                if rec.strip_bytes as u64 > crate::empirical_lifetime::MAX_FLIM_STRIP_BYTES {
                    return Err(FramesError::IOError(IoFault::StripTooLarge));
                }
                *pos = rec.strip_offset;
                let r = sum_mask_flim_compressed_siff_registered(
                    data,
                    pos,
                    rec.strip_bytes,
                    lifetime_sum,
                    intensity_sum,
                    mask,
                    registration,
                );
                *pos = saved;
                r
            } else {
                Err(FramesError::FormatError)
            }
        },
        None => Err(FramesError::FormatError),
    }
}

/// Sums one frame's arrival times and photon counts under `mask` without
/// registration.
pub fn sum_flim_mask(
    data: &Vec<u8>,
    pos: &mut usize,
    rec: &FrameRecord,
    lifetime_sum: &mut u64,
    intensity_sum: &mut u64,
    mask: &Mask,
) -> (r: Result<(), FramesError>)
    requires
        rec.wf(),
        mask.wf(),
        mask.height == rec.height,
        mask.width == rec.width,
        *old(lifetime_sum) == 0,
        *old(intensity_sum) == 0,
    ensures
        *final(pos) == *old(pos),
        r is Ok <==> flim_mask_decodable(data@, *rec),
        (match rec.siff_tag {
            Some(t) => t != FORMAT_RAW && t != FORMAT_COMPRESSED,
            None => true,
        }) ==> (r matches Err(FramesError::FormatError)),
        r is Ok ==> *final(lifetime_sum) == frame_mask_tau_spec(data@, *rec, mask.pixels@, 0, 0),
        r is Ok ==> *final(intensity_sum) == frame_mask_sum_spec(data@, *rec, mask.pixels@, 0, 0),
{
    sum_flim_mask_registered(data, pos, rec, lifetime_sum, intensity_sum, mask, (0, 0))
}


/// Adds one frame's masked arrival-time counts to `hist`: only photons
/// landing inside `mask` are counted, out-of-range arrivals are dropped;
/// the reader position is restored on every exit path.
pub fn load_histogram_mask(
    data: &Vec<u8>,
    pos: &mut usize,
    rec: &FrameRecord,
    hist: &mut Vec<u64>,
    mask: &Mask,
) -> (r: Result<(), FramesError>)
    requires
        rec.wf(),
        mask.wf(),
        mask.height == rec.height,
        mask.width == rec.width,
        forall|b: int|
            0 <= b < old(hist)@.len() ==> #[trigger] old(hist)@[b] + rec.strip_bytes <= u64::MAX,
    ensures
        *final(pos) == *old(pos),
        final(hist)@.len() == old(hist)@.len(),
        r is Ok <==> hist_mask_decodable(data@, *rec),
        (match rec.siff_tag {
            Some(t) => t != FORMAT_RAW && t != FORMAT_COMPRESSED,
            None => true,
        }) ==> (r matches Err(FramesError::FormatError)),
        r is Ok ==> forall|b: int|
            0 <= b < old(hist)@.len() ==> #[trigger] final(hist)@[b] == old(hist)@[b]
                + frame_mask_hist_spec(data@, *rec, mask.pixels@, b),
{
    let dlen: usize = data.len();
    let saved: usize = *pos;
    let npix: usize = rec.height * rec.width;
    match rec.siff_tag {
        Some(tag) => {
            if tag == FORMAT_RAW {
                if rec.strip_offset > dlen || dlen - rec.strip_offset < rec.strip_bytes {
                    return Err(FramesError::IOError(IoFault::UnexpectedEof));
                }
                if rec.strip_bytes % 8 != 0 {
                    return Err(FramesError::IOError(IoFault::MisalignedStrip));
                }
                proof {
                    vstd::arithmetic::div_mod::lemma_div_nonincreasing(rec.strip_bytes as int, 8);
                }
                *pos = rec.strip_offset;
                load_histogram_mask_uncompressed(data, pos, rec.strip_bytes, hist, mask);
                *pos = saved;
                Ok(())
            } else if tag == FORMAT_COMPRESSED {
                if rec.strip_offset < 2 * npix || rec.strip_offset > dlen || dlen
                    - rec.strip_offset < rec.strip_bytes {
                    return Err(FramesError::IOError(IoFault::UnexpectedEof));
                }
                if rec.strip_bytes % 2 != 0 {
                    return Err(FramesError::IOError(IoFault::MisalignedStrip));
                }
                proof {
                    vstd::arithmetic::div_mod::lemma_div_nonincreasing(rec.strip_bytes as int, 2);
                }
                *pos = rec.strip_offset;
                let r = load_histogram_mask_compressed(data, pos, rec.strip_bytes, hist, mask);
                *pos = saved;
                r
            } else {
                Err(FramesError::FormatError)
            }
        },
        None => Err(FramesError::FormatError),
    }
}

} // verus!
