//! Frame directory records, and the specification of what each decoding
//! operation produces from a record and the file's bytes.
//!
//! A record is the frozen extract of one image file directory: dimensions,
//! the strip's position and length, the vendor format tag, and the
//! positions of the optional metadata, settings and ROI blocks and of the
//! timestamp trio. Records are created once at open and shared read-only
//! by every decode.

use vstd::prelude::*;
use crate::bytes::le16_seq;
use crate::compressed::{counts_prefix, pixel_tau_sum};
use crate::dimensions::{rolled, shift_pix};
use crate::empirical_lifetime::MAX_FLIM_STRIP_BYTES;
use crate::frame::MAX_FRAME_PIXELS;
use crate::ifd::{
    spec_find_tag, TagEntry, IFD, TAG_FRAME_METADATA, TAG_IMAGE_LENGTH, TAG_IMAGE_WIDTH,
    TAG_NVFD, TAG_ROI_STRING, TAG_SIFF_FORMAT, TAG_STRIP_BYTE_COUNTS, TAG_STRIP_OFFSETS,
    TAG_TAU_BINS, TAG_TIMESTAMPS,
};
use crate::intensity::{added_intensity, strip_image, strip_words};
use crate::photon::{mask_hits, mask_tau_sum, tau_hits, tau_sum_at};
use crate::summation::masked_sum;
use crate::utils::{FramesError, IoFault};

verus! {

/// The vendor format-tag value of a raw photon-stream frame.
pub const FORMAT_RAW: u64 = 0;

/// The vendor format-tag value of a compressed intensity+arrivals frame.
pub const FORMAT_COMPRESSED: u64 = 1;

/// The frozen extract of one frame's directory.
#[derive(Debug, Clone, Copy)]
pub struct FrameRecord {
    /// Frame width in pixels.
    pub width: usize,
    /// Frame height in pixels.
    pub height: usize,
    /// Absolute file offset of the frame's primary data strip.
    pub strip_offset: usize,
    /// Byte length of the strip (for a compressed frame: of the arrival
    /// slab alone; the intensity slab sits before `strip_offset`).
    pub strip_bytes: usize,
    /// The vendor format tag's value, if the tag is present; a frame
    /// without it is a plain dense tiff image.
    pub siff_tag: Option<u64>,
    /// Offset and byte length of the appended metadata block, if any.
    pub metadata: Option<(u64, u64)>,
    /// Offset and word count of the frame-trigger timestamp trio, if any.
    pub timestamps: Option<(u64, u64)>,
    /// The instrument's arrival-time bin count, if declared on this frame.
    pub tau_bins: Option<u64>,
    /// Offset and byte length of the instrument-settings text block, if
    /// declared on this frame.
    pub nvfd: Option<(u64, u64)>,
    /// Offset and byte length of the multi-ROI description block, if
    /// declared on this frame.
    pub roi_string: Option<(u64, u64)>,
}

/// Whether a frame record can be extracted from a directory's tags: the
/// width, height, strip-offset and strip-byte-count tags are present, both
/// dimensions are nonzero with a pixel count in the supported range, and
/// the strip position and length fit the address space.
pub open spec fn record_extractable(tags: Seq<TagEntry>) -> bool {
    &&& spec_find_tag(tags, TAG_IMAGE_WIDTH) is Some
    &&& spec_find_tag(tags, TAG_IMAGE_LENGTH) is Some
    &&& 0 < spec_find_tag(tags, TAG_IMAGE_WIDTH)->Some_0.value
    &&& 0 < spec_find_tag(tags, TAG_IMAGE_LENGTH)->Some_0.value
    &&& spec_find_tag(tags, TAG_IMAGE_LENGTH)->Some_0.value * spec_find_tag(
        tags,
        TAG_IMAGE_WIDTH,
    )->Some_0.value <= MAX_FRAME_PIXELS
    &&& spec_find_tag(tags, TAG_STRIP_OFFSETS) is Some
    &&& spec_find_tag(tags, TAG_STRIP_BYTE_COUNTS) is Some
    &&& spec_find_tag(tags, TAG_STRIP_OFFSETS)->Some_0.value <= usize::MAX
    &&& spec_find_tag(tags, TAG_STRIP_BYTE_COUNTS)->Some_0.value <= usize::MAX
}

/// The record a directory's tags extract to (meaningful when
/// `record_extractable` holds).
pub open spec fn spec_record(tags: Seq<TagEntry>) -> FrameRecord {
    FrameRecord {
        width: spec_find_tag(tags, TAG_IMAGE_WIDTH)->Some_0.value as usize,
        height: spec_find_tag(tags, TAG_IMAGE_LENGTH)->Some_0.value as usize,
        strip_offset: spec_find_tag(tags, TAG_STRIP_OFFSETS)->Some_0.value as usize,
        strip_bytes: spec_find_tag(tags, TAG_STRIP_BYTE_COUNTS)->Some_0.value as usize,
        siff_tag: match spec_find_tag(tags, TAG_SIFF_FORMAT) {
            Some(t) => Some(t.value),
            None => None,
        },
        metadata: match spec_find_tag(tags, TAG_FRAME_METADATA) {
            Some(t) => Some((t.value, t.count)),
            None => None,
        },
        timestamps: match spec_find_tag(tags, TAG_TIMESTAMPS) {
            Some(t) => Some((t.value, t.count)),
            None => None,
        },
        tau_bins: match spec_find_tag(tags, TAG_TAU_BINS) {
            Some(t) => Some(t.value),
            None => None,
        },
        nvfd: match spec_find_tag(tags, TAG_NVFD) {
            Some(t) => Some((t.value, t.count)),
            None => None,
        },
        roi_string: match spec_find_tag(tags, TAG_ROI_STRING) {
            Some(t) => Some((t.value, t.count)),
            None => None,
        },
    }
}

impl FrameRecord {
    /// Dimensions are positive and the pixel count is in the supported
    /// range.
    pub open spec fn wf(self) -> bool {
        &&& 0 < self.height
        &&& 0 < self.width
        &&& self.height * self.width <= MAX_FRAME_PIXELS
    }

    /// The record's pixel count.
    pub open spec fn pixel_count(self) -> int {
        self.height * self.width
    }

    /// Extracts a record from a directory. Succeeds exactly when the
    /// width, height, strip-offset and strip-byte-count tags are present
    /// with dimensions in the supported range and positions fitting the
    /// address space; the record is then the tags', field for field.
    pub fn from_ifd<I: IFD>(ifd: &I) -> (r: Result<FrameRecord, FramesError>)
        ensures
            r is Ok <==> record_extractable(ifd.tag_seq()),
            r is Ok ==> r->Ok_0.wf(),
            r is Ok ==> r->Ok_0 == spec_record(ifd.tag_seq()),
    {
        let width_v: u64 = match ifd.width() {
            Some(v) => v,
            None => {
                return Err(FramesError::FormatError);
            },
        };
        let height_v: u64 = match ifd.height() {
            Some(v) => v,
            None => {
                return Err(FramesError::FormatError);
            },
        };
        if width_v == 0 || height_v == 0 || width_v > MAX_FRAME_PIXELS || height_v
            > MAX_FRAME_PIXELS {
            proof {
                if width_v > 0 && height_v > 0 {
                    assert(height_v * width_v > MAX_FRAME_PIXELS) by (nonlinear_arith)
                        requires
                            0 < width_v,
                            0 < height_v,
                            width_v > MAX_FRAME_PIXELS || height_v > MAX_FRAME_PIXELS,
                    ;
                }
            }
            return Err(FramesError::FormatError);
        }
        if MAX_FRAME_PIXELS / width_v < height_v {
            proof {
                assert(height_v * width_v > MAX_FRAME_PIXELS) by (nonlinear_arith)
                    requires
                        MAX_FRAME_PIXELS / width_v < height_v,
                        0 < width_v <= MAX_FRAME_PIXELS,
                        0 < height_v,
                ;
            }
            return Err(FramesError::FormatError);
        }
        proof {
            assert(height_v * width_v <= MAX_FRAME_PIXELS) by (nonlinear_arith)
                requires
                    height_v <= MAX_FRAME_PIXELS / width_v,
                    0 < width_v,
            ;
        }
        let strip_offset_v: u64 = match ifd.get_tag(TAG_STRIP_OFFSETS) {
            Some(t) => t.value,
            None => {
                return Err(FramesError::FormatError);
            },
        };
        let strip_bytes_v: u64 = match ifd.get_tag(TAG_STRIP_BYTE_COUNTS) {
            Some(t) => t.value,
            None => {
                return Err(FramesError::FormatError);
            },
        };
        if strip_offset_v > usize::MAX as u64 || strip_bytes_v > usize::MAX as u64 {
            return Err(FramesError::IOError(IoFault::UnexpectedEof));
        }
        let siff_tag: Option<u64> = match ifd.get_tag(TAG_SIFF_FORMAT) {
            Some(t) => Some(t.value),
            None => None,
        };
        let metadata: Option<(u64, u64)> = match ifd.get_tag(TAG_FRAME_METADATA) {
            Some(t) => Some((t.value, t.count)),
            None => None,
        };
        let timestamps: Option<(u64, u64)> = match ifd.get_tag(TAG_TIMESTAMPS) {
            Some(t) => Some((t.value, t.count)),
            None => None,
        };
        let tau_bins: Option<u64> = match ifd.get_tag(TAG_TAU_BINS) {
            Some(t) => Some(t.value),
            None => None,
        };
        let nvfd: Option<(u64, u64)> = match ifd.get_tag(TAG_NVFD) {
            Some(t) => Some((t.value, t.count)),
            None => None,
        };
        let roi_string: Option<(u64, u64)> = match ifd.get_tag(TAG_ROI_STRING) {
            Some(t) => Some((t.value, t.count)),
            None => None,
        };
        Ok(
            FrameRecord {
                width: width_v as usize,
                height: height_v as usize,
                strip_offset: strip_offset_v as usize,
                strip_bytes: strip_bytes_v as usize,
                siff_tag,
                metadata,
                timestamps,
                tau_bins,
                nvfd,
                roi_string,
            },
        )
    }
}

/// An all-zero 16-bit image of `n` pixels.
pub open spec fn zero16(n: int) -> Seq<u16> {
    Seq::new(n as nat, |p: int| 0u16)
}

/// The photon words of a raw frame's strip.
pub open spec fn record_words(data: Seq<u8>, rec: FrameRecord) -> Seq<u64> {
    strip_words(data, rec.strip_offset as int, rec.strip_bytes as int)
}

/// The intensity slab of a compressed frame: the dense image directly
/// before the declared strip offset.
pub open spec fn record_counts(data: Seq<u8>, rec: FrameRecord) -> Seq<u16> {
    strip_image(data, rec.strip_offset - 2 * rec.pixel_count(), rec.pixel_count())
}

/// The arrival slab of a compressed frame: 16-bit tau words at the strip
/// offset.
pub open spec fn record_arrivals(data: Seq<u8>, rec: FrameRecord) -> Seq<u16> {
    le16_seq(data, rec.strip_offset as int, rec.strip_bytes as int / 2)
}

/// The dense image of a plain-tiff frame, at the strip offset.
pub open spec fn record_tiff_image(data: Seq<u8>, rec: FrameRecord) -> Seq<u16> {
    strip_image(data, rec.strip_offset as int, rec.pixel_count())
}

/// The raw strip lies inside the file and divides into photon words.
pub open spec fn raw_ok(data: Seq<u8>, rec: FrameRecord) -> bool {
    &&& rec.strip_offset + rec.strip_bytes <= data.len()
    &&& rec.strip_bytes % 8 == 0
}

/// The compressed intensity slab lies inside the file.
pub open spec fn comp_slab_ok(data: Seq<u8>, rec: FrameRecord) -> bool {
    &&& 2 * rec.pixel_count() <= rec.strip_offset
    &&& rec.strip_offset <= data.len()
}

/// The arrival slab lies inside the file and divides into tau words.
pub open spec fn arrivals_ok(data: Seq<u8>, rec: FrameRecord) -> bool {
    &&& rec.strip_offset + rec.strip_bytes <= data.len()
    &&& rec.strip_bytes % 2 == 0
}

/// Both compressed slabs lie inside the file and the arrival slab divides
/// into tau words.
pub open spec fn comp_stream_ok(data: Seq<u8>, rec: FrameRecord) -> bool {
    &&& comp_slab_ok(data, rec)
    &&& arrivals_ok(data, rec)
}

/// The intensity slab does not claim more photons than the arrival slab
/// holds.
pub open spec fn comp_counts_ok(data: Seq<u8>, rec: FrameRecord) -> bool {
    counts_prefix(record_counts(data, rec), rec.pixel_count()) <= rec.strip_bytes as int / 2
}

/// The plain-tiff dense image lies inside the file.
pub open spec fn tiff_ok(data: Seq<u8>, rec: FrameRecord) -> bool {
    rec.strip_offset + 2 * rec.pixel_count() <= data.len()
}

/// The raw strip is small enough for the lifetime accumulators.
pub open spec fn flim_size_ok(rec: FrameRecord) -> bool {
    rec.strip_bytes <= MAX_FLIM_STRIP_BYTES
}

/// Whether an intensity decode of this frame succeeds.
pub open spec fn intensity_decodable(data: Seq<u8>, rec: FrameRecord) -> bool {
    if rec.siff_tag == Some(FORMAT_RAW) {
        raw_ok(data, rec)
    } else if rec.siff_tag == Some(FORMAT_COMPRESSED) {
        comp_slab_ok(data, rec)
    } else if rec.siff_tag is None {
        tiff_ok(data, rec)
    } else {
        false
    }
}

/// The intensity image an intensity decode produces: photon counts added
/// into `init` for a raw frame; the intensity slab (rolled by the
/// registration) for a compressed frame; the dense image (rolled) for a
/// plain tiff.
pub open spec fn frame_intensity_spec(
    data: Seq<u8>,
    rec: FrameRecord,
    init: Seq<u16>,
    dy: int,
    dx: int,
) -> Seq<u16> {
    if rec.siff_tag == Some(FORMAT_RAW) {
        added_intensity(init, record_words(data, rec), dy, dx, rec.height as int, rec.width as int)
    } else if rec.siff_tag == Some(FORMAT_COMPRESSED) {
        rolled(record_counts(data, rec), dy, dx, rec.height as int, rec.width as int)
    } else {
        rolled(record_tiff_image(data, rec), dy, dx, rec.height as int, rec.width as int)
    }
}

/// Whether a histogram decode of this frame succeeds: a histogram needs
/// photon data, so a plain tiff cannot provide one.
pub open spec fn hist_decodable(data: Seq<u8>, rec: FrameRecord) -> bool {
    if rec.siff_tag == Some(FORMAT_RAW) {
        raw_ok(data, rec)
    } else if rec.siff_tag == Some(FORMAT_COMPRESSED) {
        arrivals_ok(data, rec)
    } else {
        false
    }
}

/// What the frame adds to histogram bin `b`: its photons (raw) or arrival
/// words (compressed) with tau exactly `b`.
pub open spec fn frame_hist_spec(data: Seq<u8>, rec: FrameRecord, b: int) -> nat {
    if rec.siff_tag == Some(FORMAT_RAW) {
        tau_hits(record_words(data, rec), b)
    } else {
        crate::compressed::tau16_hits(record_arrivals(data, rec), b)
    }
}

/// Whether a masked histogram of this frame succeeds: photon data whose
/// arrival stream holds, for a compressed frame, all the photons the
/// intensity slab claims (the mask walk needs the per-pixel windows).
pub open spec fn hist_mask_decodable(data: Seq<u8>, rec: FrameRecord) -> bool {
    if rec.siff_tag == Some(FORMAT_RAW) {
        raw_ok(data, rec)
    } else if rec.siff_tag == Some(FORMAT_COMPRESSED) {
        comp_stream_ok(data, rec) && comp_counts_ok(data, rec)
    } else {
        false
    }
}

/// What the frame adds to bin `b` of a masked histogram: its photons
/// landing inside the mask (raw), or the arrival windows of the masked
/// pixels (compressed), with tau exactly `b`.
pub open spec fn frame_mask_hist_spec(
    data: Seq<u8>,
    rec: FrameRecord,
    mask: Seq<bool>,
    b: int,
) -> nat {
    if rec.siff_tag == Some(FORMAT_RAW) {
        crate::photon::mask_tau_hits(
            record_words(data, rec),
            0,
            0,
            rec.height as int,
            rec.width as int,
            mask,
            b,
        )
    } else {
        masked_sum(
            |p: int|
                crate::compressed::window_eq_hits(
                    record_arrivals(data, rec),
                    counts_prefix(record_counts(data, rec), p) as int,
                    record_counts(data, rec)[p] as int,
                    b,
                ),
            |p: int| mask[p],
            rec.pixel_count(),
        )
    }
}

/// Whether a lifetime decode of this frame succeeds: photon data small
/// enough for the accumulators, and for a compressed frame an arrival slab
/// that holds all the photons its intensity slab claims.
pub open spec fn flim_decodable(data: Seq<u8>, rec: FrameRecord) -> bool {
    if rec.siff_tag == Some(FORMAT_RAW) {
        raw_ok(data, rec) && flim_size_ok(rec)
    } else if rec.siff_tag == Some(FORMAT_COMPRESSED) {
        comp_stream_ok(data, rec) && comp_counts_ok(data, rec)
    } else {
        false
    }
}

/// The per-pixel arrival-time sums a lifetime decode produces.
pub open spec fn frame_tau_spec(data: Seq<u8>, rec: FrameRecord, dy: int, dx: int) -> Seq<u64> {
    if rec.siff_tag == Some(FORMAT_RAW) {
        Seq::new(
            rec.pixel_count() as nat,
            |p: int|
                tau_sum_at(
                    record_words(data, rec),
                    dy,
                    dx,
                    rec.height as int,
                    rec.width as int,
                    p,
                ) as u64,
        )
    } else {
        rolled(
            Seq::new(
                rec.pixel_count() as nat,
                |p: int|
                    pixel_tau_sum(record_counts(data, rec), record_arrivals(data, rec), p) as u64,
            ),
            dy,
            dx,
            rec.height as int,
            rec.width as int,
        )
    }
}

/// Whether a masked intensity reduction of this frame succeeds.
pub open spec fn mask_sum_decodable(data: Seq<u8>, rec: FrameRecord) -> bool {
    intensity_decodable(data, rec)
}

/// The photon count a masked reduction collects: photons landing inside
/// the mask (raw), or pixel counts under the inversely rolled mask
/// (compressed and plain tiff) — the two realisations of registration that
/// the cyclic roll makes equivalent.
pub open spec fn frame_mask_sum_spec(
    data: Seq<u8>,
    rec: FrameRecord,
    mask: Seq<bool>,
    dy: int,
    dx: int,
) -> nat {
    if rec.siff_tag == Some(FORMAT_RAW) {
        mask_hits(record_words(data, rec), dy, dx, rec.height as int, rec.width as int, mask)
    } else if rec.siff_tag == Some(FORMAT_COMPRESSED) {
        masked_sum(
            |p: int| record_counts(data, rec)[p] as nat,
            |p: int| mask[shift_pix(p, dy, dx, rec.height as int, rec.width as int)],
            rec.pixel_count(),
        )
    } else {
        masked_sum(
            |p: int| record_tiff_image(data, rec)[p] as nat,
            |p: int| mask[shift_pix(p, dy, dx, rec.height as int, rec.width as int)],
            rec.pixel_count(),
        )
    }
}

/// Whether a masked lifetime reduction of this frame succeeds: as for the
/// image decode, with the strip also small enough for the whole-mask
/// arrival-time accumulator.
pub open spec fn flim_mask_decodable(data: Seq<u8>, rec: FrameRecord) -> bool {
    flim_decodable(data, rec) && flim_size_ok(rec)
}

/// The arrival-time sum a masked lifetime reduction collects.
pub open spec fn frame_mask_tau_spec(
    data: Seq<u8>,
    rec: FrameRecord,
    mask: Seq<bool>,
    dy: int,
    dx: int,
) -> nat {
    if rec.siff_tag == Some(FORMAT_RAW) {
        mask_tau_sum(record_words(data, rec), dy, dx, rec.height as int, rec.width as int, mask)
    } else {
        masked_sum(
            |p: int| pixel_tau_sum(record_counts(data, rec), record_arrivals(data, rec), p),
            |p: int| mask[shift_pix(p, dy, dx, rec.height as int, rec.width as int)],
            rec.pixel_count(),
        )
    }
}

} // verus!
