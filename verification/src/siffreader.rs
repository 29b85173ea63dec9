//! The primary `SiffReader` object: it parses the container held in memory
//! and extracts images, reductions and metadata.

use vstd::prelude::*;
use crate::bytes::{le16, le32, le64, read_u16, read_u32, read_u64};
use crate::dimensions::{Dimensions, DimensionsError};
use crate::dispatch::{
    load_array_intensity_registered, load_flim_empirical_and_intensity_arrays_registered,
    load_histogram, load_histogram_mask, sum_flim_mask_registered, sum_intensity_mask_registered,
};
use crate::flim::{load_array_tau_d_registered, tau_d_decodable, frame_tau_d_spec, TauVolume};
use crate::frame::{Frame, FrameU64, Mask};
use crate::ifd::{
    chain_cap, chain_ok_from, chain_offsets_from, ifd_tags_at, read_ifd_chain,
};
use crate::metadata::FrameMetadata;
use crate::record::{
    flim_decodable, flim_mask_decodable, frame_hist_spec, frame_intensity_spec,
    frame_mask_hist_spec, frame_mask_sum_spec, frame_mask_tau_spec, frame_tau_spec,
    hist_decodable, hist_mask_decodable, intensity_decodable, mask_sum_decodable, raw_ok,
    record_extractable, record_words, spec_record, zero16, FrameRecord, FORMAT_RAW,
};
use crate::utils::{FramesError, IoFault};
use crate::CorrosiffError;

verus! {

/// The container header parses: the little-endian `II` magic, then either
/// the classic version word or the big variant's with its fixed offset
/// size.
pub open spec fn header_ok(data: Seq<u8>) -> bool {
    &&& data.len() >= 8
    &&& data[0] == 0x49
    &&& data[1] == 0x49
    &&& (le16(data, 2) == 42 || (le16(data, 2) == 43 && data.len() >= 16 && le16(data, 4) == 8
        && le16(data, 6) == 0))
}

/// Whether the header declares the big 64-bit variant.
pub open spec fn bigtiff_of(data: Seq<u8>) -> bool {
    le16(data, 2) == 43
}

/// The header's pointer to the first directory.
pub open spec fn first_ifd_of(data: Seq<u8>) -> u64 {
    if bigtiff_of(data) {
        le64(data, 8)
    } else {
        le32(data, 4) as u64
    }
}

/// The directory offsets of the file's chain, in file order.
pub open spec fn file_chain_offsets(data: Seq<u8>) -> Seq<int> {
    chain_offsets_from(data, first_ifd_of(data), bigtiff_of(data), chain_cap(data))
}

/// The frozen records the file's directories extract to, one per frame.
pub open spec fn open_records(data: Seq<u8>) -> Seq<FrameRecord> {
    file_chain_offsets(data).map_values(
        |off: int| spec_record(ifd_tags_at(data, off, bigtiff_of(data))),
    )
}

/// Every directory of the chain extracts to a record.
pub open spec fn all_records_extractable(data: Seq<u8>) -> bool {
    forall|k: int|
        0 <= k < file_chain_offsets(data).len() ==> record_extractable(
            ifd_tags_at(data, #[trigger] file_chain_offsets(data)[k], bigtiff_of(data)),
        )
}

/// Opening succeeds exactly when the header parses, the directory chain
/// walks to its terminator inside the file, and every directory extracts
/// to a record.
pub open spec fn open_ok(data: Seq<u8>) -> bool {
    &&& header_ok(data)
    &&& chain_ok_from(data, first_ifd_of(data), bigtiff_of(data), chain_cap(data))
    &&& all_records_extractable(data)
}

/// The dimensions every record of a non-empty run agrees on, if they do.
pub open spec fn shared_dims_of(recs: Seq<FrameRecord>) -> Option<Dimensions> {
    if recs.len() > 0 && (forall|i: int|
        0 <= i < recs.len() ==> (#[trigger] recs[i]).height == recs[0].height && recs[i].width
            == recs[0].width) {
        Some(Dimensions { xdim: recs[0].width as u64, ydim: recs[0].height as u64 })
    } else {
        None
    }
}

/// The arrival-time bin count the file declares: the first frame's, if any.
pub open spec fn tau_bins_of(recs: Seq<FrameRecord>) -> Option<u64> {
    if recs.len() > 0 {
        recs[0].tau_bins
    } else {
        None
    }
}

/// A per-frame registration table: frame index to `(dy, dx)` pixel shift.
/// Lookup takes the most recently inserted entry for a frame.
pub struct RegistrationDict {
    entries: Vec<(u64, (i32, i32))>,
}

/// The first entry of `entries` with key `k`.
pub open spec fn reg_lookup(entries: Seq<(u64, (i32, i32))>, k: u64) -> Option<(i32, i32)>
    decreases entries.len(),
{
    if entries.len() == 0 {
        None
    } else if entries[0].0 == k {
        Some(entries[0].1)
    } else {
        reg_lookup(entries.drop_first(), k)
    }
}

impl RegistrationDict {
    /// The shift stored for frame `k`, if any.
    pub closed spec fn spec_get(self, k: u64) -> Option<(i32, i32)> {
        reg_lookup(self.entries@, k)
    }

    /// Whether the table holds no entries.
    pub closed spec fn spec_is_empty(self) -> bool {
        self.entries@.len() == 0
    }

    /// An empty registration table.
    pub fn new() -> (r: RegistrationDict)
        ensures
            r.spec_is_empty(),
            forall|k: u64| r.spec_get(k) is None,
    {
        RegistrationDict { entries: Vec::new() }
    }

    /// Stores the shift for frame `k`, shadowing any earlier entry.
    pub fn insert(&mut self, k: u64, shift: (i32, i32))
        ensures
            !final(self).spec_is_empty(),
            final(self).spec_get(k) == Some(shift),
            forall|k2: u64| k2 != k ==> final(self).spec_get(k2) == old(self).spec_get(k2),
    {
        self.entries.insert(0, (k, shift));
        proof {
            assert(self.entries@.drop_first() =~= old(self).entries@);
        }
    }

    /// The shift stored for frame `k`.
    pub fn get(&self, k: u64) -> (r: Option<(i32, i32)>)
        ensures
            r == self.spec_get(k),
    {
        let n: usize = self.entries.len();
        proof {
            assert(self.entries@.skip(0) =~= self.entries@);
        }
        let mut i: usize = 0;
        while i < n
            invariant
                i <= n,
                n == self.entries@.len(),
                reg_lookup(self.entries@, k) == reg_lookup(self.entries@.skip(i as int), k),
            decreases n - i,
        {
            proof {
                assert(self.entries@.skip(i as int).drop_first() =~= self.entries@.skip(
                    i as int + 1,
                ));
                assert(self.entries@.skip(i as int)[0] == self.entries@[i as int]);
            }
            let e = self.entries[i];
            if e.0 == k {
                return Some(e.1);
            }
            i = i + 1;
        }
        proof {
            assert(self.entries@.skip(n as int) =~= Seq::<(u64, (i32, i32))>::empty());
        }
        None
    }

    /// Whether the table holds a shift for frame `k`.
    pub fn contains_key(&self, k: u64) -> (r: bool)
        ensures
            r == (self.spec_get(k) is Some),
    {
        match self.get(k) {
            Some(_) => true,
            None => false,
        }
    }

    /// Whether the table holds no entries.
    pub fn is_empty(&self) -> (r: bool)
        ensures
            r == self.spec_is_empty(),
    {
        self.entries.len() == 0
    }
}

/// The shift a request applies to frame `f`: none without a table, none
/// under an empty table (an empty table means "no registration"), else the
/// table's entry for `f` (or no shift where the entry is missing — a case
/// the request validation rejects beforehand).
pub open spec fn shift_spec(registration: Option<&RegistrationDict>, f: u64) -> (i32, i32) {
    match registration {
        None => (0i32, 0i32),
        Some(d) => if d.spec_is_empty() {
            (0i32, 0i32)
        } else {
            match d.spec_get(f) {
                Some(s) => s,
                None => (0i32, 0i32),
            }
        },
    }
}

/// Every requested frame has a shift, or the table is absent or empty.
pub open spec fn registration_ok(
    registration: Option<&RegistrationDict>,
    frames: Seq<u64>,
) -> bool {
    match registration {
        None => true,
        Some(d) => d.spec_is_empty() || forall|k: int|
            0 <= k < frames.len() ==> #[trigger] d.spec_get(frames[k]) is Some,
    }
}

/// A reader over a siff file held in memory: the file's bytes, the frozen
/// frame records parsed from its directory chain, the shared dimensions if
/// all frames agree, and the instrument's arrival-time bin count.
pub struct SiffReader {
    data: Vec<u8>,
    records: Vec<FrameRecord>,
    image_dims: Option<Dimensions>,
    tau_bins: Option<u64>,
    bigtiff: bool,
}

impl SiffReader {
    /// The file's bytes.
    pub closed spec fn dataq(self) -> Seq<u8> {
        self.data@
    }

    /// The frame records, one per frame.
    pub closed spec fn recs(self) -> Seq<FrameRecord> {
        self.records@
    }

    /// The shared dimensions, if every frame agrees.
    pub closed spec fn spec_image_dims(self) -> Option<Dimensions> {
        self.image_dims
    }

    /// The declared arrival-time bin count, if any.
    pub closed spec fn spec_tau_bins(self) -> Option<u64> {
        self.tau_bins
    }

    /// Every record is well-formed, and when shared dimensions are cached
    /// every record has exactly those.
    pub closed spec fn wf(self) -> bool {
        &&& forall|i: int| 0 <= i < self.records@.len() ==> (#[trigger] self.records@[i]).wf()
        &&& match self.image_dims {
            Some(d) => forall|i: int|
                0 <= i < self.records@.len() ==> (#[trigger] self.records@[i]).height == d.ydim
                    && self.records@[i].width == d.xdim,
            None => true,
        }
    }

    /// Every requested index names a frame of the file.
    pub open spec fn frames_in_bounds(self, frames: Seq<u64>) -> bool {
        forall|k: int| 0 <= k < frames.len() ==> (#[trigger] frames[k]) < self.recs().len()
    }

    /// The requested frames share one shape (trivially true when the whole
    /// file shares one).
    pub open spec fn dims_ok(self, frames: Seq<u64>) -> bool {
        self.spec_image_dims() is Some || (forall|k: int|
            0 <= k < frames.len() ==> (#[trigger] self.recs()[frames[k] as int]).height
                == self.recs()[frames[0] as int].height && self.recs()[frames[k] as int].width
                == self.recs()[frames[0] as int].width)
    }

    /// Opens a file held in memory: validates the magic and version words,
    /// walks the directory chain, and freezes one record per frame.
    /// Succeeds exactly when the header parses, the chain walks to its
    /// terminator inside the file, and every directory extracts to a
    /// record; the reader then holds those records in file order, the
    /// shared dimensions when all frames agree, and the first frame's
    /// declared arrival-time bin count.
    ///
    /// Fails on a magic other than little-endian `II`, a version word other
    /// than the classic and big variants', a truncated header or directory,
    /// and on any directory whose width, height or strip entries are
    /// missing or malformed.
    pub fn open(data: Vec<u8>) -> (r: Result<SiffReader, CorrosiffError>)
        ensures
            r is Ok <==> open_ok(data@),
            r is Ok ==> r->Ok_0.wf(),
            r is Ok ==> r->Ok_0.dataq() == data@,
            r is Ok ==> r->Ok_0.recs() == open_records(data@),
            r is Ok ==> r->Ok_0.spec_bigtiff() == bigtiff_of(data@),
            r is Ok ==> r->Ok_0.spec_image_dims() == shared_dims_of(open_records(data@)),
            r is Ok ==> r->Ok_0.spec_tau_bins() == tau_bins_of(open_records(data@)),
    {
        let dlen: usize = data.len();
        if dlen < 8 {
            return Err(CorrosiffError::FramesError(FramesError::IOError(
                IoFault::UnexpectedEof,
            )));
        }
        // magic: little-endian "II"; the big-endian variant is not handled
        if !(data[0] == 0x49 && data[1] == 0x49) {
            return Err(CorrosiffError::FramesError(FramesError::FormatError));
        }
        let version: u16 = read_u16(&data, 2);
        let bigtiff: bool;
        let first_ifd: u64;
        if version == 42 {
            bigtiff = false;
            first_ifd = read_u32(&data, 4) as u64;
        } else if version == 43 {
            if dlen < 16 {
                return Err(CorrosiffError::FramesError(FramesError::IOError(
                    IoFault::UnexpectedEof,
                )));
            }
            let off_size: u16 = read_u16(&data, 4);
            let zero_word: u16 = read_u16(&data, 6);
            if off_size != 8 || zero_word != 0 {
                return Err(CorrosiffError::FramesError(FramesError::FormatError));
            }
            bigtiff = true;
            first_ifd = read_u64(&data, 8);
        } else {
            return Err(CorrosiffError::FramesError(FramesError::FormatError));
        }
        let ifds = match read_ifd_chain(&data, first_ifd, bigtiff) {
            Ok(v) => v,
            Err(e) => {
                return Err(CorrosiffError::FramesError(e));
            },
        };
        let mut records: Vec<FrameRecord> = Vec::new();
        let n: usize = ifds.len();
        let mut i: usize = 0;
        while i < n
            invariant
                i <= n,
                n == ifds@.len(),
                header_ok(data@),
                bigtiff == bigtiff_of(data@),
                first_ifd == first_ifd_of(data@),
                chain_ok_from(data@, first_ifd_of(data@), bigtiff_of(data@), chain_cap(data@)),
                n == file_chain_offsets(data@).len(),
                forall|k: int|
                    0 <= k < n ==> (#[trigger] ifds@[k]).tags@ == ifd_tags_at(
                        data@,
                        file_chain_offsets(data@)[k],
                        bigtiff_of(data@),
                    ),
                records@.len() == i,
                forall|j: int| 0 <= j < i ==> (#[trigger] records@[j]).wf(),
                forall|j: int|
                    0 <= j < i ==> #[trigger] records@[j] == spec_record(ifds@[j].tags@),
                forall|j: int| 0 <= j < i ==> record_extractable((#[trigger] ifds@[j]).tags@),
            decreases n - i,
        {
            let rec = match FrameRecord::from_ifd(&ifds[i]) {
                Ok(rec) => rec,
                Err(e) => {
                    proof {
                        assert(!record_extractable(
                            ifd_tags_at(
                                data@,
                                file_chain_offsets(data@)[i as int],
                                bigtiff_of(data@),
                            ),
                        ));
                    }
                    return Err(CorrosiffError::FramesError(e));
                },
            };
            records.push(rec);
            i = i + 1;
        }
        proof {
            assert(records@ =~= open_records(data@));
            assert forall|k: int| 0 <= k < file_chain_offsets(data@).len() implies
                record_extractable(
                ifd_tags_at(data@, #[trigger] file_chain_offsets(data@)[k], bigtiff_of(data@)),
            ) by {
                assert(ifds@[k].tags@ == ifd_tags_at(
                    data@,
                    file_chain_offsets(data@)[k],
                    bigtiff_of(data@),
                ));
                assert(record_extractable(ifds@[k].tags@));
            }
            assert(all_records_extractable(data@));
        }
        // shared dimensions, if every frame agrees
        let mut image_dims: Option<Dimensions> = None;
        if records.len() > 0 {
            let h0: usize = records[0].height;
            let w0: usize = records[0].width;
            let mut all_same: bool = true;
            let m: usize = records.len();
            let mut j: usize = 0;
            while j < m
                invariant
                    j <= m,
                    m == records@.len(),
                    all_same <==> (forall|t: int|
                        0 <= t < j ==> (#[trigger] records@[t]).height == h0 && records@[t].width
                            == w0),
                decreases m - j,
            {
                if !(records[j].height == h0 && records[j].width == w0) {
                    all_same = false;
                }
                j = j + 1;
            }
            if all_same {
                image_dims = Some(Dimensions { xdim: w0 as u64, ydim: h0 as u64 });
            }
        }
        let tau_bins: Option<u64> = if records.len() > 0 {
            records[0].tau_bins
        } else {
            None
        };
        Ok(SiffReader { data, records, image_dims, tau_bins, bigtiff })
    }

    /// The number of frames in the file (including flyback).
    pub fn num_frames(&self) -> (r: usize)
        ensures
            r == self.recs().len(),
    {
        self.records.len()
    }

    /// All frame indices of the file, in order.
    pub fn frames_vec(&self) -> (r: Vec<u64>)
        ensures
            r@.len() == self.recs().len(),
            forall|k: int| 0 <= k < r@.len() ==> #[trigger] r@[k] == k,
    {
        let n: usize = self.records.len();
        let mut r: Vec<u64> = Vec::new();
        let mut i: usize = 0;
        while i < n
            invariant
                i <= n,
                i <= usize::MAX,
                r@.len() == i,
                forall|k: int| 0 <= k < i ==> #[trigger] r@[k] == k,
            decreases n - i,
        {
            r.push(i as u64);
            i = i + 1;
        }
        r
    }

    /// The shared frame dimensions, if every frame of the file agrees.
    pub fn image_dims(&self) -> (r: Option<Dimensions>)
        ensures
            r == self.spec_image_dims(),
    {
        self.image_dims
    }

    /// Whether the file uses the big 64-bit container variant.
    pub fn is_bigtiff(&self) -> (r: bool)
        ensures
            r == self.spec_bigtiff(),
    {
        self.bigtiff
    }

    /// Whether the file uses the big 64-bit container variant.
    pub closed spec fn spec_bigtiff(self) -> bool {
        self.bigtiff
    }

    /// The instrument's declared arrival-time bin count, if any.
    pub fn num_flim_tau_bins(&self) -> (r: Option<u64>)
        ensures
            r == self.spec_tau_bins(),
    {
        self.tau_bins
    }

    /// Every requested frame's intensity strip can be decoded.
    pub open spec fn all_intensity_decodable(self, frames: Seq<u64>) -> bool {
        forall|k: int|
            0 <= k < frames.len() ==> intensity_decodable(
                self.dataq(),
                #[trigger] self.recs()[frames[k] as int],
            )
    }

    /// Checks that every requested index names a frame of the file.
    fn check_frames_in_bounds(&self, frames: &Vec<u64>) -> (r: bool)
        ensures
            r == self.frames_in_bounds(frames@),
    {
        let n: usize = frames.len();
        let nrec: usize = self.records.len();
        let mut k: usize = 0;
        while k < n
            invariant
                k <= n,
                n == frames@.len(),
                nrec == self.recs().len(),
                forall|j: int| 0 <= j < k ==> (#[trigger] frames@[j]) < nrec,
            decreases n - k,
        {
            if frames[k] >= nrec as u64 {
                return false;
            }
            k = k + 1;
        }
        true
    }

    /// Checks that the requested frames share one shape.
    fn check_dims_ok(&self, frames: &Vec<u64>) -> (r: bool)
        requires
            self.frames_in_bounds(frames@),
            frames@.len() > 0,
        ensures
            r == self.dims_ok(frames@),
    {
        if self.image_dims.is_some() {
            return true;
        }
        let n: usize = frames.len();
        let nrec: usize = self.records.len();
        let first = self.records[frames[0] as usize];
        let mut k: usize = 0;
        let mut all_same: bool = true;
        while k < n
            invariant
                k <= n,
                n == frames@.len(),
                nrec == self.recs().len(),
                self.frames_in_bounds(frames@),
                first == self.recs()[frames@[0] as int],
                all_same ==> (forall|j: int|
                    0 <= j < k ==> (#[trigger] self.recs()[frames@[j] as int]).height
                        == first.height && self.recs()[frames@[j] as int].width == first.width),
                !all_same ==> !(forall|j: int|
                    0 <= j < n ==> (#[trigger] self.recs()[frames@[j] as int]).height
                        == first.height && self.recs()[frames@[j] as int].width == first.width),
            decreases n - k,
        {
            let rec = self.records[frames[k] as usize];
            if !(rec.height == first.height && rec.width == first.width) {
                all_same = false;
                proof {
                    assert(!((self.recs()[frames@[k as int] as int]).height == first.height
                        && self.recs()[frames@[k as int] as int].width == first.width));
                }
            }
            k = k + 1;
        }
        all_same
    }

    /// Checks that registration, when used, covers every requested frame.
    fn check_registration(
        &self,
        registration: Option<&RegistrationDict>,
        frames: &Vec<u64>,
    ) -> (r: bool)
        ensures
            r == registration_ok(registration, frames@),
    {
        match registration {
            None => true,
            Some(d) => {
                if d.is_empty() {
                    return true;
                }
                let n: usize = frames.len();
                let mut k: usize = 0;
                while k < n
                    invariant
                        k <= n,
                        n == frames@.len(),
                        registration == Some(d),
                        !d.spec_is_empty(),
                        forall|j: int| 0 <= j < k ==> #[trigger] d.spec_get(frames@[j]) is Some,
                    decreases n - k,
                {
                    if !d.contains_key(frames[k]) {
                        proof {
                            assert(!(d.spec_get(frames@[k as int]) is Some));
                        }
                        return false;
                    }
                    k = k + 1;
                }
                true
            },
        }
    }

    /// The shift the request applies to frame `f`.
    fn shift_for(registration: Option<&RegistrationDict>, f: u64) -> (r: (i32, i32))
        ensures
            r == shift_spec(registration, f),
    {
        match registration {
            None => (0, 0),
            Some(d) => {
                if d.is_empty() {
                    (0, 0)
                } else {
                    match d.get(f) {
                        Some(s) => s,
                        None => (0, 0),
                    }
                }
            },
        }
    }

    /// Returns the intensity images of the requested frames, one photon
    /// count per pixel, optionally registered: frame `k` of the result is
    /// frame `frames[k]` of the file under the request's shift for it.
    ///
    /// Fails when a requested frame is out of bounds, when the frames do
    /// not share one shape, when a registration table misses a requested
    /// frame, and when a frame's strip is malformed or out of the file's
    /// bounds.
    pub fn get_frames_intensity(
        &self,
        frames: &Vec<u64>,
        registration: Option<&RegistrationDict>,
    ) -> (r: Result<Vec<Frame>, CorrosiffError>)
        requires
            self.wf(),
        ensures
            r is Ok <==> self.frames_in_bounds(frames@) && (frames@.len() > 0 ==> self.dims_ok(
                frames@,
            )) && registration_ok(registration, frames@) && self.all_intensity_decodable(frames@),
            !self.frames_in_bounds(frames@) ==> (r matches Err(
                CorrosiffError::FramesError(
                    FramesError::DimensionsError(DimensionsError::IncorrectFrames),
                )
            )),
            self.frames_in_bounds(frames@) && frames@.len() > 0 && !self.dims_ok(frames@) ==> (
            r matches Err(
                CorrosiffError::FramesError(
                    FramesError::DimensionsError(DimensionsError::NoConsistentDimensions),
                )
            )),
            self.frames_in_bounds(frames@) && (frames@.len() > 0 ==> self.dims_ok(frames@))
                && !registration_ok(registration, frames@) ==> (r matches Err(
                CorrosiffError::FramesError(FramesError::RegistrationFramesMissing)
            )),
            r is Ok ==> r->Ok_0@.len() == frames@.len(),
            r is Ok ==> forall|k: int|
                0 <= k < frames@.len() ==> {
                    let rec = self.recs()[frames@[k] as int];
                    &&& (#[trigger] r->Ok_0@[k]).wf()
                    &&& r->Ok_0@[k].height == rec.height
                    &&& r->Ok_0@[k].width == rec.width
                    &&& r->Ok_0@[k].pixels@ == frame_intensity_spec(
                        self.dataq(),
                        rec,
                        zero16(rec.pixel_count()),
                        shift_spec(registration, frames@[k]).0 as int,
                        shift_spec(registration, frames@[k]).1 as int,
                    )
                },
    {
        if !self.check_frames_in_bounds(frames) {
            return Err(CorrosiffError::FramesError(FramesError::DimensionsError(
                DimensionsError::IncorrectFrames,
            )));
        }
        let n: usize = frames.len();
        if n > 0 && !self.check_dims_ok(frames) {
            return Err(CorrosiffError::FramesError(FramesError::DimensionsError(
                DimensionsError::NoConsistentDimensions,
            )));
        }
        if !self.check_registration(registration, frames) {
            return Err(CorrosiffError::FramesError(FramesError::RegistrationFramesMissing));
        }
        let mut out: Vec<Frame> = Vec::new();
        let nrec: usize = self.records.len();
        let mut k: usize = 0;
        while k < n
            invariant
                k <= n,
                n == frames@.len(),
                nrec == self.recs().len(),
                self.wf(),
                self.frames_in_bounds(frames@),
                n > 0 ==> self.dims_ok(frames@),
                registration_ok(registration, frames@),
                out@.len() == k,
                forall|j: int|
                    0 <= j < k ==> intensity_decodable(
                        self.dataq(),
                        #[trigger] self.recs()[frames@[j] as int],
                    ),
                forall|j: int|
                    0 <= j < k ==> {
                        let rec = self.recs()[frames@[j] as int];
                        &&& (#[trigger] out@[j]).wf()
                        &&& out@[j].height == rec.height
                        &&& out@[j].width == rec.width
                        &&& out@[j].pixels@ == frame_intensity_spec(
                            self.dataq(),
                            rec,
                            zero16(rec.pixel_count()),
                            shift_spec(registration, frames@[j]).0 as int,
                            shift_spec(registration, frames@[j]).1 as int,
                        )
                    },
            decreases n - k,
        {
            let f: u64 = frames[k];
            let rec: FrameRecord = self.records[f as usize];
            let mut frame = Frame::zeros(rec.height, rec.width);
            let shift = Self::shift_for(registration, f);
            let mut pos: usize = 0;
            proof {
                assert(frame.pixels@ =~= zero16(rec.pixel_count()));
            }
            match load_array_intensity_registered(&self.data, &mut pos, &rec, &mut frame, shift) {
                Ok(()) => {},
                Err(e) => {
                    return Err(CorrosiffError::FramesError(e));
                },
            }
            out.push(frame);
            k = k + 1;
        }
        Ok(out)
    }

    /// Every requested frame's photon data can be decoded for lifetimes.
    pub open spec fn all_flim_decodable(self, frames: Seq<u64>) -> bool {
        forall|k: int|
            0 <= k < frames.len() ==> flim_decodable(
                self.dataq(),
                #[trigger] self.recs()[frames[k] as int],
            )
    }

    /// Every requested frame can contribute to a histogram.
    pub open spec fn all_hist_decodable(self, frames: Seq<u64>) -> bool {
        forall|k: int|
            0 <= k < frames.len() ==> hist_decodable(
                self.dataq(),
                #[trigger] self.recs()[frames[k] as int],
            )
    }

    /// Every requested frame supports a masked intensity reduction.
    pub open spec fn all_mask_sum_decodable(self, frames: Seq<u64>) -> bool {
        forall|k: int|
            0 <= k < frames.len() ==> mask_sum_decodable(
                self.dataq(),
                #[trigger] self.recs()[frames[k] as int],
            )
    }

    /// Every requested frame supports a masked lifetime reduction.
    pub open spec fn all_flim_mask_decodable(self, frames: Seq<u64>) -> bool {
        forall|k: int|
            0 <= k < frames.len() ==> flim_mask_decodable(
                self.dataq(),
                #[trigger] self.recs()[frames[k] as int],
            )
    }

    /// The mask shape every frame of a non-empty request must match.
    pub open spec fn mask_fits(self, frames: Seq<u64>, h: int, w: int) -> bool {
        frames.len() > 0 ==> (self.recs()[frames[0] as int].height == h
            && self.recs()[frames[0] as int].width == w)
    }

    /// Under a consistent request, every requested frame shares the shape
    /// of the first.
    proof fn lemma_request_shape(self, frames: Seq<u64>)
        requires
            self.wf(),
            self.frames_in_bounds(frames),
            frames.len() > 0 ==> self.dims_ok(frames),
        ensures
            forall|k: int|
                0 <= k < frames.len() ==> (#[trigger] self.recs()[frames[k] as int]).height
                    == self.recs()[frames[0] as int].height && self.recs()[frames[k] as int].width
                    == self.recs()[frames[0] as int].width,
    {
        if frames.len() > 0 {
            match self.image_dims {
                Some(d) => {
                    assert forall|k: int| 0 <= k < frames.len() implies (
                    #[trigger] self.recs()[frames[k] as int]).height == self.recs()[frames[0] as int].height
                        && self.recs()[frames[k] as int].width
                        == self.recs()[frames[0] as int].width by {
                        assert(self.records@[frames[k] as int].height == d.ydim);
                        assert(self.records@[frames[0] as int].height == d.ydim);
                    }
                },
                None => {},
            }
        }
    }

    /// Returns, for the requested frames, the per-pixel arrival-time sums
    /// paired with the intensity images, optionally registered. The
    /// empirical lifetime of a pixel is the quotient of its arrival-time
    /// sum by its photon count; the division is the caller's, since a
    /// pixel without photons has no mean.
    ///
    /// Fails as `get_frames_intensity` does, and additionally on any frame
    /// without photon data (a plain tiff) or with a malformed photon
    /// stream.
    pub fn get_frames_flim(
        &self,
        frames: &Vec<u64>,
        registration: Option<&RegistrationDict>,
    ) -> (r: Result<(Vec<FrameU64>, Vec<Frame>), CorrosiffError>)
        requires
            self.wf(),
        ensures
            r is Ok <==> self.frames_in_bounds(frames@) && (frames@.len() > 0 ==> self.dims_ok(
                frames@,
            )) && registration_ok(registration, frames@) && self.all_flim_decodable(frames@),
            !self.frames_in_bounds(frames@) ==> (r matches Err(
                CorrosiffError::FramesError(
                    FramesError::DimensionsError(DimensionsError::IncorrectFrames),
                )
            )),
            self.frames_in_bounds(frames@) && (frames@.len() > 0 ==> self.dims_ok(frames@))
                && !registration_ok(registration, frames@) ==> (r matches Err(
                CorrosiffError::FramesError(FramesError::RegistrationFramesMissing)
            )),
            r is Ok ==> r->Ok_0.0@.len() == frames@.len() && r->Ok_0.1@.len() == frames@.len(),
            r is Ok ==> forall|k: int|
                0 <= k < frames@.len() ==> {
                    let rec = self.recs()[frames@[k] as int];
                    &&& (#[trigger] r->Ok_0.0@[k]).wf()
                    &&& r->Ok_0.0@[k].height == rec.height
                    &&& r->Ok_0.0@[k].width == rec.width
                    &&& r->Ok_0.0@[k].pixels@ == frame_tau_spec(
                        self.dataq(),
                        rec,
                        shift_spec(registration, frames@[k]).0 as int,
                        shift_spec(registration, frames@[k]).1 as int,
                    )
                },
            r is Ok ==> forall|k: int|
                0 <= k < frames@.len() ==> {
                    let rec = self.recs()[frames@[k] as int];
                    &&& (#[trigger] r->Ok_0.1@[k]).wf()
                    &&& r->Ok_0.1@[k].height == rec.height
                    &&& r->Ok_0.1@[k].width == rec.width
                    &&& r->Ok_0.1@[k].pixels@ == frame_intensity_spec(
                        self.dataq(),
                        rec,
                        zero16(rec.pixel_count()),
                        shift_spec(registration, frames@[k]).0 as int,
                        shift_spec(registration, frames@[k]).1 as int,
                    )
                },
    {
        if !self.check_frames_in_bounds(frames) {
            return Err(CorrosiffError::FramesError(FramesError::DimensionsError(
                DimensionsError::IncorrectFrames,
            )));
        }
        let n: usize = frames.len();
        if n > 0 && !self.check_dims_ok(frames) {
            return Err(CorrosiffError::FramesError(FramesError::DimensionsError(
                DimensionsError::NoConsistentDimensions,
            )));
        }
        if !self.check_registration(registration, frames) {
            return Err(CorrosiffError::FramesError(FramesError::RegistrationFramesMissing));
        }
        let mut lifetimes: Vec<FrameU64> = Vec::new();
        let mut intensities: Vec<Frame> = Vec::new();
        let nrec: usize = self.records.len();
        let mut k: usize = 0;
        while k < n
            invariant
                k <= n,
                n == frames@.len(),
                nrec == self.recs().len(),
                self.wf(),
                self.frames_in_bounds(frames@),
                n > 0 ==> self.dims_ok(frames@),
                registration_ok(registration, frames@),
                lifetimes@.len() == k,
                intensities@.len() == k,
                forall|j: int|
                    0 <= j < k ==> flim_decodable(
                        self.dataq(),
                        #[trigger] self.recs()[frames@[j] as int],
                    ),
                forall|j: int|
                    0 <= j < k ==> {
                        let rec = self.recs()[frames@[j] as int];
                        &&& (#[trigger] lifetimes@[j]).wf()
                        &&& lifetimes@[j].height == rec.height
                        &&& lifetimes@[j].width == rec.width
                        &&& lifetimes@[j].pixels@ == frame_tau_spec(
                            self.dataq(),
                            rec,
                            shift_spec(registration, frames@[j]).0 as int,
                            shift_spec(registration, frames@[j]).1 as int,
                        )
                    },
                forall|j: int|
                    0 <= j < k ==> {
                        let rec = self.recs()[frames@[j] as int];
                        &&& (#[trigger] intensities@[j]).wf()
                        &&& intensities@[j].height == rec.height
                        &&& intensities@[j].width == rec.width
                        &&& intensities@[j].pixels@ == frame_intensity_spec(
                            self.dataq(),
                            rec,
                            zero16(rec.pixel_count()),
                            shift_spec(registration, frames@[j]).0 as int,
                            shift_spec(registration, frames@[j]).1 as int,
                        )
                    },
            decreases n - k,
        {
            let f: u64 = frames[k];
            let rec: FrameRecord = self.records[f as usize];
            let mut lifetime = FrameU64::zeros(rec.height, rec.width);
            let mut intensity = Frame::zeros(rec.height, rec.width);
            let shift = Self::shift_for(registration, f);
            let mut pos: usize = 0;
            proof {
                assert(intensity.pixels@ =~= zero16(rec.pixel_count()));
            }
            match load_flim_empirical_and_intensity_arrays_registered(
                &self.data,
                &mut pos,
                &rec,
                &mut lifetime,
                &mut intensity,
                shift,
            ) {
                Ok(()) => {},
                Err(e) => {
                    return Err(CorrosiffError::FramesError(e));
                },
            }
            lifetimes.push(lifetime);
            intensities.push(intensity);
            k = k + 1;
        }
        Ok((lifetimes, intensities))
    }

    /// Returns, per requested frame, the arrival-time histogram over all
    /// of the frame's photons: one row of `tau_bins` 64-bit counters per
    /// frame, summed over nothing but that frame.
    ///
    /// Fails when a requested frame is out of bounds, when the file does
    /// not declare its arrival-time bin count (or declares an absurd one),
    /// and on any frame without photon data.
    pub fn get_histogram(&self, frames: &Vec<u64>) -> (r: Result<Vec<Vec<u64>>, CorrosiffError>)
        requires
            self.wf(),
        ensures
            r is Ok <==> self.frames_in_bounds(frames@) && (self.spec_tau_bins() matches Some(tb)
                && tb <= 0x100_0000) && self.all_hist_decodable(frames@),
            !self.frames_in_bounds(frames@) ==> (r matches Err(
                CorrosiffError::FramesError(
                    FramesError::DimensionsError(DimensionsError::IncorrectFrames),
                )
            )),
            self.frames_in_bounds(frames@) && !(self.spec_tau_bins() matches Some(tb) && tb
                <= 0x100_0000) ==> (r matches Err(
                CorrosiffError::FramesError(FramesError::FormatError)
            )),
            r is Ok ==> r->Ok_0@.len() == frames@.len(),
            r is Ok ==> forall|k: int|
                0 <= k < frames@.len() ==> (#[trigger] r->Ok_0@[k])@.len()
                    == self.spec_tau_bins()->Some_0,
            r is Ok ==> forall|k: int, b: int|
                0 <= k < frames@.len() && 0 <= b < self.spec_tau_bins()->Some_0
                    ==> #[trigger] r->Ok_0@[k]@[b] == frame_hist_spec(
                    self.dataq(),
                    self.recs()[frames@[k] as int],
                    b,
                ),
    {
        if !self.check_frames_in_bounds(frames) {
            return Err(CorrosiffError::FramesError(FramesError::DimensionsError(
                DimensionsError::IncorrectFrames,
            )));
        }
        let tb: u64 = match self.tau_bins {
            Some(tb) => tb,
            None => {
                return Err(CorrosiffError::FramesError(FramesError::FormatError));
            },
        };
        if tb > 0x100_0000 {
            return Err(CorrosiffError::FramesError(FramesError::FormatError));
        }
        let tbu: usize = tb as usize;
        let n: usize = frames.len();
        let nrec: usize = self.records.len();
        let mut out: Vec<Vec<u64>> = Vec::new();
        let mut k: usize = 0;
        while k < n
            invariant
                k <= n,
                n == frames@.len(),
                nrec == self.recs().len(),
                self.wf(),
                self.frames_in_bounds(frames@),
                tbu == tb,
                tb <= 0x100_0000,
                self.spec_tau_bins() == Some(tb),
                out@.len() == k,
                forall|j: int|
                    0 <= j < k ==> hist_decodable(
                        self.dataq(),
                        #[trigger] self.recs()[frames@[j] as int],
                    ),
                forall|j: int| 0 <= j < k ==> (#[trigger] out@[j])@.len() == tb,
                forall|j: int, b: int|
                    0 <= j < k && 0 <= b < tb ==> #[trigger] out@[j]@[b] == frame_hist_spec(
                        self.dataq(),
                        self.recs()[frames@[j] as int],
                        b,
                    ),
            decreases n - k,
        {
            let f: u64 = frames[k];
            let rec: FrameRecord = self.records[f as usize];
            let mut hist: Vec<u64> = Vec::new();
            let mut b: usize = 0;
            while b < tbu
                invariant
                    b <= tbu,
                    hist@.len() == b,
                    forall|t: int| 0 <= t < b ==> #[trigger] hist@[t] == 0,
                decreases tbu - b,
            {
                hist.push(0);
                b = b + 1;
            }
            let mut pos: usize = 0;
            match load_histogram(&self.data, &mut pos, &rec, &mut hist) {
                Ok(()) => {},
                Err(e) => {
                    return Err(CorrosiffError::FramesError(e));
                },
            }
            out.push(hist);
            k = k + 1;
        }
        Ok(out)
    }

    /// Sums the photon counts of each requested frame inside the region of
    /// interest `mask`, optionally registered: entry `k` of the result is
    /// the masked intensity sum of frame `frames[k]`.
    ///
    /// Fails as `get_frames_intensity` does, and additionally when the
    /// mask's shape differs from the frames'.
    pub fn sum_roi_flat(
        &self,
        mask: &Mask,
        frames: &Vec<u64>,
        registration: Option<&RegistrationDict>,
    ) -> (r: Result<Vec<u64>, CorrosiffError>)
        requires
            self.wf(),
            mask.wf(),
        ensures
            r is Ok <==> self.frames_in_bounds(frames@) && (frames@.len() > 0 ==> self.dims_ok(
                frames@,
            ) && self.mask_fits(frames@, mask.height as int, mask.width as int))
                && registration_ok(registration, frames@) && self.all_mask_sum_decodable(frames@),
            !self.frames_in_bounds(frames@) ==> (r matches Err(
                CorrosiffError::FramesError(
                    FramesError::DimensionsError(DimensionsError::IncorrectFrames),
                )
            )),
            self.frames_in_bounds(frames@) && frames@.len() > 0 && self.dims_ok(frames@)
                && !self.mask_fits(frames@, mask.height as int, mask.width as int) ==> (r matches Err(
                CorrosiffError::FramesError(
                    FramesError::DimensionsError(
                        DimensionsError::MismatchedDimensions { required: dreq, requested: dgot },
                    ),
                )
            ) && dreq == Dimensions {
                xdim: self.recs()[frames@[0] as int].width as u64,
                ydim: self.recs()[frames@[0] as int].height as u64,
            } && dgot == Dimensions { xdim: mask.width as u64, ydim: mask.height as u64 }),
            r is Ok ==> r->Ok_0@.len() == frames@.len(),
            r is Ok ==> forall|k: int|
                0 <= k < frames@.len() ==> #[trigger] r->Ok_0@[k] == frame_mask_sum_spec(
                    self.dataq(),
                    self.recs()[frames@[k] as int],
                    mask.pixels@,
                    shift_spec(registration, frames@[k]).0 as int,
                    shift_spec(registration, frames@[k]).1 as int,
                ),
    {
        if !self.check_frames_in_bounds(frames) {
            return Err(CorrosiffError::FramesError(FramesError::DimensionsError(
                DimensionsError::IncorrectFrames,
            )));
        }
        let n: usize = frames.len();
        let nrec: usize = self.records.len();
        if n > 0 {
            if !self.check_dims_ok(frames) {
                return Err(CorrosiffError::FramesError(FramesError::DimensionsError(
                    DimensionsError::NoConsistentDimensions,
                )));
            }
            let first: FrameRecord = self.records[frames[0] as usize];
            if !(mask.height == first.height && mask.width == first.width) {
                return Err(CorrosiffError::FramesError(FramesError::DimensionsError(
                    DimensionsError::MismatchedDimensions {
                        required: Dimensions {
                            xdim: first.width as u64,
                            ydim: first.height as u64,
                        },
                        requested: Dimensions {
                            xdim: mask.width as u64,
                            ydim: mask.height as u64,
                        },
                    },
                )));
            }
        }
        if !self.check_registration(registration, frames) {
            return Err(CorrosiffError::FramesError(FramesError::RegistrationFramesMissing));
        }
        proof {
            self.lemma_request_shape(frames@);
        }
        let mut out: Vec<u64> = Vec::new();
        let mut k: usize = 0;
        while k < n
            invariant
                k <= n,
                n == frames@.len(),
                nrec == self.recs().len(),
                self.wf(),
                mask.wf(),
                self.frames_in_bounds(frames@),
                n > 0 ==> self.dims_ok(frames@) && self.mask_fits(
                    frames@,
                    mask.height as int,
                    mask.width as int,
                ),
                registration_ok(registration, frames@),
                forall|j: int|
                    0 <= j < n ==> (#[trigger] self.recs()[frames@[j] as int]).height
                        == mask.height && self.recs()[frames@[j] as int].width == mask.width,
                out@.len() == k,
                forall|j: int|
                    0 <= j < k ==> mask_sum_decodable(
                        self.dataq(),
                        #[trigger] self.recs()[frames@[j] as int],
                    ),
                forall|j: int|
                    0 <= j < k ==> #[trigger] out@[j] == frame_mask_sum_spec(
                        self.dataq(),
                        self.recs()[frames@[j] as int],
                        mask.pixels@,
                        shift_spec(registration, frames@[j]).0 as int,
                        shift_spec(registration, frames@[j]).1 as int,
                    ),
            decreases n - k,
        {
            let f: u64 = frames[k];
            let rec: FrameRecord = self.records[f as usize];
            let shift = Self::shift_for(registration, f);
            let mut frame_sum: u64 = 0;
            let mut pos: usize = 0;
            match sum_intensity_mask_registered(
                &self.data,
                &mut pos,
                &rec,
                &mut frame_sum,
                mask,
                shift,
            ) {
                Ok(()) => {},
                Err(e) => {
                    return Err(CorrosiffError::FramesError(e));
                },
            }
            out.push(frame_sum);
            k = k + 1;
        }
        Ok(out)
    }

    /// A mask stack is a non-empty run of well-formed masks of one shape.
    pub open spec fn stack_wf(masks: Seq<Mask>) -> bool {
        &&& masks.len() > 0
        &&& forall|m: int| 0 <= m < masks.len() ==> (#[trigger] masks[m]).wf()
        &&& forall|m: int|
            0 <= m < masks.len() ==> (#[trigger] masks[m]).height == masks[0].height
                && masks[m].width == masks[0].width
    }

    /// Sums the photon counts of each requested frame under a volumetric
    /// region of interest: request position `k` uses mask plane
    /// `k mod planes`, cycling the stack across the request.
    pub fn sum_roi_volume(
        &self,
        masks: &Vec<Mask>,
        frames: &Vec<u64>,
        registration: Option<&RegistrationDict>,
    ) -> (r: Result<Vec<u64>, CorrosiffError>)
        requires
            self.wf(),
            Self::stack_wf(masks@),
        ensures
            r is Ok <==> self.frames_in_bounds(frames@) && (frames@.len() > 0 ==> self.dims_ok(
                frames@,
            ) && self.mask_fits(frames@, masks@[0].height as int, masks@[0].width as int))
                && registration_ok(registration, frames@) && self.all_mask_sum_decodable(frames@),
            !self.frames_in_bounds(frames@) ==> (r matches Err(
                CorrosiffError::FramesError(
                    FramesError::DimensionsError(DimensionsError::IncorrectFrames),
                )
            )),
            self.frames_in_bounds(frames@) && frames@.len() > 0 && self.dims_ok(frames@)
                && !self.mask_fits(frames@, masks@[0].height as int, masks@[0].width as int) ==> (r matches Err(
                CorrosiffError::FramesError(
                    FramesError::DimensionsError(
                        DimensionsError::MismatchedDimensions { required: dreq, requested: dgot },
                    ),
                )
            ) && dreq == Dimensions {
                xdim: self.recs()[frames@[0] as int].width as u64,
                ydim: self.recs()[frames@[0] as int].height as u64,
            } && dgot == Dimensions { xdim: masks@[0].width as u64, ydim: masks@[0].height as u64 }),
            r is Ok ==> r->Ok_0@.len() == frames@.len(),
            r is Ok ==> forall|k: int|
                0 <= k < frames@.len() ==> #[trigger] r->Ok_0@[k] == frame_mask_sum_spec(
                    self.dataq(),
                    self.recs()[frames@[k] as int],
                    masks@[k % masks@.len() as int].pixels@,
                    shift_spec(registration, frames@[k]).0 as int,
                    shift_spec(registration, frames@[k]).1 as int,
                ),
    {
        if !self.check_frames_in_bounds(frames) {
            return Err(CorrosiffError::FramesError(FramesError::DimensionsError(
                DimensionsError::IncorrectFrames,
            )));
        }
        let n: usize = frames.len();
        let nrec: usize = self.records.len();
        let planes: usize = masks.len();
        if n > 0 {
            if !self.check_dims_ok(frames) {
                return Err(CorrosiffError::FramesError(FramesError::DimensionsError(
                    DimensionsError::NoConsistentDimensions,
                )));
            }
            let first: FrameRecord = self.records[frames[0] as usize];
            if !(masks[0].height == first.height && masks[0].width == first.width) {
                return Err(CorrosiffError::FramesError(FramesError::DimensionsError(
                    DimensionsError::MismatchedDimensions {
                        required: Dimensions {
                            xdim: first.width as u64,
                            ydim: first.height as u64,
                        },
                        requested: Dimensions {
                            xdim: masks[0].width as u64,
                            ydim: masks[0].height as u64,
                        },
                    },
                )));
            }
        }
        if !self.check_registration(registration, frames) {
            return Err(CorrosiffError::FramesError(FramesError::RegistrationFramesMissing));
        }
        proof {
            self.lemma_request_shape(frames@);
        }
        let mut out: Vec<u64> = Vec::new();
        let mut k: usize = 0;
        while k < n
            invariant
                k <= n,
                n == frames@.len(),
                nrec == self.recs().len(),
                planes == masks@.len(),
                self.wf(),
                Self::stack_wf(masks@),
                self.frames_in_bounds(frames@),
                n > 0 ==> self.dims_ok(frames@) && self.mask_fits(
                    frames@,
                    masks@[0].height as int,
                    masks@[0].width as int,
                ),
                registration_ok(registration, frames@),
                forall|j: int|
                    0 <= j < n ==> (#[trigger] self.recs()[frames@[j] as int]).height
                        == masks@[0].height && self.recs()[frames@[j] as int].width
                        == masks@[0].width,
                out@.len() == k,
                forall|j: int|
                    0 <= j < k ==> mask_sum_decodable(
                        self.dataq(),
                        #[trigger] self.recs()[frames@[j] as int],
                    ),
                forall|j: int|
                    0 <= j < k ==> #[trigger] out@[j] == frame_mask_sum_spec(
                        self.dataq(),
                        self.recs()[frames@[j] as int],
                        masks@[j % masks@.len() as int].pixels@,
                        shift_spec(registration, frames@[j]).0 as int,
                        shift_spec(registration, frames@[j]).1 as int,
                    ),
            decreases n - k,
        {
            let f: u64 = frames[k];
            let rec: FrameRecord = self.records[f as usize];
            let shift = Self::shift_for(registration, f);
            let plane: usize = k % planes;
            let mut frame_sum: u64 = 0;
            let mut pos: usize = 0;
            match sum_intensity_mask_registered(
                &self.data,
                &mut pos,
                &rec,
                &mut frame_sum,
                &masks[plane],
                shift,
            ) {
                Ok(()) => {},
                Err(e) => {
                    return Err(CorrosiffError::FramesError(e));
                },
            }
            out.push(frame_sum);
            k = k + 1;
        }
        Ok(out)
    }

    /// Sums the photon counts of each requested frame under each of
    /// several regions of interest at once: row `k` of the result holds,
    /// for frame `frames[k]`, one masked sum per mask of the stack.
    pub fn sum_rois_flat(
        &self,
        masks: &Vec<Mask>,
        frames: &Vec<u64>,
        registration: Option<&RegistrationDict>,
    ) -> (r: Result<Vec<Vec<u64>>, CorrosiffError>)
        requires
            self.wf(),
            Self::stack_wf(masks@),
        ensures
            r is Ok <==> self.frames_in_bounds(frames@) && (frames@.len() > 0 ==> self.dims_ok(
                frames@,
            ) && self.mask_fits(frames@, masks@[0].height as int, masks@[0].width as int))
                && registration_ok(registration, frames@) && self.all_mask_sum_decodable(frames@),
            !self.frames_in_bounds(frames@) ==> (r matches Err(
                CorrosiffError::FramesError(
                    FramesError::DimensionsError(DimensionsError::IncorrectFrames),
                )
            )),
            self.frames_in_bounds(frames@) && frames@.len() > 0 && self.dims_ok(frames@)
                && !self.mask_fits(frames@, masks@[0].height as int, masks@[0].width as int) ==> (r matches Err(
                CorrosiffError::FramesError(
                    FramesError::DimensionsError(
                        DimensionsError::MismatchedDimensions { required: dreq, requested: dgot },
                    ),
                )
            ) && dreq == Dimensions {
                xdim: self.recs()[frames@[0] as int].width as u64,
                ydim: self.recs()[frames@[0] as int].height as u64,
            } && dgot == Dimensions { xdim: masks@[0].width as u64, ydim: masks@[0].height as u64 }),
            r is Ok ==> r->Ok_0@.len() == frames@.len(),
            r is Ok ==> forall|k: int|
                0 <= k < frames@.len() ==> (#[trigger] r->Ok_0@[k])@.len() == masks@.len(),
            r is Ok ==> forall|k: int, m: int|
                0 <= k < frames@.len() && 0 <= m < masks@.len() ==> #[trigger] r->Ok_0@[k]@[m]
                    == frame_mask_sum_spec(
                    self.dataq(),
                    self.recs()[frames@[k] as int],
                    masks@[m].pixels@,
                    shift_spec(registration, frames@[k]).0 as int,
                    shift_spec(registration, frames@[k]).1 as int,
                ),
    {
        if !self.check_frames_in_bounds(frames) {
            return Err(CorrosiffError::FramesError(FramesError::DimensionsError(
                DimensionsError::IncorrectFrames,
            )));
        }
        let n: usize = frames.len();
        let nrec: usize = self.records.len();
        let nmasks: usize = masks.len();
        if n > 0 {
            if !self.check_dims_ok(frames) {
                return Err(CorrosiffError::FramesError(FramesError::DimensionsError(
                    DimensionsError::NoConsistentDimensions,
                )));
            }
            let first: FrameRecord = self.records[frames[0] as usize];
            if !(masks[0].height == first.height && masks[0].width == first.width) {
                return Err(CorrosiffError::FramesError(FramesError::DimensionsError(
                    DimensionsError::MismatchedDimensions {
                        required: Dimensions {
                            xdim: first.width as u64,
                            ydim: first.height as u64,
                        },
                        requested: Dimensions {
                            xdim: masks[0].width as u64,
                            ydim: masks[0].height as u64,
                        },
                    },
                )));
            }
        }
        if !self.check_registration(registration, frames) {
            return Err(CorrosiffError::FramesError(FramesError::RegistrationFramesMissing));
        }
        proof {
            self.lemma_request_shape(frames@);
        }
        let mut out: Vec<Vec<u64>> = Vec::new();
        let mut k: usize = 0;
        while k < n
            invariant
                k <= n,
                n == frames@.len(),
                nrec == self.recs().len(),
                nmasks == masks@.len(),
                self.wf(),
                Self::stack_wf(masks@),
                self.frames_in_bounds(frames@),
                n > 0 ==> self.dims_ok(frames@) && self.mask_fits(
                    frames@,
                    masks@[0].height as int,
                    masks@[0].width as int,
                ),
                registration_ok(registration, frames@),
                forall|j: int|
                    0 <= j < n ==> (#[trigger] self.recs()[frames@[j] as int]).height
                        == masks@[0].height && self.recs()[frames@[j] as int].width
                        == masks@[0].width,
                out@.len() == k,
                forall|j: int|
                    0 <= j < k ==> mask_sum_decodable(
                        self.dataq(),
                        #[trigger] self.recs()[frames@[j] as int],
                    ),
                forall|j: int| 0 <= j < k ==> (#[trigger] out@[j])@.len() == nmasks,
                forall|j: int, m: int|
                    0 <= j < k && 0 <= m < nmasks ==> #[trigger] out@[j]@[m]
                        == frame_mask_sum_spec(
                        self.dataq(),
                        self.recs()[frames@[j] as int],
                        masks@[m].pixels@,
                        shift_spec(registration, frames@[j]).0 as int,
                        shift_spec(registration, frames@[j]).1 as int,
                    ),
            decreases n - k,
        {
            let f: u64 = frames[k];
            let rec: FrameRecord = self.records[f as usize];
            let shift = Self::shift_for(registration, f);
            let mut row: Vec<u64> = Vec::new();
            let mut m: usize = 0;
            while m < nmasks
                invariant
                    m <= nmasks,
                    nmasks == masks@.len(),
                    self.wf(),
                    Self::stack_wf(masks@),
                    rec.wf(),
                    rec == self.recs()[frames@[k as int] as int],
                    0 <= k < n,
                    n == frames@.len(),
                    self.frames_in_bounds(frames@),
                    shift == shift_spec(registration, frames@[k as int]),
                    rec.height == masks@[0].height,
                    rec.width == masks@[0].width,
                    row@.len() == m,
                    m > 0 ==> mask_sum_decodable(self.dataq(), rec),
                    forall|t: int|
                        0 <= t < m ==> #[trigger] row@[t] == frame_mask_sum_spec(
                            self.dataq(),
                            rec,
                            masks@[t].pixels@,
                            shift.0 as int,
                            shift.1 as int,
                        ),
                decreases nmasks - m,
            {
                let mut frame_sum: u64 = 0;
                let mut pos: usize = 0;
                match sum_intensity_mask_registered(
                    &self.data,
                    &mut pos,
                    &rec,
                    &mut frame_sum,
                    &masks[m],
                    shift,
                ) {
                    Ok(()) => {},
                    Err(e) => {
                        return Err(CorrosiffError::FramesError(e));
                    },
                }
                row.push(frame_sum);
                m = m + 1;
            }
            proof {
                if nmasks == 0 {
                }
            }
            out.push(row);
            k = k + 1;
        }
        Ok(out)
    }

    /// Sums, for each requested frame, the photon arrival times and the
    /// photon counts inside the region of interest `mask`: entry `k` of
    /// the result pairs the arrival-time sum with the intensity sum of
    /// frame `frames[k]`. The empirical lifetime over the region is their
    /// quotient, left to the caller.
    pub fn sum_roi_flim_flat(
        &self,
        mask: &Mask,
        frames: &Vec<u64>,
        registration: Option<&RegistrationDict>,
    ) -> (r: Result<(Vec<u64>, Vec<u64>), CorrosiffError>)
        requires
            self.wf(),
            mask.wf(),
        ensures
            r is Ok <==> self.frames_in_bounds(frames@) && (frames@.len() > 0 ==> self.dims_ok(
                frames@,
            ) && self.mask_fits(frames@, mask.height as int, mask.width as int))
                && registration_ok(registration, frames@) && self.all_flim_mask_decodable(frames@),
            !self.frames_in_bounds(frames@) ==> (r matches Err(
                CorrosiffError::FramesError(
                    FramesError::DimensionsError(DimensionsError::IncorrectFrames),
                )
            )),
            self.frames_in_bounds(frames@) && frames@.len() > 0 && self.dims_ok(frames@)
                && !self.mask_fits(frames@, mask.height as int, mask.width as int) ==> (r matches Err(
                CorrosiffError::FramesError(
                    FramesError::DimensionsError(
                        DimensionsError::MismatchedDimensions { required: dreq, requested: dgot },
                    ),
                )
            ) && dreq == Dimensions {
                xdim: self.recs()[frames@[0] as int].width as u64,
                ydim: self.recs()[frames@[0] as int].height as u64,
            } && dgot == Dimensions { xdim: mask.width as u64, ydim: mask.height as u64 }),
            r is Ok ==> r->Ok_0.0@.len() == frames@.len() && r->Ok_0.1@.len() == frames@.len(),
            r is Ok ==> forall|k: int|
                0 <= k < frames@.len() ==> #[trigger] r->Ok_0.0@[k] == frame_mask_tau_spec(
                    self.dataq(),
                    self.recs()[frames@[k] as int],
                    mask.pixels@,
                    shift_spec(registration, frames@[k]).0 as int,
                    shift_spec(registration, frames@[k]).1 as int,
                ),
            r is Ok ==> forall|k: int|
                0 <= k < frames@.len() ==> #[trigger] r->Ok_0.1@[k] == frame_mask_sum_spec(
                    self.dataq(),
                    self.recs()[frames@[k] as int],
                    mask.pixels@,
                    shift_spec(registration, frames@[k]).0 as int,
                    shift_spec(registration, frames@[k]).1 as int,
                ),
    {
        if !self.check_frames_in_bounds(frames) {
            return Err(CorrosiffError::FramesError(FramesError::DimensionsError(
                DimensionsError::IncorrectFrames,
            )));
        }
        let n: usize = frames.len();
        let nrec: usize = self.records.len();
        if n > 0 {
            if !self.check_dims_ok(frames) {
                return Err(CorrosiffError::FramesError(FramesError::DimensionsError(
                    DimensionsError::NoConsistentDimensions,
                )));
            }
            let first: FrameRecord = self.records[frames[0] as usize];
            if !(mask.height == first.height && mask.width == first.width) {
                return Err(CorrosiffError::FramesError(FramesError::DimensionsError(
                    DimensionsError::MismatchedDimensions {
                        required: Dimensions {
                            xdim: first.width as u64,
                            ydim: first.height as u64,
                        },
                        requested: Dimensions {
                            xdim: mask.width as u64,
                            ydim: mask.height as u64,
                        },
                    },
                )));
            }
        }
        if !self.check_registration(registration, frames) {
            return Err(CorrosiffError::FramesError(FramesError::RegistrationFramesMissing));
        }
        proof {
            self.lemma_request_shape(frames@);
        }
        let mut taus: Vec<u64> = Vec::new();
        let mut sums: Vec<u64> = Vec::new();
        let mut k: usize = 0;
        while k < n
            invariant
                k <= n,
                n == frames@.len(),
                nrec == self.recs().len(),
                self.wf(),
                mask.wf(),
                self.frames_in_bounds(frames@),
                n > 0 ==> self.dims_ok(frames@) && self.mask_fits(
                    frames@,
                    mask.height as int,
                    mask.width as int,
                ),
                registration_ok(registration, frames@),
                forall|j: int|
                    0 <= j < n ==> (#[trigger] self.recs()[frames@[j] as int]).height
                        == mask.height && self.recs()[frames@[j] as int].width == mask.width,
                taus@.len() == k,
                sums@.len() == k,
                forall|j: int|
                    0 <= j < k ==> flim_mask_decodable(
                        self.dataq(),
                        #[trigger] self.recs()[frames@[j] as int],
                    ),
                forall|j: int|
                    0 <= j < k ==> #[trigger] taus@[j] == frame_mask_tau_spec(
                        self.dataq(),
                        self.recs()[frames@[j] as int],
                        mask.pixels@,
                        shift_spec(registration, frames@[j]).0 as int,
                        shift_spec(registration, frames@[j]).1 as int,
                    ),
                forall|j: int|
                    0 <= j < k ==> #[trigger] sums@[j] == frame_mask_sum_spec(
                        self.dataq(),
                        self.recs()[frames@[j] as int],
                        mask.pixels@,
                        shift_spec(registration, frames@[j]).0 as int,
                        shift_spec(registration, frames@[j]).1 as int,
                    ),
            decreases n - k,
        {
            let f: u64 = frames[k];
            let rec: FrameRecord = self.records[f as usize];
            let shift = Self::shift_for(registration, f);
            let mut lifetime_sum: u64 = 0;
            let mut intensity_sum: u64 = 0;
            let mut pos: usize = 0;
            match sum_flim_mask_registered(
                &self.data,
                &mut pos,
                &rec,
                &mut lifetime_sum,
                &mut intensity_sum,
                mask,
                shift,
            ) {
                Ok(()) => {},
                Err(e) => {
                    return Err(CorrosiffError::FramesError(e));
                },
            }
            taus.push(lifetime_sum);
            sums.push(intensity_sum);
            k = k + 1;
        }
        Ok((taus, sums))
    }

    /// Sums, for each requested frame and each mask of the stack, the
    /// photon arrival times and photon counts inside the mask: rows are
    /// frames, columns are regions of interest.
    pub fn sum_rois_flim_flat(
        &self,
        masks: &Vec<Mask>,
        frames: &Vec<u64>,
        registration: Option<&RegistrationDict>,
    ) -> (r: Result<(Vec<Vec<u64>>, Vec<Vec<u64>>), CorrosiffError>)
        requires
            self.wf(),
            Self::stack_wf(masks@),
        ensures
            r is Ok <==> self.frames_in_bounds(frames@) && (frames@.len() > 0 ==> self.dims_ok(
                frames@,
            ) && self.mask_fits(frames@, masks@[0].height as int, masks@[0].width as int))
                && registration_ok(registration, frames@) && self.all_flim_mask_decodable(frames@),
            !self.frames_in_bounds(frames@) ==> (r matches Err(
                CorrosiffError::FramesError(
                    FramesError::DimensionsError(DimensionsError::IncorrectFrames),
                )
            )),
            self.frames_in_bounds(frames@) && frames@.len() > 0 && self.dims_ok(frames@)
                && !self.mask_fits(frames@, masks@[0].height as int, masks@[0].width as int) ==> (r matches Err(
                CorrosiffError::FramesError(
                    FramesError::DimensionsError(
                        DimensionsError::MismatchedDimensions { required: dreq, requested: dgot },
                    ),
                )
            ) && dreq == Dimensions {
                xdim: self.recs()[frames@[0] as int].width as u64,
                ydim: self.recs()[frames@[0] as int].height as u64,
            } && dgot == Dimensions { xdim: masks@[0].width as u64, ydim: masks@[0].height as u64 }),
            r is Ok ==> r->Ok_0.0@.len() == frames@.len() && r->Ok_0.1@.len() == frames@.len(),
            r is Ok ==> forall|k: int|
                0 <= k < frames@.len() ==> (#[trigger] r->Ok_0.0@[k])@.len() == masks@.len(),
            r is Ok ==> forall|k: int|
                0 <= k < frames@.len() ==> (#[trigger] r->Ok_0.1@[k])@.len() == masks@.len(),
            r is Ok ==> forall|k: int, m: int|
                0 <= k < frames@.len() && 0 <= m < masks@.len() ==> #[trigger] r->Ok_0.0@[k]@[m]
                    == frame_mask_tau_spec(
                    self.dataq(),
                    self.recs()[frames@[k] as int],
                    masks@[m].pixels@,
                    shift_spec(registration, frames@[k]).0 as int,
                    shift_spec(registration, frames@[k]).1 as int,
                ),
            r is Ok ==> forall|k: int, m: int|
                0 <= k < frames@.len() && 0 <= m < masks@.len() ==> #[trigger] r->Ok_0.1@[k]@[m]
                    == frame_mask_sum_spec(
                    self.dataq(),
                    self.recs()[frames@[k] as int],
                    masks@[m].pixels@,
                    shift_spec(registration, frames@[k]).0 as int,
                    shift_spec(registration, frames@[k]).1 as int,
                ),
    {
        if !self.check_frames_in_bounds(frames) {
            return Err(CorrosiffError::FramesError(FramesError::DimensionsError(
                DimensionsError::IncorrectFrames,
            )));
        }
        let n: usize = frames.len();
        let nrec: usize = self.records.len();
        let nmasks: usize = masks.len();
        if n > 0 {
            if !self.check_dims_ok(frames) {
                return Err(CorrosiffError::FramesError(FramesError::DimensionsError(
                    DimensionsError::NoConsistentDimensions,
                )));
            }
            let first: FrameRecord = self.records[frames[0] as usize];
            if !(masks[0].height == first.height && masks[0].width == first.width) {
                return Err(CorrosiffError::FramesError(FramesError::DimensionsError(
                    DimensionsError::MismatchedDimensions {
                        required: Dimensions {
                            xdim: first.width as u64,
                            ydim: first.height as u64,
                        },
                        requested: Dimensions {
                            xdim: masks[0].width as u64,
                            ydim: masks[0].height as u64,
                        },
                    },
                )));
            }
        }
        if !self.check_registration(registration, frames) {
            return Err(CorrosiffError::FramesError(FramesError::RegistrationFramesMissing));
        }
        proof {
            self.lemma_request_shape(frames@);
        }
        let mut taus: Vec<Vec<u64>> = Vec::new();
        let mut sums: Vec<Vec<u64>> = Vec::new();
        let mut k: usize = 0;
        while k < n
            invariant
                k <= n,
                n == frames@.len(),
                nrec == self.recs().len(),
                nmasks == masks@.len(),
                self.wf(),
                Self::stack_wf(masks@),
                self.frames_in_bounds(frames@),
                n > 0 ==> self.dims_ok(frames@) && self.mask_fits(
                    frames@,
                    masks@[0].height as int,
                    masks@[0].width as int,
                ),
                registration_ok(registration, frames@),
                forall|j: int|
                    0 <= j < n ==> (#[trigger] self.recs()[frames@[j] as int]).height
                        == masks@[0].height && self.recs()[frames@[j] as int].width
                        == masks@[0].width,
                taus@.len() == k,
                sums@.len() == k,
                forall|j: int|
                    0 <= j < k ==> flim_mask_decodable(
                        self.dataq(),
                        #[trigger] self.recs()[frames@[j] as int],
                    ),
                forall|j: int| 0 <= j < k ==> (#[trigger] taus@[j])@.len() == nmasks,
                forall|j: int| 0 <= j < k ==> (#[trigger] sums@[j])@.len() == nmasks,
                forall|j: int, m: int|
                    0 <= j < k && 0 <= m < nmasks ==> #[trigger] taus@[j]@[m]
                        == frame_mask_tau_spec(
                        self.dataq(),
                        self.recs()[frames@[j] as int],
                        masks@[m].pixels@,
                        shift_spec(registration, frames@[j]).0 as int,
                        shift_spec(registration, frames@[j]).1 as int,
                    ),
                forall|j: int, m: int|
                    0 <= j < k && 0 <= m < nmasks ==> #[trigger] sums@[j]@[m]
                        == frame_mask_sum_spec(
                        self.dataq(),
                        self.recs()[frames@[j] as int],
                        masks@[m].pixels@,
                        shift_spec(registration, frames@[j]).0 as int,
                        shift_spec(registration, frames@[j]).1 as int,
                    ),
            decreases n - k,
        {
            let f: u64 = frames[k];
            let rec: FrameRecord = self.records[f as usize];
            let shift = Self::shift_for(registration, f);
            let mut tau_row: Vec<u64> = Vec::new();
            let mut sum_row: Vec<u64> = Vec::new();
            let mut m: usize = 0;
            while m < nmasks
                invariant
                    m <= nmasks,
                    nmasks == masks@.len(),
                    self.wf(),
                    Self::stack_wf(masks@),
                    rec.wf(),
                    rec == self.recs()[frames@[k as int] as int],
                    0 <= k < n,
                    n == frames@.len(),
                    self.frames_in_bounds(frames@),
                    shift == shift_spec(registration, frames@[k as int]),
                    rec.height == masks@[0].height,
                    rec.width == masks@[0].width,
                    tau_row@.len() == m,
                    sum_row@.len() == m,
                    m > 0 ==> flim_mask_decodable(self.dataq(), rec),
                    forall|t: int|
                        0 <= t < m ==> #[trigger] tau_row@[t] == frame_mask_tau_spec(
                            self.dataq(),
                            rec,
                            masks@[t].pixels@,
                            shift.0 as int,
                            shift.1 as int,
                        ),
                    forall|t: int|
                        0 <= t < m ==> #[trigger] sum_row@[t] == frame_mask_sum_spec(
                            self.dataq(),
                            rec,
                            masks@[t].pixels@,
                            shift.0 as int,
                            shift.1 as int,
                        ),
                decreases nmasks - m,
            {
                let mut lifetime_sum: u64 = 0;
                let mut intensity_sum: u64 = 0;
                let mut pos: usize = 0;
                match sum_flim_mask_registered(
                    &self.data,
                    &mut pos,
                    &rec,
                    &mut lifetime_sum,
                    &mut intensity_sum,
                    &masks[m],
                    shift,
                ) {
                    Ok(()) => {},
                    Err(e) => {
                        return Err(CorrosiffError::FramesError(e));
                    },
                }
                tau_row.push(lifetime_sum);
                sum_row.push(intensity_sum);
                m = m + 1;
            }
            taus.push(tau_row);
            sums.push(sum_row);
            k = k + 1;
        }
        Ok((taus, sums))
    }

    /// The frame's timestamp trio holds at least `words` 64-bit words.
    pub open spec fn ts_present(rec: FrameRecord, words: int) -> bool {
        rec.timestamps matches Some(t) && t.1 >= words
    }

    /// The first `words` timestamp words lie inside the file.
    pub open spec fn ts_in_bounds(data: Seq<u8>, rec: FrameRecord, words: int) -> bool {
        rec.timestamps matches Some(t) && t.0 + 8 * words <= data.len()
    }

    /// The `j`-th 64-bit word of the frame's timestamp trio: word 0 is the
    /// experiment timestamp in instrument ticks, word 1 the laser-epoch
    /// nanoseconds, word 2 the system-epoch nanoseconds.
    pub open spec fn ts_word(data: Seq<u8>, rec: FrameRecord, j: int) -> u64 {
        le64(data, rec.timestamps->Some_0.0 + 8 * j)
    }

    /// Every requested frame carries (in bounds) at least `words`
    /// timestamp words.
    pub open spec fn all_ts_ok(self, frames: Seq<u64>, words: int) -> bool {
        forall|k: int|
            0 <= k < frames.len() ==> Self::ts_present(
                #[trigger] self.recs()[frames[k] as int],
                words,
            ) && Self::ts_in_bounds(self.dataq(), self.recs()[frames[k] as int], words)
    }

    /// Reads timestamp word `j` of one frame, checking presence and
    /// bounds.
    fn read_ts_word(&self, rec: &FrameRecord, j: usize) -> (r: Result<u64, FramesError>)
        requires
            j < 3,
        ensures
            r is Ok <==> Self::ts_present(*rec, j + 1) && Self::ts_in_bounds(
                self.dataq(),
                *rec,
                j + 1,
            ),
            r is Ok ==> r->Ok_0 == Self::ts_word(self.dataq(), *rec, j as int),
            !(Self::ts_present(*rec, j + 1)) ==> r == Err::<u64, FramesError>(
                FramesError::FormatError,
            ),
    {
        let dlen: usize = self.data.len();
        match rec.timestamps {
            Some(t) => {
                if t.1 < (j as u64) + 1 {
                    return Err(FramesError::FormatError);
                }
                if t.0 > dlen as u64 || ((dlen as u64) - t.0) / 8 < (j as u64) + 1 {
                    return Err(FramesError::IOError(IoFault::UnexpectedEof));
                }
                let off: usize = t.0 as usize + 8 * j;
                Ok(crate::bytes::read_u64(&self.data, off))
            },
            None => Err(FramesError::FormatError),
        }
    }

    /// Returns, per requested frame, the experiment timestamp: the
    /// frame trigger's time since the acquisition began, in instrument
    /// ticks.
    pub fn get_experiment_timestamps(&self, frames: &Vec<u64>) -> (r: Result<
        Vec<u64>,
        CorrosiffError,
    >)
        requires
            self.wf(),
        ensures
            r is Ok <==> self.frames_in_bounds(frames@) && self.all_ts_ok(frames@, 1),
            !self.frames_in_bounds(frames@) ==> (r matches Err(
                CorrosiffError::FramesError(
                    FramesError::DimensionsError(DimensionsError::IncorrectFrames),
                )
            )),
            r is Ok ==> r->Ok_0@.len() == frames@.len(),
            r is Ok ==> forall|k: int|
                0 <= k < frames@.len() ==> #[trigger] r->Ok_0@[k] == Self::ts_word(
                    self.dataq(),
                    self.recs()[frames@[k] as int],
                    0,
                ),
    {
        if !self.check_frames_in_bounds(frames) {
            return Err(CorrosiffError::FramesError(FramesError::DimensionsError(
                DimensionsError::IncorrectFrames,
            )));
        }
        let n: usize = frames.len();
        let nrec: usize = self.records.len();
        let mut out: Vec<u64> = Vec::new();
        let mut k: usize = 0;
        while k < n
            invariant
                k <= n,
                n == frames@.len(),
                nrec == self.recs().len(),
                self.wf(),
                self.frames_in_bounds(frames@),
                out@.len() == k,
                forall|j: int|
                    0 <= j < k ==> Self::ts_present(
                        #[trigger] self.recs()[frames@[j] as int],
                        1,
                    ) && Self::ts_in_bounds(self.dataq(), self.recs()[frames@[j] as int], 1),
                forall|j: int|
                    0 <= j < k ==> #[trigger] out@[j] == Self::ts_word(
                        self.dataq(),
                        self.recs()[frames@[j] as int],
                        0,
                    ),
            decreases n - k,
        {
            let rec: FrameRecord = self.records[frames[k] as usize];
            match self.read_ts_word(&rec, 0) {
                Ok(v) => {
                    out.push(v);
                },
                Err(e) => {
                    return Err(CorrosiffError::FramesError(e));
                },
            }
            k = k + 1;
        }
        Ok(out)
    }

    /// Returns, per requested frame, the epoch timestamp counted from
    /// laser sync pulses, in nanoseconds: very low jitter, but it drifts
    /// from the system clock.
    pub fn get_epoch_timestamps_laser(&self, frames: &Vec<u64>) -> (r: Result<
        Vec<u64>,
        CorrosiffError,
    >)
        requires
            self.wf(),
        ensures
            r is Ok <==> self.frames_in_bounds(frames@) && self.all_ts_ok(frames@, 2),
            r is Ok ==> r->Ok_0@.len() == frames@.len(),
            r is Ok ==> forall|k: int|
                0 <= k < frames@.len() ==> #[trigger] r->Ok_0@[k] == Self::ts_word(
                    self.dataq(),
                    self.recs()[frames@[k] as int],
                    1,
                ),
    {
        if !self.check_frames_in_bounds(frames) {
            return Err(CorrosiffError::FramesError(FramesError::DimensionsError(
                DimensionsError::IncorrectFrames,
            )));
        }
        let n: usize = frames.len();
        let nrec: usize = self.records.len();
        let mut out: Vec<u64> = Vec::new();
        let mut k: usize = 0;
        while k < n
            invariant
                k <= n,
                n == frames@.len(),
                nrec == self.recs().len(),
                self.wf(),
                self.frames_in_bounds(frames@),
                out@.len() == k,
                forall|j: int|
                    0 <= j < k ==> Self::ts_present(
                        #[trigger] self.recs()[frames@[j] as int],
                        2,
                    ) && Self::ts_in_bounds(self.dataq(), self.recs()[frames@[j] as int], 2),
                forall|j: int|
                    0 <= j < k ==> #[trigger] out@[j] == Self::ts_word(
                        self.dataq(),
                        self.recs()[frames@[j] as int],
                        1,
                    ),
            decreases n - k,
        {
            let rec: FrameRecord = self.records[frames[k] as usize];
            match self.read_ts_word(&rec, 1) {
                Ok(v) => {
                    out.push(v);
                },
                Err(e) => {
                    return Err(CorrosiffError::FramesError(e));
                },
            }
            k = k + 1;
        }
        Ok(out)
    }

    /// Returns, per requested frame, the epoch timestamp of the most
    /// recent system-clock call at the frame trigger, in nanoseconds: no
    /// drift, but the system is queried only about once a second, so many
    /// consecutive frames share a value.
    ///
    /// Fails with `NoSystemTimestamps` on a frame whose trio carries no
    /// system word.
    pub fn get_epoch_timestamps_system(&self, frames: &Vec<u64>) -> (r: Result<
        Vec<u64>,
        CorrosiffError,
    >)
        requires
            self.wf(),
        ensures
            r is Ok <==> self.frames_in_bounds(frames@) && self.all_ts_ok(frames@, 3),
            self.frames_in_bounds(frames@) && (exists|k: int|
                0 <= k < frames@.len() && !Self::ts_present(
                    #[trigger] self.recs()[frames@[k] as int],
                    3,
                )) ==> (r matches Err(CorrosiffError::NoSystemTimestamps)),
            r is Ok ==> r->Ok_0@.len() == frames@.len(),
            r is Ok ==> forall|k: int|
                0 <= k < frames@.len() ==> #[trigger] r->Ok_0@[k] == Self::ts_word(
                    self.dataq(),
                    self.recs()[frames@[k] as int],
                    2,
                ),
    {
        if !self.check_frames_in_bounds(frames) {
            return Err(CorrosiffError::FramesError(FramesError::DimensionsError(
                DimensionsError::IncorrectFrames,
            )));
        }
        let n: usize = frames.len();
        let nrec: usize = self.records.len();
        // presence first: a frame whose trio lacks the system word decides
        // the error before any byte is read
        let mut k: usize = 0;
        while k < n
            invariant
                k <= n,
                n == frames@.len(),
                nrec == self.recs().len(),
                self.wf(),
                self.frames_in_bounds(frames@),
                forall|j: int|
                    0 <= j < k ==> Self::ts_present(#[trigger] self.recs()[frames@[j] as int], 3),
            decreases n - k,
        {
            let rec: FrameRecord = self.records[frames[k] as usize];
            let present: bool = match rec.timestamps {
                Some(t) => t.1 >= 3,
                None => false,
            };
            if !present {
                return Err(CorrosiffError::NoSystemTimestamps);
            }
            k = k + 1;
        }
        let mut out: Vec<u64> = Vec::new();
        let mut k: usize = 0;
        while k < n
            invariant
                k <= n,
                n == frames@.len(),
                nrec == self.recs().len(),
                self.wf(),
                self.frames_in_bounds(frames@),
                forall|j: int|
                    0 <= j < n ==> Self::ts_present(#[trigger] self.recs()[frames@[j] as int], 3),
                out@.len() == k,
                forall|j: int|
                    0 <= j < k ==> Self::ts_in_bounds(
                        self.dataq(),
                        #[trigger] self.recs()[frames@[j] as int],
                        3,
                    ),
                forall|j: int|
                    0 <= j < k ==> #[trigger] out@[j] == Self::ts_word(
                        self.dataq(),
                        self.recs()[frames@[j] as int],
                        2,
                    ),
            decreases n - k,
        {
            let rec: FrameRecord = self.records[frames[k] as usize];
            match self.read_ts_word(&rec, 2) {
                Ok(v) => {
                    out.push(v);
                },
                Err(_) => {
                    return Err(CorrosiffError::FramesError(FramesError::IOError(
                        IoFault::UnexpectedEof,
                    )));
                },
            }
            k = k + 1;
        }
        Ok(out)
    }

    /// Returns, per requested frame, both epoch timestamps side by side:
    /// the laser-clock value first, the system-clock value second.
    /// Regressing the two lets a caller correct the laser clock's drift
    /// with the system clock's absolute time.
    pub fn get_epoch_timestamps_both(&self, frames: &Vec<u64>) -> (r: Result<
        Vec<(u64, u64)>,
        CorrosiffError,
    >)
        requires
            self.wf(),
        ensures
            r is Ok <==> self.frames_in_bounds(frames@) && self.all_ts_ok(frames@, 3),
            self.frames_in_bounds(frames@) && (exists|k: int|
                0 <= k < frames@.len() && !Self::ts_present(
                    #[trigger] self.recs()[frames@[k] as int],
                    3,
                )) ==> (r matches Err(CorrosiffError::NoSystemTimestamps)),
            r is Ok ==> r->Ok_0@.len() == frames@.len(),
            r is Ok ==> forall|k: int|
                0 <= k < frames@.len() ==> #[trigger] r->Ok_0@[k] == (
                Self::ts_word(self.dataq(), self.recs()[frames@[k] as int], 1),
                Self::ts_word(self.dataq(), self.recs()[frames@[k] as int], 2),
                ),
    {
        if !self.check_frames_in_bounds(frames) {
            return Err(CorrosiffError::FramesError(FramesError::DimensionsError(
                DimensionsError::IncorrectFrames,
            )));
        }
        let n: usize = frames.len();
        let nrec: usize = self.records.len();
        // presence first: a frame whose trio lacks the system word decides
        // the error before any byte is read
        let mut k: usize = 0;
        while k < n
            invariant
                k <= n,
                n == frames@.len(),
                nrec == self.recs().len(),
                self.wf(),
                self.frames_in_bounds(frames@),
                forall|j: int|
                    0 <= j < k ==> Self::ts_present(#[trigger] self.recs()[frames@[j] as int], 3),
            decreases n - k,
        {
            let rec: FrameRecord = self.records[frames[k] as usize];
            let present: bool = match rec.timestamps {
                Some(t) => t.1 >= 3,
                None => false,
            };
            if !present {
                return Err(CorrosiffError::NoSystemTimestamps);
            }
            k = k + 1;
        }
        let mut out: Vec<(u64, u64)> = Vec::new();
        let mut k: usize = 0;
        while k < n
            invariant
                k <= n,
                n == frames@.len(),
                nrec == self.recs().len(),
                self.wf(),
                self.frames_in_bounds(frames@),
                forall|j: int|
                    0 <= j < n ==> Self::ts_present(#[trigger] self.recs()[frames@[j] as int], 3),
                out@.len() == k,
                forall|j: int|
                    0 <= j < k ==> Self::ts_in_bounds(
                        self.dataq(),
                        #[trigger] self.recs()[frames@[j] as int],
                        3,
                    ),
                forall|j: int|
                    0 <= j < k ==> #[trigger] out@[j] == (
                    Self::ts_word(self.dataq(), self.recs()[frames@[j] as int], 1),
                    Self::ts_word(self.dataq(), self.recs()[frames@[j] as int], 2),
                    ),
            decreases n - k,
        {
            let rec: FrameRecord = self.records[frames[k] as usize];
            let laser: u64 = match self.read_ts_word(&rec, 1) {
                Ok(v) => v,
                Err(_) => {
                    return Err(CorrosiffError::FramesError(FramesError::IOError(
                        IoFault::UnexpectedEof,
                    )));
                },
            };
            let system: u64 = match self.read_ts_word(&rec, 2) {
                Ok(v) => v,
                Err(_) => {
                    return Err(CorrosiffError::FramesError(FramesError::IOError(
                        IoFault::UnexpectedEof,
                    )));
                },
            };
            out.push((laser, system));
            k = k + 1;
        }
        Ok(out)
    }

    /// The frame's metadata block, when declared, lies inside the file.
    pub open spec fn metadata_in_bounds(data: Seq<u8>, rec: FrameRecord) -> bool {
        match rec.metadata {
            Some(t) => t.0 + t.1 <= data.len(),
            None => true,
        }
    }

    /// Returns the metadata of each requested frame: the raw bytes of its
    /// appended text block and whichever of the three frame-trigger
    /// timestamps the frame carries.
    pub fn get_frame_metadata(&self, frames: &Vec<u64>) -> (r: Result<
        Vec<FrameMetadata>,
        CorrosiffError,
    >)
        requires
            self.wf(),
        ensures
            r is Ok <==> self.frames_in_bounds(frames@) && (forall|k: int|
                0 <= k < frames@.len() ==> Self::metadata_in_bounds(
                    self.dataq(),
                    #[trigger] self.recs()[frames@[k] as int],
                )),
            !self.frames_in_bounds(frames@) ==> (r matches Err(
                CorrosiffError::FramesError(
                    FramesError::DimensionsError(DimensionsError::IncorrectFrames),
                )
            )),
            r is Ok ==> r->Ok_0@.len() == frames@.len(),
            r is Ok ==> forall|k: int|
                0 <= k < frames@.len() ==> {
                    let rec = self.recs()[frames@[k] as int];
                    &&& (#[trigger] r->Ok_0@[k]).frame_index == frames@[k]
                    &&& r->Ok_0@[k].metadata_bytes@ == (match rec.metadata {
                        Some(t) => self.dataq().subrange(t.0 as int, t.0 + t.1),
                        None => Seq::<u8>::empty(),
                    })
                },
    {
        if !self.check_frames_in_bounds(frames) {
            return Err(CorrosiffError::FramesError(FramesError::DimensionsError(
                DimensionsError::IncorrectFrames,
            )));
        }
        let n: usize = frames.len();
        let nrec: usize = self.records.len();
        let dlen: usize = self.data.len();
        let mut out: Vec<FrameMetadata> = Vec::new();
        let mut k: usize = 0;
        while k < n
            invariant
                k <= n,
                n == frames@.len(),
                nrec == self.recs().len(),
                dlen == self.dataq().len(),
                self.wf(),
                self.frames_in_bounds(frames@),
                out@.len() == k,
                forall|j: int|
                    0 <= j < k ==> Self::metadata_in_bounds(
                        self.dataq(),
                        #[trigger] self.recs()[frames@[j] as int],
                    ),
                forall|j: int|
                    0 <= j < k ==> {
                        let rec = self.recs()[frames@[j] as int];
                        &&& (#[trigger] out@[j]).frame_index == frames@[j]
                        &&& out@[j].metadata_bytes@ == (match rec.metadata {
                            Some(t) => self.dataq().subrange(t.0 as int, t.0 + t.1),
                            None => Seq::<u8>::empty(),
                        })
                    },
            decreases n - k,
        {
            let f: u64 = frames[k];
            let rec: FrameRecord = self.records[f as usize];
            let mut text: Vec<u8> = Vec::new();
            match rec.metadata {
                Some(t) => {
                    if t.0 > dlen as u64 || (dlen as u64) - t.0 < t.1 {
                        return Err(CorrosiffError::FramesError(FramesError::IOError(
                            IoFault::UnexpectedEof,
                        )));
                    }
                    let off: usize = t.0 as usize;
                    let blen: usize = t.1 as usize;
                    let mut i: usize = 0;
                    while i < blen
                        invariant
                            i <= blen,
                            off + blen <= dlen,
                            dlen == self.dataq().len(),
                            text@.len() == i,
                            forall|q: int|
                                0 <= q < i ==> #[trigger] text@[q] == self.dataq()[off + q],
                        decreases blen - i,
                    {
                        text.push(self.data[off + i]);
                        i = i + 1;
                    }
                    proof {
                        assert(text@ =~= self.dataq().subrange(off as int, off + blen));
                    }
                },
                None => {},
            }
            let experiment_ticks: Option<u64> = match self.read_ts_word(&rec, 0) {
                Ok(v) => Some(v),
                Err(_) => None,
            };
            let laser_epoch_ns: Option<u64> = match self.read_ts_word(&rec, 1) {
                Ok(v) => Some(v),
                Err(_) => None,
            };
            let system_epoch_ns: Option<u64> = match self.read_ts_word(&rec, 2) {
                Ok(v) => Some(v),
                Err(_) => None,
            };
            out.push(
                FrameMetadata {
                    frame_index: f,
                    metadata_bytes: text,
                    experiment_ticks,
                    laser_epoch_ns,
                    system_epoch_ns,
                },
            );
            k = k + 1;
        }
        Ok(out)
    }

    /// Every requested frame's photon data decodes into a tau-resolved
    /// volume.
    pub open spec fn all_tau_d_decodable(self, frames: Seq<u64>) -> bool {
        forall|k: int|
            0 <= k < frames.len() ==> tau_d_decodable(
                self.dataq(),
                #[trigger] self.recs()[frames[k] as int],
            )
    }

    /// Returns, per requested frame, the tau-resolved volume: for every
    /// pixel, a histogram of the pixel's photon arrival times over the
    /// instrument's declared bin count, optionally registered.
    ///
    /// Fails as `get_frames_intensity` does, and additionally when the
    /// file does not declare its arrival-time bin count (or declares an
    /// absurd one, or one making a volume larger than the reader backs),
    /// and on any frame without photon data.
    pub fn get_frames_tau_d(
        &self,
        frames: &Vec<u64>,
        registration: Option<&RegistrationDict>,
    ) -> (r: Result<Vec<TauVolume>, CorrosiffError>)
        requires
            self.wf(),
        ensures
            r is Ok <==> self.frames_in_bounds(frames@) && (frames@.len() > 0 ==> self.dims_ok(
                frames@,
            )) && registration_ok(registration, frames@) && (self.spec_tau_bins() matches Some(tb)
                && 0 < tb <= 0x100_0000) && (forall|k: int|
                0 <= k < frames@.len() ==> (#[trigger] self.recs()[frames@[k] as int]).pixel_count()
                    * self.spec_tau_bins()->Some_0 <= 0x4000_0000)
                && self.all_tau_d_decodable(frames@),
            !self.frames_in_bounds(frames@) ==> (r matches Err(
                CorrosiffError::FramesError(
                    FramesError::DimensionsError(DimensionsError::IncorrectFrames),
                )
            )),
            self.frames_in_bounds(frames@) && (frames@.len() > 0 ==> self.dims_ok(frames@))
                && registration_ok(registration, frames@) && !(self.spec_tau_bins() matches Some(
                tb,
            ) && 0 < tb <= 0x100_0000) ==> (r matches Err(
                CorrosiffError::FramesError(FramesError::FormatError)
            )),
            r is Ok ==> r->Ok_0@.len() == frames@.len(),
            r is Ok ==> forall|k: int|
                0 <= k < frames@.len() ==> (#[trigger] r->Ok_0@[k]).wf()
                    && r->Ok_0@[k].height == self.recs()[frames@[k] as int].height
                    && r->Ok_0@[k].width == self.recs()[frames@[k] as int].width
                    && r->Ok_0@[k].hbins == self.spec_tau_bins()->Some_0,
            r is Ok ==> forall|k: int, p: int, b: int|
                0 <= k < frames@.len() && 0 <= p < self.recs()[frames@[k] as int].pixel_count()
                    && 0 <= b < self.spec_tau_bins()->Some_0 ==> (#[trigger] r->Ok_0@[k].voxels@[
                    r->Ok_0@[k].vox(p, b)
                ]) as nat == frame_tau_d_spec(
                    self.dataq(),
                    self.recs()[frames@[k] as int],
                    self.spec_tau_bins()->Some_0 as int,
                    shift_spec(registration, frames@[k]).0 as int,
                    shift_spec(registration, frames@[k]).1 as int,
                    p,
                    b,
                ),
    {
        if !self.check_frames_in_bounds(frames) {
            return Err(CorrosiffError::FramesError(FramesError::DimensionsError(
                DimensionsError::IncorrectFrames,
            )));
        }
        let n: usize = frames.len();
        let nrec: usize = self.records.len();
        if n > 0 && !self.check_dims_ok(frames) {
            return Err(CorrosiffError::FramesError(FramesError::DimensionsError(
                DimensionsError::NoConsistentDimensions,
            )));
        }
        if !self.check_registration(registration, frames) {
            return Err(CorrosiffError::FramesError(FramesError::RegistrationFramesMissing));
        }
        let tb: u64 = match self.tau_bins {
            Some(tb) => tb,
            None => {
                return Err(CorrosiffError::FramesError(FramesError::FormatError));
            },
        };
        if tb == 0 || tb > 0x100_0000 {
            return Err(CorrosiffError::FramesError(FramesError::FormatError));
        }
        let hbins: usize = tb as usize;
        let mut out: Vec<TauVolume> = Vec::new();
        let mut k: usize = 0;
        while k < n
            invariant
                k <= n,
                n == frames@.len(),
                nrec == self.recs().len(),
                self.wf(),
                self.frames_in_bounds(frames@),
                n > 0 ==> self.dims_ok(frames@),
                registration_ok(registration, frames@),
                self.spec_tau_bins() == Some(tb),
                hbins == tb,
                0 < hbins <= 0x100_0000,
                out@.len() == k,
                forall|j: int|
                    0 <= j < k ==> (#[trigger] self.recs()[frames@[j] as int]).pixel_count() * tb
                        <= 0x4000_0000,
                forall|j: int|
                    0 <= j < k ==> tau_d_decodable(
                        self.dataq(),
                        #[trigger] self.recs()[frames@[j] as int],
                    ),
                forall|j: int|
                    0 <= j < k ==> (#[trigger] out@[j]).wf()
                        && out@[j].height == self.recs()[frames@[j] as int].height
                        && out@[j].width == self.recs()[frames@[j] as int].width
                        && out@[j].hbins == tb,
                forall|j: int, p: int, b: int|
                    0 <= j < k && 0 <= p < self.recs()[frames@[j] as int].pixel_count() && 0 <= b
                        < tb ==> (#[trigger] out@[j].voxels@[out@[j].vox(p, b)]) as nat
                        == frame_tau_d_spec(
                        self.dataq(),
                        self.recs()[frames@[j] as int],
                        tb as int,
                        shift_spec(registration, frames@[j]).0 as int,
                        shift_spec(registration, frames@[j]).1 as int,
                        p,
                        b,
                    ),
            decreases n - k,
        {
            let f: u64 = frames[k];
            let rec: FrameRecord = self.records[f as usize];
            let shift = Self::shift_for(registration, f);
            let npx: usize = rec.height * rec.width;
            proof {
                vstd::arithmetic::mul::lemma_mul_strictly_positive(
                    rec.height as int,
                    rec.width as int,
                );
            }
            if 0x4000_0000 / npx < hbins {
                proof {
                    let q = 0x4000_0000 as int / (npx as int);
                    vstd::arithmetic::div_mod::lemma_fundamental_div_mod(0x4000_0000, npx as int);
                    vstd::arithmetic::div_mod::lemma_mod_division_less_than_divisor(
                        0x4000_0000,
                        npx as int,
                    );
                    let rm = 0x4000_0000 as int % (npx as int);
                    assert(npx * (q + 1) > 0x4000_0000) by (nonlinear_arith)
                        requires
                            npx * q + rm == 0x4000_0000,
                            rm < npx,
                            0 < npx,
                    ;
                    assert(npx * hbins >= npx * (q + 1)) by (nonlinear_arith)
                        requires
                            hbins >= q + 1,
                            0 < npx,
                    ;
                }
                return Err(CorrosiffError::FramesError(FramesError::IOError(
                    IoFault::StripTooLarge,
                )));
            }
            proof {
                assert(npx * hbins <= 0x4000_0000) by (nonlinear_arith)
                    requires
                        hbins <= 0x4000_0000 as int / (npx as int),
                        0 < npx,
                ;
            }
            let mut vol = TauVolume::zeros(rec.height, rec.width, hbins);
            let mut pos: usize = 0;
            match load_array_tau_d_registered(&self.data, &mut pos, &rec, &mut vol, shift) {
                Ok(()) => {},
                Err(e) => {
                    return Err(CorrosiffError::FramesError(e));
                },
            }
            out.push(vol);
            k = k + 1;
        }
        Ok(out)
    }

    /// A volumetric multi-mask set: one non-empty plane stack per region
    /// of interest, all of one shape.
    pub open spec fn roi_set_wf(rois: Seq<Vec<Mask>>) -> bool {
        &&& rois.len() > 0
        &&& forall|i: int| 0 <= i < rois.len() ==> Self::stack_wf((#[trigger] rois[i])@)
        &&& forall|i: int|
            0 <= i < rois.len() ==> (#[trigger] rois[i])@[0].height == rois[0]@[0].height
                && rois[i]@[0].width == rois[0]@[0].width
    }

    /// Sums the photon counts of each requested frame under each
    /// volumetric region of interest at once: row `k` holds, for frame
    /// `frames[k]`, one masked sum per region, each region cycling its
    /// own plane stack across the request.
    pub fn sum_rois_volume(
        &self,
        rois: &Vec<Vec<Mask>>,
        frames: &Vec<u64>,
        registration: Option<&RegistrationDict>,
    ) -> (r: Result<Vec<Vec<u64>>, CorrosiffError>)
        requires
            self.wf(),
            Self::roi_set_wf(rois@),
        ensures
            r is Ok <==> self.frames_in_bounds(frames@) && (frames@.len() > 0 ==> self.dims_ok(
                frames@,
            ) && self.mask_fits(
                frames@,
                rois@[0]@[0].height as int,
                rois@[0]@[0].width as int,
            )) && registration_ok(registration, frames@) && self.all_mask_sum_decodable(frames@),
            !self.frames_in_bounds(frames@) ==> (r matches Err(
                CorrosiffError::FramesError(
                    FramesError::DimensionsError(DimensionsError::IncorrectFrames),
                )
            )),
            self.frames_in_bounds(frames@) && frames@.len() > 0 && self.dims_ok(frames@)
                && !self.mask_fits(frames@, rois@[0]@[0].height as int, rois@[0]@[0].width as int) ==> (r matches Err(
                CorrosiffError::FramesError(
                    FramesError::DimensionsError(
                        DimensionsError::MismatchedDimensions { required: dreq, requested: dgot },
                    ),
                )
            ) && dreq == Dimensions {
                xdim: self.recs()[frames@[0] as int].width as u64,
                ydim: self.recs()[frames@[0] as int].height as u64,
            } && dgot == Dimensions { xdim: rois@[0]@[0].width as u64, ydim: rois@[0]@[0].height as u64 }),
            r is Ok ==> r->Ok_0@.len() == frames@.len(),
            r is Ok ==> forall|k: int|
                0 <= k < frames@.len() ==> (#[trigger] r->Ok_0@[k])@.len() == rois@.len(),
            r is Ok ==> forall|k: int, m: int|
                0 <= k < frames@.len() && 0 <= m < rois@.len() ==> #[trigger] r->Ok_0@[k]@[m]
                    == frame_mask_sum_spec(
                    self.dataq(),
                    self.recs()[frames@[k] as int],
                    rois@[m]@[k % rois@[m]@.len() as int].pixels@,
                    shift_spec(registration, frames@[k]).0 as int,
                    shift_spec(registration, frames@[k]).1 as int,
                ),
    {
        if !self.check_frames_in_bounds(frames) {
            return Err(CorrosiffError::FramesError(FramesError::DimensionsError(
                DimensionsError::IncorrectFrames,
            )));
        }
        let n: usize = frames.len();
        let nrec: usize = self.records.len();
        let nrois: usize = rois.len();
        if n > 0 {
            if !self.check_dims_ok(frames) {
                return Err(CorrosiffError::FramesError(FramesError::DimensionsError(
                    DimensionsError::NoConsistentDimensions,
                )));
            }
            let first: FrameRecord = self.records[frames[0] as usize];
            if !(rois[0][0].height == first.height && rois[0][0].width == first.width) {
                return Err(CorrosiffError::FramesError(FramesError::DimensionsError(
                    DimensionsError::MismatchedDimensions {
                        required: Dimensions {
                            xdim: first.width as u64,
                            ydim: first.height as u64,
                        },
                        requested: Dimensions {
                            xdim: rois[0][0].width as u64,
                            ydim: rois[0][0].height as u64,
                        },
                    },
                )));
            }
        }
        if !self.check_registration(registration, frames) {
            return Err(CorrosiffError::FramesError(FramesError::RegistrationFramesMissing));
        }
        proof {
            self.lemma_request_shape(frames@);
        }
        let mut out: Vec<Vec<u64>> = Vec::new();
        let mut k: usize = 0;
        while k < n
            invariant
                k <= n,
                n == frames@.len(),
                nrec == self.recs().len(),
                nrois == rois@.len(),
                self.wf(),
                Self::roi_set_wf(rois@),
                self.frames_in_bounds(frames@),
                n > 0 ==> self.dims_ok(frames@) && self.mask_fits(
                    frames@,
                    rois@[0]@[0].height as int,
                    rois@[0]@[0].width as int,
                ),
                registration_ok(registration, frames@),
                forall|j: int|
                    0 <= j < n ==> (#[trigger] self.recs()[frames@[j] as int]).height
                        == rois@[0]@[0].height && self.recs()[frames@[j] as int].width
                        == rois@[0]@[0].width,
                out@.len() == k,
                forall|j: int|
                    0 <= j < k ==> mask_sum_decodable(
                        self.dataq(),
                        #[trigger] self.recs()[frames@[j] as int],
                    ),
                forall|j: int| 0 <= j < k ==> (#[trigger] out@[j])@.len() == nrois,
                forall|j: int, m: int|
                    0 <= j < k && 0 <= m < nrois ==> #[trigger] out@[j]@[m]
                        == frame_mask_sum_spec(
                        self.dataq(),
                        self.recs()[frames@[j] as int],
                        rois@[m]@[j % rois@[m]@.len() as int].pixels@,
                        shift_spec(registration, frames@[j]).0 as int,
                        shift_spec(registration, frames@[j]).1 as int,
                    ),
            decreases n - k,
        {
            let f: u64 = frames[k];
            let rec: FrameRecord = self.records[f as usize];
            let shift = Self::shift_for(registration, f);
            let mut row: Vec<u64> = Vec::new();
            let mut m: usize = 0;
            while m < nrois
                invariant
                    m <= nrois,
                    nrois == rois@.len(),
                    self.wf(),
                    Self::roi_set_wf(rois@),
                    rec.wf(),
                    rec == self.recs()[frames@[k as int] as int],
                    0 <= k < n,
                    n == frames@.len(),
                    self.frames_in_bounds(frames@),
                    shift == shift_spec(registration, frames@[k as int]),
                    rec.height == rois@[0]@[0].height,
                    rec.width == rois@[0]@[0].width,
                    row@.len() == m,
                    m > 0 ==> mask_sum_decodable(self.dataq(), rec),
                    forall|t: int|
                        0 <= t < m ==> #[trigger] row@[t] == frame_mask_sum_spec(
                            self.dataq(),
                            rec,
                            rois@[t]@[k as int % rois@[t]@.len() as int].pixels@,
                            shift.0 as int,
                            shift.1 as int,
                        ),
                decreases nrois - m,
            {
                let planes: usize = rois[m].len();
                let plane: usize = k % planes;
                let mut frame_sum: u64 = 0;
                let mut pos: usize = 0;
                match sum_intensity_mask_registered(
                    &self.data,
                    &mut pos,
                    &rec,
                    &mut frame_sum,
                    &rois[m][plane],
                    shift,
                ) {
                    Ok(()) => {},
                    Err(e) => {
                        return Err(CorrosiffError::FramesError(e));
                    },
                }
                row.push(frame_sum);
                m = m + 1;
            }
            out.push(row);
            k = k + 1;
        }
        Ok(out)
    }

    /// Sums, for each requested frame and each volumetric region of
    /// interest, the photon arrival times and photon counts under the
    /// region's cycled plane: rows are frames, columns are regions.
    pub fn sum_rois_flim_volume(
        &self,
        rois: &Vec<Vec<Mask>>,
        frames: &Vec<u64>,
        registration: Option<&RegistrationDict>,
    ) -> (r: Result<(Vec<Vec<u64>>, Vec<Vec<u64>>), CorrosiffError>)
        requires
            self.wf(),
            Self::roi_set_wf(rois@),
        ensures
            r is Ok <==> self.frames_in_bounds(frames@) && (frames@.len() > 0 ==> self.dims_ok(
                frames@,
            ) && self.mask_fits(
                frames@,
                rois@[0]@[0].height as int,
                rois@[0]@[0].width as int,
            )) && registration_ok(registration, frames@) && self.all_flim_mask_decodable(frames@),
            !self.frames_in_bounds(frames@) ==> (r matches Err(
                CorrosiffError::FramesError(
                    FramesError::DimensionsError(DimensionsError::IncorrectFrames),
                )
            )),
            self.frames_in_bounds(frames@) && frames@.len() > 0 && self.dims_ok(frames@)
                && !self.mask_fits(frames@, rois@[0]@[0].height as int, rois@[0]@[0].width as int) ==> (r matches Err(
                CorrosiffError::FramesError(
                    FramesError::DimensionsError(
                        DimensionsError::MismatchedDimensions { required: dreq, requested: dgot },
                    ),
                )
            ) && dreq == Dimensions {
                xdim: self.recs()[frames@[0] as int].width as u64,
                ydim: self.recs()[frames@[0] as int].height as u64,
            } && dgot == Dimensions { xdim: rois@[0]@[0].width as u64, ydim: rois@[0]@[0].height as u64 }),
            r is Ok ==> r->Ok_0.0@.len() == frames@.len() && r->Ok_0.1@.len() == frames@.len(),
            r is Ok ==> forall|k: int|
                0 <= k < frames@.len() ==> (#[trigger] r->Ok_0.0@[k])@.len() == rois@.len(),
            r is Ok ==> forall|k: int|
                0 <= k < frames@.len() ==> (#[trigger] r->Ok_0.1@[k])@.len() == rois@.len(),
            r is Ok ==> forall|k: int, m: int|
                0 <= k < frames@.len() && 0 <= m < rois@.len() ==> #[trigger] r->Ok_0.0@[k]@[m]
                    == frame_mask_tau_spec(
                    self.dataq(),
                    self.recs()[frames@[k] as int],
                    rois@[m]@[k % rois@[m]@.len() as int].pixels@,
                    shift_spec(registration, frames@[k]).0 as int,
                    shift_spec(registration, frames@[k]).1 as int,
                ),
            r is Ok ==> forall|k: int, m: int|
                0 <= k < frames@.len() && 0 <= m < rois@.len() ==> #[trigger] r->Ok_0.1@[k]@[m]
                    == frame_mask_sum_spec(
                    self.dataq(),
                    self.recs()[frames@[k] as int],
                    rois@[m]@[k % rois@[m]@.len() as int].pixels@,
                    shift_spec(registration, frames@[k]).0 as int,
                    shift_spec(registration, frames@[k]).1 as int,
                ),
    {
        if !self.check_frames_in_bounds(frames) {
            return Err(CorrosiffError::FramesError(FramesError::DimensionsError(
                DimensionsError::IncorrectFrames,
            )));
        }
        let n: usize = frames.len();
        let nrec: usize = self.records.len();
        let nrois: usize = rois.len();
        if n > 0 {
            if !self.check_dims_ok(frames) {
                return Err(CorrosiffError::FramesError(FramesError::DimensionsError(
                    DimensionsError::NoConsistentDimensions,
                )));
            }
            let first: FrameRecord = self.records[frames[0] as usize];
            if !(rois[0][0].height == first.height && rois[0][0].width == first.width) {
                return Err(CorrosiffError::FramesError(FramesError::DimensionsError(
                    DimensionsError::MismatchedDimensions {
                        required: Dimensions {
                            xdim: first.width as u64,
                            ydim: first.height as u64,
                        },
                        requested: Dimensions {
                            xdim: rois[0][0].width as u64,
                            ydim: rois[0][0].height as u64,
                        },
                    },
                )));
            }
        }
        if !self.check_registration(registration, frames) {
            return Err(CorrosiffError::FramesError(FramesError::RegistrationFramesMissing));
        }
        proof {
            self.lemma_request_shape(frames@);
        }
        let mut taus: Vec<Vec<u64>> = Vec::new();
        let mut sums: Vec<Vec<u64>> = Vec::new();
        let mut k: usize = 0;
        while k < n
            invariant
                k <= n,
                n == frames@.len(),
                nrec == self.recs().len(),
                nrois == rois@.len(),
                self.wf(),
                Self::roi_set_wf(rois@),
                self.frames_in_bounds(frames@),
                n > 0 ==> self.dims_ok(frames@) && self.mask_fits(
                    frames@,
                    rois@[0]@[0].height as int,
                    rois@[0]@[0].width as int,
                ),
                registration_ok(registration, frames@),
                forall|j: int|
                    0 <= j < n ==> (#[trigger] self.recs()[frames@[j] as int]).height
                        == rois@[0]@[0].height && self.recs()[frames@[j] as int].width
                        == rois@[0]@[0].width,
                taus@.len() == k,
                sums@.len() == k,
                forall|j: int|
                    0 <= j < k ==> flim_mask_decodable(
                        self.dataq(),
                        #[trigger] self.recs()[frames@[j] as int],
                    ),
                forall|j: int| 0 <= j < k ==> (#[trigger] taus@[j])@.len() == nrois,
                forall|j: int| 0 <= j < k ==> (#[trigger] sums@[j])@.len() == nrois,
                forall|j: int, m: int|
                    0 <= j < k && 0 <= m < nrois ==> #[trigger] taus@[j]@[m]
                        == frame_mask_tau_spec(
                        self.dataq(),
                        self.recs()[frames@[j] as int],
                        rois@[m]@[j % rois@[m]@.len() as int].pixels@,
                        shift_spec(registration, frames@[j]).0 as int,
                        shift_spec(registration, frames@[j]).1 as int,
                    ),
                forall|j: int, m: int|
                    0 <= j < k && 0 <= m < nrois ==> #[trigger] sums@[j]@[m]
                        == frame_mask_sum_spec(
                        self.dataq(),
                        self.recs()[frames@[j] as int],
                        rois@[m]@[j % rois@[m]@.len() as int].pixels@,
                        shift_spec(registration, frames@[j]).0 as int,
                        shift_spec(registration, frames@[j]).1 as int,
                    ),
            decreases n - k,
        {
            let f: u64 = frames[k];
            let rec: FrameRecord = self.records[f as usize];
            let shift = Self::shift_for(registration, f);
            let mut tau_row: Vec<u64> = Vec::new();
            let mut sum_row: Vec<u64> = Vec::new();
            let mut m: usize = 0;
            while m < nrois
                invariant
                    m <= nrois,
                    nrois == rois@.len(),
                    self.wf(),
                    Self::roi_set_wf(rois@),
                    rec.wf(),
                    rec == self.recs()[frames@[k as int] as int],
                    0 <= k < n,
                    n == frames@.len(),
                    self.frames_in_bounds(frames@),
                    shift == shift_spec(registration, frames@[k as int]),
                    rec.height == rois@[0]@[0].height,
                    rec.width == rois@[0]@[0].width,
                    tau_row@.len() == m,
                    sum_row@.len() == m,
                    m > 0 ==> flim_mask_decodable(self.dataq(), rec),
                    forall|t: int|
                        0 <= t < m ==> #[trigger] tau_row@[t] == frame_mask_tau_spec(
                            self.dataq(),
                            rec,
                            rois@[t]@[k as int % rois@[t]@.len() as int].pixels@,
                            shift.0 as int,
                            shift.1 as int,
                        ),
                    forall|t: int|
                        0 <= t < m ==> #[trigger] sum_row@[t] == frame_mask_sum_spec(
                            self.dataq(),
                            rec,
                            rois@[t]@[k as int % rois@[t]@.len() as int].pixels@,
                            shift.0 as int,
                            shift.1 as int,
                        ),
                decreases nrois - m,
            {
                let planes: usize = rois[m].len();
                let plane: usize = k % planes;
                let mut lifetime_sum: u64 = 0;
                let mut intensity_sum: u64 = 0;
                let mut pos: usize = 0;
                match sum_flim_mask_registered(
                    &self.data,
                    &mut pos,
                    &rec,
                    &mut lifetime_sum,
                    &mut intensity_sum,
                    &rois[m][plane],
                    shift,
                ) {
                    Ok(()) => {},
                    Err(e) => {
                        return Err(CorrosiffError::FramesError(e));
                    },
                }
                tau_row.push(lifetime_sum);
                sum_row.push(intensity_sum);
                m = m + 1;
            }
            taus.push(tau_row);
            sums.push(sum_row);
            k = k + 1;
        }
        Ok((taus, sums))
    }

    /// The appended-text entries of a request, in order: one per requested
    /// frame that carries a metadata block, pairing the frame index with
    /// the block's bytes and the frame's experiment timestamp when one is
    /// stamped.
    pub open spec fn appended_list(
        data: Seq<u8>,
        recs: Seq<FrameRecord>,
        frames: Seq<u64>,
    ) -> Seq<(u64, Seq<u8>, Option<u64>)>
        decreases frames.len(),
    {
        if frames.len() == 0 {
            Seq::empty()
        } else {
            let rest = Self::appended_list(data, recs, frames.drop_last());
            let f = frames.last();
            let rec = recs[f as int];
            match rec.metadata {
                Some(t) => rest.push(
                    (
                        f,
                        data.subrange(t.0 as int, t.0 + t.1),
                        if Self::ts_present(rec, 1) && Self::ts_in_bounds(data, rec, 1) {
                            Some(Self::ts_word(data, rec, 0))
                        } else {
                            None
                        },
                    ),
                ),
                None => rest,
            }
        }
    }

    /// Returns the frames of the request that carry appended text: for
    /// each, the frame index, the text block's bytes, and the frame's
    /// experiment timestamp when one is stamped.
    pub fn get_appended_text(&self, frames: &Vec<u64>) -> (r: Result<
        Vec<(u64, Vec<u8>, Option<u64>)>,
        CorrosiffError,
    >)
        requires
            self.wf(),
        ensures
            r is Ok <==> self.frames_in_bounds(frames@) && (forall|k: int|
                0 <= k < frames@.len() ==> Self::metadata_in_bounds(
                    self.dataq(),
                    #[trigger] self.recs()[frames@[k] as int],
                )),
            r is Ok ==> r->Ok_0@.len() == Self::appended_list(
                self.dataq(),
                self.recs(),
                frames@,
            ).len(),
            r is Ok ==> forall|j: int|
                0 <= j < r->Ok_0@.len() ==> ((#[trigger] r->Ok_0@[j]).0, r->Ok_0@[j].1@,
                r->Ok_0@[j].2) == Self::appended_list(self.dataq(), self.recs(), frames@)[j],
    {
        if !self.check_frames_in_bounds(frames) {
            return Err(CorrosiffError::FramesError(FramesError::DimensionsError(
                DimensionsError::IncorrectFrames,
            )));
        }
        let n: usize = frames.len();
        let nrec: usize = self.records.len();
        let dlen: usize = self.data.len();
        let mut out: Vec<(u64, Vec<u8>, Option<u64>)> = Vec::new();
        let mut k: usize = 0;
        while k < n
            invariant
                k <= n,
                n == frames@.len(),
                nrec == self.recs().len(),
                dlen == self.dataq().len(),
                self.wf(),
                self.frames_in_bounds(frames@),
                forall|j: int|
                    0 <= j < k ==> Self::metadata_in_bounds(
                        self.dataq(),
                        #[trigger] self.recs()[frames@[j] as int],
                    ),
                out@.len() == Self::appended_list(
                    self.dataq(),
                    self.recs(),
                    frames@.take(k as int),
                ).len(),
                forall|j: int|
                    0 <= j < out@.len() ==> ((#[trigger] out@[j]).0, out@[j].1@, out@[j].2)
                        == Self::appended_list(
                        self.dataq(),
                        self.recs(),
                        frames@.take(k as int),
                    )[j],
            decreases n - k,
        {
            let f: u64 = frames[k];
            let rec: FrameRecord = self.records[f as usize];
            match rec.metadata {
                Some(t) => {
                    if t.0 > dlen as u64 || (dlen as u64) - t.0 < t.1 {
                        return Err(CorrosiffError::FramesError(FramesError::IOError(
                            IoFault::UnexpectedEof,
                        )));
                    }
                    let off: usize = t.0 as usize;
                    let blen: usize = t.1 as usize;
                    let mut text: Vec<u8> = Vec::new();
                    let mut i: usize = 0;
                    while i < blen
                        invariant
                            i <= blen,
                            off + blen <= dlen,
                            dlen == self.dataq().len(),
                            text@.len() == i,
                            forall|q: int|
                                0 <= q < i ==> #[trigger] text@[q] == self.dataq()[off + q],
                        decreases blen - i,
                    {
                        text.push(self.data[off + i]);
                        i = i + 1;
                    }
                    proof {
                        assert(text@ =~= self.dataq().subrange(off as int, off + blen));
                    }
                    let stamp: Option<u64> = match self.read_ts_word(&rec, 0) {
                        Ok(v) => Some(v),
                        Err(_) => None,
                    };
                    out.push((f, text, stamp));
                },
                None => {},
            }
            proof {
                assert(frames@.take(k as int + 1).drop_last() =~= frames@.take(k as int));
                assert(frames@.take(k as int + 1).last() == frames@[k as int]);
            }
            k = k + 1;
        }
        proof {
            assert(frames@.take(n as int) =~= frames@);
        }
        Ok(out)
    }
    /// Every requested frame supports a masked histogram.
    pub open spec fn all_hist_mask_decodable(self, frames: Seq<u64>) -> bool {
        forall|k: int|
            0 <= k < frames.len() ==> hist_mask_decodable(
                self.dataq(),
                #[trigger] self.recs()[frames[k] as int],
            )
    }

    /// Returns, per requested frame, the arrival-time histogram over the
    /// photons that land inside `mask`: one row of `tau_bins` counters per
    /// frame.
    ///
    /// Fails as `get_histogram` does, and additionally when the mask's
    /// shape differs from the frames' or a compressed frame's slabs
    /// disagree.
    pub fn get_histogram_mask(&self, frames: &Vec<u64>, mask: &Mask) -> (r: Result<
        Vec<Vec<u64>>,
        CorrosiffError,
    >)
        requires
            self.wf(),
            mask.wf(),
        ensures
            r is Ok <==> self.frames_in_bounds(frames@) && (frames@.len() > 0 ==> self.dims_ok(
                frames@,
            ) && self.mask_fits(frames@, mask.height as int, mask.width as int)) && (
            self.spec_tau_bins() matches Some(tb) && tb <= 0x100_0000)
                && self.all_hist_mask_decodable(frames@),
            !self.frames_in_bounds(frames@) ==> (r matches Err(
                CorrosiffError::FramesError(
                    FramesError::DimensionsError(DimensionsError::IncorrectFrames),
                )
            )),
            self.frames_in_bounds(frames@) && frames@.len() > 0 && self.dims_ok(frames@)
                && !self.mask_fits(frames@, mask.height as int, mask.width as int) ==> (r matches Err(
                CorrosiffError::FramesError(
                    FramesError::DimensionsError(
                        DimensionsError::MismatchedDimensions { required: dreq, requested: dgot },
                    ),
                )
            ) && dreq == Dimensions {
                xdim: self.recs()[frames@[0] as int].width as u64,
                ydim: self.recs()[frames@[0] as int].height as u64,
            } && dgot == Dimensions { xdim: mask.width as u64, ydim: mask.height as u64 }),
            self.frames_in_bounds(frames@) && (frames@.len() > 0 ==> self.dims_ok(frames@)
                && self.mask_fits(frames@, mask.height as int, mask.width as int)) && !(
            self.spec_tau_bins() matches Some(tb) && tb <= 0x100_0000) ==> (r matches Err(
                CorrosiffError::FramesError(FramesError::FormatError)
            )),
            r is Ok ==> r->Ok_0@.len() == frames@.len(),
            r is Ok ==> forall|k: int|
                0 <= k < frames@.len() ==> (#[trigger] r->Ok_0@[k])@.len()
                    == self.spec_tau_bins()->Some_0,
            r is Ok ==> forall|k: int, b: int|
                0 <= k < frames@.len() && 0 <= b < self.spec_tau_bins()->Some_0
                    ==> #[trigger] r->Ok_0@[k]@[b] == frame_mask_hist_spec(
                    self.dataq(),
                    self.recs()[frames@[k] as int],
                    mask.pixels@,
                    b,
                ),
    {
        if !self.check_frames_in_bounds(frames) {
            return Err(CorrosiffError::FramesError(FramesError::DimensionsError(
                DimensionsError::IncorrectFrames,
            )));
        }
        let n: usize = frames.len();
        let nrec: usize = self.records.len();
        if n > 0 {
            if !self.check_dims_ok(frames) {
                return Err(CorrosiffError::FramesError(FramesError::DimensionsError(
                    DimensionsError::NoConsistentDimensions,
                )));
            }
            let first: FrameRecord = self.records[frames[0] as usize];
            if !(mask.height == first.height && mask.width == first.width) {
                return Err(CorrosiffError::FramesError(FramesError::DimensionsError(
                    DimensionsError::MismatchedDimensions {
                        required: Dimensions {
                            xdim: first.width as u64,
                            ydim: first.height as u64,
                        },
                        requested: Dimensions {
                            xdim: mask.width as u64,
                            ydim: mask.height as u64,
                        },
                    },
                )));
            }
        }
        let tb: u64 = match self.tau_bins {
            Some(tb) => tb,
            None => {
                return Err(CorrosiffError::FramesError(FramesError::FormatError));
            },
        };
        if tb > 0x100_0000 {
            return Err(CorrosiffError::FramesError(FramesError::FormatError));
        }
        let tbu: usize = tb as usize;
        proof {
            self.lemma_request_shape(frames@);
        }
        let mut out: Vec<Vec<u64>> = Vec::new();
        let mut k: usize = 0;
        while k < n
            invariant
                k <= n,
                n == frames@.len(),
                nrec == self.recs().len(),
                self.wf(),
                mask.wf(),
                self.frames_in_bounds(frames@),
                n > 0 ==> self.dims_ok(frames@) && self.mask_fits(
                    frames@,
                    mask.height as int,
                    mask.width as int,
                ),
                forall|j: int|
                    0 <= j < n ==> (#[trigger] self.recs()[frames@[j] as int]).height
                        == mask.height && self.recs()[frames@[j] as int].width == mask.width,
                tbu == tb,
                tb <= 0x100_0000,
                self.spec_tau_bins() == Some(tb),
                out@.len() == k,
                forall|j: int|
                    0 <= j < k ==> hist_mask_decodable(
                        self.dataq(),
                        #[trigger] self.recs()[frames@[j] as int],
                    ),
                forall|j: int| 0 <= j < k ==> (#[trigger] out@[j])@.len() == tb,
                forall|j: int, b: int|
                    0 <= j < k && 0 <= b < tb ==> #[trigger] out@[j]@[b] == frame_mask_hist_spec(
                        self.dataq(),
                        self.recs()[frames@[j] as int],
                        mask.pixels@,
                        b,
                    ),
            decreases n - k,
        {
            let f: u64 = frames[k];
            let rec: FrameRecord = self.records[f as usize];
            let mut hist: Vec<u64> = Vec::new();
            let mut b: usize = 0;
            while b < tbu
                invariant
                    b <= tbu,
                    hist@.len() == b,
                    forall|t: int| 0 <= t < b ==> #[trigger] hist@[t] == 0,
                decreases tbu - b,
            {
                hist.push(0);
                b = b + 1;
            }
            let mut pos: usize = 0;
            match load_histogram_mask(&self.data, &mut pos, &rec, &mut hist, mask) {
                Ok(()) => {},
                Err(e) => {
                    return Err(CorrosiffError::FramesError(e));
                },
            }
            out.push(hist);
            k = k + 1;
        }
        Ok(out)
    }

    /// The requested frames' photon words, in request order: each raw
    /// frame contributes its strip's 64-bit words.
    pub open spec fn photon_stream_spec(
        data: Seq<u8>,
        recs: Seq<FrameRecord>,
        frames: Seq<u64>,
    ) -> Seq<u64>
        decreases frames.len(),
    {
        if frames.len() == 0 {
            Seq::empty()
        } else {
            Self::photon_stream_spec(data, recs, frames.drop_last()) + record_words(
                data,
                recs[frames.last() as int],
            )
        }
    }

    /// Every requested frame is a raw photon stream lying inside the file.
    pub open spec fn all_raw_decodable(self, frames: Seq<u64>) -> bool {
        forall|k: int|
            0 <= k < frames.len() ==> (#[trigger] self.recs()[frames[k] as int]).siff_tag
                == Some(FORMAT_RAW) && raw_ok(self.dataq(), self.recs()[frames[k] as int])
    }

    /// Returns the raw photon words of the requested frames, in request
    /// order, rather than decoding them into images: the 64-bit words as
    /// the strips hold them. Only raw frames carry photon words; a
    /// compressed or plain-tiff frame in the request is an error, and a
    /// registration table (other than an absent or empty one) is not
    /// supported for word streams.
    pub fn get_photon_stream(
        &self,
        frames: &Vec<u64>,
        registration: Option<&RegistrationDict>,
    ) -> (r: Result<Vec<u64>, CorrosiffError>)
        requires
            self.wf(),
        ensures
            r is Ok <==> self.frames_in_bounds(frames@) && (match registration {
                Some(d) => d.spec_is_empty(),
                None => true,
            }) && self.all_raw_decodable(frames@),
            !self.frames_in_bounds(frames@) ==> (r matches Err(
                CorrosiffError::FramesError(
                    FramesError::DimensionsError(DimensionsError::IncorrectFrames),
                )
            )),
            self.frames_in_bounds(frames@) && !(match registration {
                Some(d) => d.spec_is_empty(),
                None => true,
            }) ==> (r matches Err(CorrosiffError::NotImplementedError)),
            r is Ok ==> r->Ok_0@ == Self::photon_stream_spec(self.dataq(), self.recs(), frames@),
    {
        if !self.check_frames_in_bounds(frames) {
            return Err(CorrosiffError::FramesError(FramesError::DimensionsError(
                DimensionsError::IncorrectFrames,
            )));
        }
        match registration {
            Some(d) => {
                if !d.is_empty() {
                    return Err(CorrosiffError::NotImplementedError);
                }
            },
            None => {},
        }
        let n: usize = frames.len();
        let nrec: usize = self.records.len();
        let dlen: usize = self.data.len();
        let mut out: Vec<u64> = Vec::new();
        let mut k: usize = 0;
        while k < n
            invariant
                k <= n,
                n == frames@.len(),
                nrec == self.recs().len(),
                dlen == self.dataq().len(),
                self.wf(),
                self.frames_in_bounds(frames@),
                (match registration {
                    Some(d) => d.spec_is_empty(),
                    None => true,
                }),
                forall|j: int|
                    0 <= j < k ==> (#[trigger] self.recs()[frames@[j] as int]).siff_tag == Some(
                        FORMAT_RAW,
                    ) && raw_ok(self.dataq(), self.recs()[frames@[j] as int]),
                out@ == Self::photon_stream_spec(
                    self.dataq(),
                    self.recs(),
                    frames@.take(k as int),
                ),
            decreases n - k,
        {
            let f: u64 = frames[k];
            let rec: FrameRecord = self.records[f as usize];
            let is_raw: bool = match rec.siff_tag {
                Some(t) => t == 0,
                None => false,
            };
            if !is_raw {
                return Err(CorrosiffError::FramesError(FramesError::FormatError));
            }
            if rec.strip_offset > dlen || dlen - rec.strip_offset < rec.strip_bytes {
                return Err(CorrosiffError::FramesError(FramesError::IOError(
                    IoFault::UnexpectedEof,
                )));
            }
            if rec.strip_bytes % 8 != 0 {
                return Err(CorrosiffError::FramesError(FramesError::IOError(
                    IoFault::MisalignedStrip,
                )));
            }
            let words: usize = rec.strip_bytes / 8;
            let ghost ws = record_words(self.dataq(), rec);
            let ghost out_snap = out@;
            let ghost old_len = out@.len();
            let mut i: usize = 0;
            while i < words
                invariant
                    i <= words,
                    dlen == self.dataq().len(),
                    rec.strip_offset + rec.strip_bytes <= dlen,
                    rec.strip_bytes % 8 == 0,
                    words == rec.strip_bytes / 8,
                    ws == record_words(self.dataq(), rec),
                    ws.len() == words,
                    0 <= k < n,
                    n == frames@.len(),
                    self.frames_in_bounds(frames@),
                    nrec == self.recs().len(),
                    rec == self.recs()[frames@[k as int] as int],
                    out_snap == Self::photon_stream_spec(
                        self.dataq(),
                        self.recs(),
                        frames@.take(k as int),
                    ),
                    old_len == out_snap.len(),
                    out@.len() == old_len + i,
                    forall|q: int| 0 <= q < old_len ==> #[trigger] out@[q] == out_snap[q],
                    forall|q: int|
                        old_len <= q < old_len + i ==> #[trigger] out@[q] == ws[q - old_len],
                decreases words - i,
            {
                proof {
                    assert(8 * i + 8 <= rec.strip_bytes) by (nonlinear_arith)
                        requires
                            i < words,
                            words == rec.strip_bytes / 8,
                            rec.strip_bytes % 8 == 0,
                    ;
                }
                let w: u64 = crate::bytes::read_u64(&self.data, rec.strip_offset + 8 * i);
                proof {
                    assert(w == ws[i as int]);
                }
                out.push(w);
                i = i + 1;
            }
            proof {
                assert(frames@.take(k as int + 1).drop_last() =~= frames@.take(k as int));
                assert(frames@.take(k as int + 1).last() == frames@[k as int]);
                assert(out@ =~= Self::photon_stream_spec(
                    self.dataq(),
                    self.recs(),
                    frames@.take(k as int + 1),
                ));
            }
            k = k + 1;
        }
        proof {
            assert(frames@.take(n as int) =~= frames@);
        }
        Ok(out)
    }

    /// The position of the instrument-settings block, as the first frame
    /// declares it.
    pub open spec fn spec_nvfd_loc(self) -> Option<(u64, u64)> {
        if self.recs().len() > 0 {
            self.recs()[0].nvfd
        } else {
            None
        }
    }

    /// The position of the multi-ROI description block, as the first
    /// frame declares it.
    pub open spec fn spec_roi_loc(self) -> Option<(u64, u64)> {
        if self.recs().len() > 0 {
            self.recs()[0].roi_string
        } else {
            None
        }
    }

    /// Reads a declared byte block out of the file.
    fn read_block(&self, loc: Option<(u64, u64)>) -> (r: Result<Vec<u8>, CorrosiffError>)
        ensures
            r is Ok <==> (match loc {
                Some(t) => t.0 + t.1 <= self.dataq().len(),
                None => true,
            }),
            r is Ok ==> r->Ok_0@ == (match loc {
                Some(t) => self.dataq().subrange(t.0 as int, t.0 + t.1),
                None => Seq::<u8>::empty(),
            }),
            !(r is Ok) ==> (r matches Err(
                CorrosiffError::FramesError(FramesError::IOError(IoFault::UnexpectedEof))
            )),
    {
        let dlen: usize = self.data.len();
        match loc {
            None => Ok(Vec::new()),
            Some(t) => {
                if t.0 > dlen as u64 || (dlen as u64) - t.0 < t.1 {
                    return Err(CorrosiffError::FramesError(FramesError::IOError(
                        IoFault::UnexpectedEof,
                    )));
                }
                let off: usize = t.0 as usize;
                let blen: usize = t.1 as usize;
                let mut text: Vec<u8> = Vec::new();
                let mut i: usize = 0;
                while i < blen
                    invariant
                        i <= blen,
                        off + blen <= dlen,
                        dlen == self.dataq().len(),
                        text@.len() == i,
                        forall|q: int|
                            0 <= q < i ==> #[trigger] text@[q] == self.dataq()[off + q],
                    decreases blen - i,
                {
                    text.push(self.data[off + i]);
                    i = i + 1;
                }
                proof {
                    assert(text@ =~= self.dataq().subrange(off as int, off + blen));
                }
                Ok(text)
            },
        }
    }

    /// Returns the non-varying frame data: the instrument-settings text
    /// the acquisition wrote once for the whole file, as raw bytes (empty
    /// when the file declares none).
    pub fn nvfd(&self) -> (r: Result<Vec<u8>, CorrosiffError>)
        requires
            self.wf(),
        ensures
            r is Ok <==> (match self.spec_nvfd_loc() {
                Some(t) => t.0 + t.1 <= self.dataq().len(),
                None => true,
            }),
            r is Ok ==> r->Ok_0@ == (match self.spec_nvfd_loc() {
                Some(t) => self.dataq().subrange(t.0 as int, t.0 + t.1),
                None => Seq::<u8>::empty(),
            }),
    {
        if self.records.len() == 0 {
            return Ok(Vec::new());
        }
        self.read_block(self.records[0].nvfd)
    }

    /// Returns the multi-ROI description text, as raw bytes (empty when
    /// the file declares none).
    pub fn roi_string(&self) -> (r: Result<Vec<u8>, CorrosiffError>)
        requires
            self.wf(),
        ensures
            r is Ok <==> (match self.spec_roi_loc() {
                Some(t) => t.0 + t.1 <= self.dataq().len(),
                None => true,
            }),
            r is Ok ==> r->Ok_0@ == (match self.spec_roi_loc() {
                Some(t) => self.dataq().subrange(t.0 as int, t.0 + t.1),
                None => Seq::<u8>::empty(),
            }),
    {
        if self.records.len() == 0 {
            return Ok(Vec::new());
        }
        self.read_block(self.records[0].roi_string)
    }

    /// Whether the file carries photon data: true exactly when some frame
    /// declares the vendor format tag. (An on-disk reader can also go by
    /// the file's name; the bytes themselves only know their tags.)
    pub fn is_siff(&self) -> (r: bool)
        ensures
            r == (exists|i: int|
                0 <= i < self.recs().len() && (#[trigger] self.recs()[i]).siff_tag is Some),
    {
        let n: usize = self.records.len();
        let mut i: usize = 0;
        while i < n
            invariant
                i <= n,
                n == self.recs().len(),
                forall|j: int| 0 <= j < i ==> !((#[trigger] self.recs()[j]).siff_tag is Some),
            decreases n - i,
        {
            let has_tag: bool = match self.records[i].siff_tag {
                Some(_) => true,
                None => false,
            };
            if has_tag {
                proof {
                    assert((self.recs()[i as int]).siff_tag is Some);
                }
                return true;
            }
            i = i + 1;
        }
        false
    }

}


/// A single decoded frame: the intensity image read directly from one
/// directory record.
pub struct SiffFrame {
    pub intensity: Frame,
}

impl SiffFrame {
    /// Parses one frame's intensity from the file's bytes using its frozen
    /// directory record; the reader position is restored on every exit
    /// path.
    pub fn from_record(data: &Vec<u8>, pos: &mut usize, rec: &FrameRecord) -> (r: Result<
        SiffFrame,
        FramesError,
    >)
        requires
            rec.wf(),
        ensures
            *final(pos) == *old(pos),
            r is Ok <==> intensity_decodable(data@, *rec),
            r is Ok ==> r->Ok_0.intensity.wf(),
            r is Ok ==> r->Ok_0.intensity.height == rec.height,
            r is Ok ==> r->Ok_0.intensity.width == rec.width,
            r is Ok ==> r->Ok_0.intensity.pixels@ == frame_intensity_spec(
                data@,
                *rec,
                zero16(rec.pixel_count()),
                0,
                0,
            ),
    {
        let mut frame = Frame::zeros(rec.height, rec.width);
        proof {
            assert(frame.pixels@ =~= zero16(rec.pixel_count()));
        }
        match load_array_intensity_registered(data, pos, rec, &mut frame, (0, 0)) {
            Ok(()) => Ok(SiffFrame { intensity: frame }),
            Err(e) => Err(e),
        }
    }
}

} // verus!
