//! Reader for the photon-resolved "siff" microscopy container, a
//! BigTIFF-compatible format in which every frame carries either a raw stream
//! of 64-bit photon words or a compressed pair of slabs (a dense 16-bit
//! intensity image followed by the photons' arrival-time words).
//!
//! The library works on the file's bytes held in memory: `open_siff` parses
//! the header and the chain of image file directories once, and the frame
//! methods of [`siffreader::SiffReader`] decode intensity images, arrival-time
//! histograms, empirical-lifetime sums and region-of-interest reductions from
//! the strips, optionally applying a per-frame cyclic registration shift.
//! Every decoding path is specified against a mathematical model of the
//! photon stream and proved against it.

use vstd::prelude::*;
use vstd::string::StringSliceAdditionalSpecFns;

pub mod bytes;
pub mod compressed;
pub mod dimensions;
pub mod dispatch;
pub mod empirical_lifetime;
pub mod file_types;
pub mod flim;
pub mod frame;
pub mod histogram;
pub mod ifd;
pub mod intensity;
pub mod laws;
pub mod metadata;
pub mod photon;
pub mod record;
pub mod siffreader;
pub mod summation;
pub mod time;
pub mod utils;

use crate::dimensions::DimensionsError;
use crate::siffreader::SiffReader;
use crate::time::ClockBase;
use crate::utils::{FramesError, IoFault};

verus! {

/// The library's top-level error: every failure of the reader collapses
/// into one of these.
#[derive(Debug)]
pub enum CorrosiffError {
    IOError(IoFault),
    FramesError(FramesError),
    DimensionsError(DimensionsError),
    InvalidClockBase,
    NoSystemTimestamps,
    NotImplementedError,
}

/// Conversion mode of a siff file to a conventional tiff: the standard
/// ScanImage layout, or the OME-TIFF layout.
#[derive(Debug, PartialEq, Eq, Structural, Clone, Copy)]
pub enum TiffMode {
    ScanImage,
    OME,
}

/// The characters `"ScanImage"`, as bytes.
pub open spec fn scanimage_name() -> Seq<u8> {
    seq![0x53u8, 0x63u8, 0x61u8, 0x6Eu8, 0x49u8, 0x6Du8, 0x61u8, 0x67u8, 0x65u8]
}

/// The characters `"OME"`, as bytes.
pub open spec fn ome_name() -> Seq<u8> {
    seq![0x4Fu8, 0x4Du8, 0x45u8]
}

impl TiffMode {
    /// Parses a mode name: `"ScanImage"` or `"OME"`, anything else is
    /// rejected. Useful for argument parsing from a command line.
    pub fn from_string_slice(name: &str) -> (r: Result<TiffMode, CorrosiffError>)
        ensures
            r == (if name.spec_bytes() == scanimage_name() {
                Ok::<TiffMode, CorrosiffError>(TiffMode::ScanImage)
            } else if name.spec_bytes() == ome_name() {
                Ok::<TiffMode, CorrosiffError>(TiffMode::OME)
            } else {
                Err::<TiffMode, CorrosiffError>(
                    CorrosiffError::FramesError(FramesError::FormatError),
                )
            }),
    {
        let b: &[u8] = name.as_bytes();
        let n: usize = b.len();
        if n == 9 && b[0] == 0x53 && b[1] == 0x63 && b[2] == 0x61 && b[3] == 0x6E && b[4] == 0x49
            && b[5] == 0x6D && b[6] == 0x61 && b[7] == 0x67 && b[8] == 0x65 {
            proof {
                assert(b@ =~= scanimage_name());
            }
            Ok(TiffMode::ScanImage)
        } else if n == 3 && b[0] == 0x4F && b[1] == 0x4D && b[2] == 0x45 {
            proof {
                assert(b@ =~= ome_name());
            }
            Ok(TiffMode::OME)
        } else {
            proof {
                if b@.len() == scanimage_name().len() && b@ == scanimage_name() {
                    assert(b@[0] == 0x53u8);
                    assert(b@[1] == 0x63u8);
                    assert(b@[2] == 0x61u8);
                    assert(b@[3] == 0x6Eu8);
                    assert(b@[4] == 0x49u8);
                    assert(b@[5] == 0x6Du8);
                    assert(b@[6] == 0x61u8);
                    assert(b@[7] == 0x67u8);
                    assert(b@[8] == 0x65u8);
                }
                if b@.len() == ome_name().len() && b@ == ome_name() {
                    assert(b@[0] == 0x4Fu8);
                    assert(b@[1] == 0x4Du8);
                    assert(b@[2] == 0x45u8);
                }
            }
            Err(CorrosiffError::FramesError(FramesError::FormatError))
        }
    }
}

/// Opens a siff (or FLIM-aware tiff) file held in memory, parses its
/// header and directory chain, and returns a reader over it: it succeeds
/// exactly when the header parses, the chain walks to its terminator
/// inside the file, and every directory extracts to a frame record.
pub fn open_siff(data: Vec<u8>) -> (r: Result<siffreader::SiffReader, CorrosiffError>)
    ensures
        r is Ok <==> siffreader::open_ok(data@),
        r is Ok ==> r->Ok_0.wf(),
        r is Ok ==> r->Ok_0.dataq() == data@,
        r is Ok ==> r->Ok_0.recs() == siffreader::open_records(data@),
        r is Ok ==> r->Ok_0.spec_bigtiff() == siffreader::bigtiff_of(data@),
        r is Ok ==> r->Ok_0.spec_image_dims() == siffreader::shared_dims_of(
            siffreader::open_records(data@),
        ),
        r is Ok ==> r->Ok_0.spec_tau_bins() == siffreader::tau_bins_of(
            siffreader::open_records(data@),
        ),
{
    siffreader::SiffReader::open(data)
}


/// Every frame index of the file, in order: the request the time-axis
/// helpers make on the caller's behalf.
pub open spec fn all_frames_spec(reader: SiffReader) -> Seq<u64> {
    Seq::new(reader.recs().len(), |i: int| i as u64)
}

/// Returns the epoch timestamp of every frame of the file, from the clock
/// base asked for: counted laser sync pulses, or the system clock. Any
/// other base belongs to the other time-axis helpers and is rejected.
pub fn time_axis_epoch(siffreader: &SiffReader, units: ClockBase) -> (r: Result<
    Vec<u64>,
    CorrosiffError,
>)
    requires
        siffreader.wf(),
    ensures
        (units == ClockBase::Experiment || units == ClockBase::Both) ==> (r matches Err(
            CorrosiffError::InvalidClockBase
        )),
        units == ClockBase::EpochLaser ==> (r is Ok <==> siffreader.all_ts_ok(
            all_frames_spec(*siffreader),
            2,
        )),
        units == ClockBase::EpochSystem ==> (r is Ok <==> siffreader.all_ts_ok(
            all_frames_spec(*siffreader),
            3,
        )),
        r is Ok ==> r->Ok_0@.len() == siffreader.recs().len(),
        units == ClockBase::EpochLaser && r is Ok ==> forall|k: int|
            0 <= k < siffreader.recs().len() ==> #[trigger] r->Ok_0@[k] == SiffReader::ts_word(
                siffreader.dataq(),
                siffreader.recs()[k],
                1,
            ),
        units == ClockBase::EpochSystem && r is Ok ==> forall|k: int|
            0 <= k < siffreader.recs().len() ==> #[trigger] r->Ok_0@[k] == SiffReader::ts_word(
                siffreader.dataq(),
                siffreader.recs()[k],
                2,
            ),
{
    let frames = siffreader.frames_vec();
    proof {
        assert(frames@ =~= all_frames_spec(*siffreader));
    }
    match units {
        ClockBase::EpochLaser => siffreader.get_epoch_timestamps_laser(&frames),
        ClockBase::EpochSystem => siffreader.get_epoch_timestamps_system(&frames),
        _ => Err(CorrosiffError::InvalidClockBase),
    }
}

/// Returns the experiment timestamp of every frame of the file, in
/// instrument ticks since the acquisition began.
pub fn time_axis_experiment(siffreader: &SiffReader) -> (r: Result<Vec<u64>, CorrosiffError>)
    requires
        siffreader.wf(),
    ensures
        r is Ok <==> siffreader.all_ts_ok(all_frames_spec(*siffreader), 1),
        r is Ok ==> r->Ok_0@.len() == siffreader.recs().len(),
        r is Ok ==> forall|k: int|
            0 <= k < siffreader.recs().len() ==> #[trigger] r->Ok_0@[k] == SiffReader::ts_word(
                siffreader.dataq(),
                siffreader.recs()[k],
                0,
            ),
{
    let frames = siffreader.frames_vec();
    proof {
        assert(frames@ =~= all_frames_spec(*siffreader));
    }
    siffreader.get_experiment_timestamps(&frames)
}

/// Returns both epoch timestamps of every frame of the file, the
/// laser-clock value paired with the system-clock value: regressing the
/// two corrects the laser clock's drift by the system clock's absolute
/// time.
pub fn time_axis_epoch_both(siffreader: &SiffReader) -> (r: Result<
    Vec<(u64, u64)>,
    CorrosiffError,
>)
    requires
        siffreader.wf(),
    ensures
        r is Ok <==> siffreader.all_ts_ok(all_frames_spec(*siffreader), 3),
        r is Ok ==> r->Ok_0@.len() == siffreader.recs().len(),
        r is Ok ==> forall|k: int|
            0 <= k < siffreader.recs().len() ==> #[trigger] r->Ok_0@[k] == (
            SiffReader::ts_word(siffreader.dataq(), siffreader.recs()[k], 1),
            SiffReader::ts_word(siffreader.dataq(), siffreader.recs()[k], 2),
            ),
{
    let frames = siffreader.frames_vec();
    proof {
        assert(frames@ =~= all_frames_spec(*siffreader));
    }
    siffreader.get_epoch_timestamps_both(&frames)
}

} // verus!
