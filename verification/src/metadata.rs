//! Per-frame metadata: the appended text block and the frame-trigger
//! timestamps.

use vstd::prelude::*;

verus! {

/// Holds important or relevant acquisition metadata in an interpretable
/// format. The instrument writes most of it as text blocks whose inner
/// structure the reader does not interpret.
pub struct Metadata {}

/// The metadata of one frame: its index in the file, the raw bytes of the
/// frame's appended text block, and the frame-trigger timestamps, when
/// present.
pub struct FrameMetadata {
    /// The frame's index in the file.
    pub frame_index: u64,
    /// The frame's appended ASCII metadata block, as raw bytes.
    pub metadata_bytes: Vec<u8>,
    /// Experiment timestamp in instrument ticks, if stamped.
    pub experiment_ticks: Option<u64>,
    /// Epoch nanoseconds counted from laser sync pulses, if stamped.
    pub laser_epoch_ns: Option<u64>,
    /// Epoch nanoseconds of the most recent system-clock call, if stamped.
    pub system_epoch_ns: Option<u64>,
}

} // verus!
