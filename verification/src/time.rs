//! Clock bases for frame timestamps.

use vstd::prelude::*;

verus! {

/// Which clock a timestamp request is asked against: seconds since the
/// acquisition began, epoch time counted from laser sync pulses, epoch time
/// from system-clock calls, or both epoch bases side by side.
#[derive(Debug, Clone, Copy, PartialEq, Eq, Structural)]
pub enum ClockBase {
    Experiment,
    EpochLaser,
    EpochSystem,
    Both,
}

} // verus!
