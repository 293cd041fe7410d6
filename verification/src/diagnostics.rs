//! The frame-rate readout: what it shows for a given measurement.

use vstd::prelude::*;

verus! {

/// The frame rate, in frames per second, from which the readout counts as
/// good.
pub const FPS_TARGET: u64 = 60;

/// How the readout is to be shown.
#[derive(Clone, Copy, Debug, PartialEq, Eq, Structural)]
pub enum FpsReadout {
    /// No measurement is at hand: the readout says so, in a neutral colour.
    Missing,
    /// The measurement reaches the target: it is shown in the good colour.
    Good,
    /// The measurement falls short of the target: it is shown in the bad
    /// colour.
    Bad,
}

/// The readout for `sample`, the whole frames per second last measured, if
/// any were.
pub open spec fn readout(sample: Option<u64>) -> FpsReadout {
    match sample {
        None => FpsReadout::Missing,
        Some(frames) => if frames >= FPS_TARGET {
            FpsReadout::Good
        } else {
            FpsReadout::Bad
        },
    }
}

/// Decides how the readout is to be shown for `sample`, the smoothed frame
/// rate cut down to whole frames per second, or `None` where there is no
/// measurement yet.
pub fn update_fps(sample: Option<u64>) -> (shown: FpsReadout)
    ensures
        shown == readout(sample),
{
    match sample {
        None => FpsReadout::Missing,
        Some(frames) => {
            if frames >= FPS_TARGET {
                FpsReadout::Good
            } else {
                FpsReadout::Bad
            }
        },
    }
}

} // verus!
