//! Frame-rate telemetry cadence: each hardware thread reports its
//! frames-per-second once every 256 frames, and the counter restarts
//! after each report.

use vstd::prelude::*;

verus! {

/// Number of frames between two telemetry reports.
pub const REPORT_INTERVAL: u32 = 256;

/// Counts frames within the current reporting window.
pub struct FpsCounter {
    count: u32,
}

impl FpsCounter {
    /// Frames seen since the last report.
    pub closed spec fn count(self) -> u32 {
        self.count
    }

    pub open spec fn wf(self) -> bool {
        self.count() < REPORT_INTERVAL
    }

    pub fn new() -> (c: FpsCounter)
        ensures
            c.wf(),
            c.count() == 0,
    {
        FpsCounter { count: 0 }
    }

    /// Count one frame; the result says whether this frame completes a
    /// window of 256, in which case the caller reports the rate and the
    /// window restarts.
    pub fn tick(&mut self) -> (fired: bool)
        requires
            old(self).wf(),
        ensures
            final(self).wf(),
            fired == (old(self).count() + 1 == REPORT_INTERVAL),
            final(self).count() == if fired {
                0u32
            } else {
                (old(self).count() + 1) as u32
            },
    {
        self.count = self.count + 1;
        if self.count == REPORT_INTERVAL {
            self.count = 0;
            true
        } else {
            false
        }
    }
}

} // verus!
