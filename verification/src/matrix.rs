//! The row/column LED matrix backend: device geometry options, the derived
//! frame size, the producer-side submit with shape enforcement, and the
//! hardware thread's per-frame state machine (paint the back canvas 1:1,
//! swap buffers, report FPS every 256 frames, stop when the channel closes).

use crate::channel::{FrameSlot, SubmitOutcome};
use crate::error::PipelineError;
use crate::fps::FpsCounter;
use crate::frame::{FrameView, RgbFrame};
use vstd::prelude::*;
use vstd::string::StringExecFns;

verus! {

/// Matrix device geometry and timing, each field independently optional and
/// merged with a default at construction.
#[derive(Clone, Debug)]
pub struct Options {
    pub cols: Option<u32>,
    pub rows: Option<u32>,
    pub chain_length: Option<u32>,
    pub parallel: Option<u32>,
    pub hardware_mapping: Option<String>,
    pub pwm_dither_bits: Option<u32>,
    pub pwm_lsb_nanoseconds: Option<u32>,
    pub gpio_slowdown: Option<u32>,
}

impl Options {
    /// Width of a full frame: panel columns times the number of chained
    /// panels (absent columns count as zero, an absent chain as one panel).
    pub open spec fn spec_frame_width(self) -> int {
        (if self.cols is Some {
            self.cols->Some_0 as int
        } else {
            0
        }) * (if self.chain_length is Some {
            self.chain_length->Some_0 as int
        } else {
            1
        })
    }

    /// Height of a full frame: panel rows times the parallel count.
    pub open spec fn spec_frame_height(self) -> int {
        (if self.rows is Some {
            self.rows->Some_0 as int
        } else {
            0
        }) * (if self.parallel is Some {
            self.parallel->Some_0 as int
        } else {
            1
        })
    }

    /// The pixel dimensions of one full frame for this geometry.
    pub fn frame_size(&self) -> (r: (u32, u32))
        requires
            self.spec_frame_width() <= u32::MAX,
            self.spec_frame_height() <= u32::MAX,
        ensures
            r.0 == self.spec_frame_width(),
            r.1 == self.spec_frame_height(),
    {
        let cols = match self.cols {
            Some(c) => c,
            None => 0,
        };
        let chain = match self.chain_length {
            Some(c) => c,
            None => 1,
        };
        let rows = match self.rows {
            Some(r) => r,
            None => 0,
        };
        let parallel = match self.parallel {
            Some(p) => p,
            None => 1,
        };
        (cols * chain, rows * parallel)
    }
}

impl Default for Options {
    /// The geometry this driver was developed against. These are concrete
    /// hardware-specific values, not a neutral default: treat geometry as
    /// explicit required configuration where possible.
    fn default() -> (r: Options)
        ensures
            r.cols == Some(64u32),
            r.rows == Some(32u32),
            r.chain_length == Some(3u32),
            r.parallel == Some(2u32),
            r.hardware_mapping is Some && r.hardware_mapping->Some_0@ == "vuzic"@,
            r.pwm_dither_bits == Some(0u32),
            r.pwm_lsb_nanoseconds == Some(120u32),
            r.gpio_slowdown == Some(3u32),
    {
        Options {
            cols: Some(64),
            rows: Some(32),
            chain_length: Some(3),
            parallel: Some(2),
            hardware_mapping: Some(String::from_str("vuzic")),
            pwm_dither_bits: Some(0),
            pwm_lsb_nanoseconds: Some(120),
            gpio_slowdown: Some(3),
        }
    }
}

/// Offer a frame to a matrix backend's channel, enforcing the backend's
/// fixed geometry: a frame of the wrong shape is rejected and the slot is
/// left untouched, so it can never reach the hardware.
pub fn submit_rgb(slot: &mut FrameSlot<RgbFrame>, width: u32, height: u32, frame: RgbFrame) -> (r:
    Result<SubmitOutcome, PipelineError>)
    requires
        old(slot).wf(),
    ensures
        final(slot).wf(),
        final(slot).policy() == old(slot).policy(),
        final(slot).is_closed() == old(slot).is_closed(),
        final(slot).delivered() == old(slot).delivered(),
        r == Err::<SubmitOutcome, PipelineError>(PipelineError::ShapeMismatch) <==> !(frame@.width
            == width && frame@.height == height),
        r == Err::<SubmitOutcome, PipelineError>(PipelineError::ShapeMismatch) ==> *final(slot)
            == *old(slot),
        frame@.width == width && frame@.height == height ==> {
            &&& (r == Err::<SubmitOutcome, PipelineError>(PipelineError::ChannelClosed)
                <==> old(slot).is_closed())
            &&& (r == Ok::<SubmitOutcome, PipelineError>(SubmitOutcome::Accepted)
                <==> !old(slot).is_closed() && old(slot).pending().len() == 0)
            &&& (r == Ok::<SubmitOutcome, PipelineError>(SubmitOutcome::Accepted)
                ==> final(slot).pending() == seq![frame]
                && final(slot).accepted() == old(slot).accepted().push(frame))
            &&& (r != Ok::<SubmitOutcome, PipelineError>(SubmitOutcome::Accepted)
                ==> final(slot).pending() == old(slot).pending()
                && final(slot).accepted() == old(slot).accepted())
        },
    {
    if frame.width() != width || frame.height() != height {
        return Err(PipelineError::ShapeMismatch);
    }
    slot.submit(frame)
}

/// The hardware thread's view of a matrix backend: fixed geometry, the
/// double-buffer swap cadence, the telemetry counter, and (as ghost state)
/// what the display is showing.
pub struct MatrixBackend {
    width: u32,
    height: u32,
    fps: FpsCounter,
    stopped: bool,
    displayed: Ghost<Option<FrameView>>,
}

/// What the hardware thread must do with one received frame.
#[derive(Debug, PartialEq, Eq)]
pub enum MatrixStep {
    /// Copy every pixel of the frame to the back canvas at the identical
    /// coordinate, swap the canvases, and, when the flag is set, report FPS
    /// and restart the measurement window.
    PaintAndSwap(bool),
    /// The frame does not match the geometry: do not touch the hardware.
    Reject(PipelineError),
}

impl MatrixBackend {
    pub closed spec fn spec_width(self) -> u32 {
        self.width
    }

    pub closed spec fn spec_height(self) -> u32 {
        self.height
    }

    pub closed spec fn frames_in_window(self) -> u32 {
        self.fps.count()
    }

    pub closed spec fn is_stopped(self) -> bool {
        self.stopped
    }

    /// What the display shows: the last frame that was painted and
    /// swapped in, if any.
    pub closed spec fn displayed(self) -> Option<FrameView> {
        self.displayed@
    }

    pub open spec fn wf(self) -> bool {
        self.frames_in_window() < 256
    }

    pub fn new(width: u32, height: u32) -> (b: MatrixBackend)
        ensures
            b.wf(),
            b.spec_width() == width,
            b.spec_height() == height,
            b.frames_in_window() == 0,
            !b.is_stopped(),
            b.displayed() is None,
    {
        MatrixBackend {
            width,
            height,
            fps: FpsCounter::new(),
            stopped: false,
            displayed: Ghost(None),
        }
    }

    /// Decide what to do with one frame received from the channel. A frame
    /// of the configured shape is painted and swapped; any other shape is
    /// rejected before it reaches the canvas.
    pub fn on_frame(&mut self, frame: &RgbFrame) -> (step: MatrixStep)
        requires
            old(self).wf(),
            !old(self).is_stopped(),
        ensures
            final(self).wf(),
            final(self).spec_width() == old(self).spec_width(),
            final(self).spec_height() == old(self).spec_height(),
            !final(self).is_stopped(),
            frame@.width == old(self).spec_width() && frame@.height == old(self).spec_height()
                ==> step == MatrixStep::PaintAndSwap(old(self).frames_in_window() + 1 == 256)
                && final(self).displayed() == Some(frame@)
                && final(self).frames_in_window() == (if old(self).frames_in_window() + 1 == 256 {
                0u32
            } else {
                (old(self).frames_in_window() + 1) as u32
            }),
            !(frame@.width == old(self).spec_width() && frame@.height == old(self).spec_height())
                ==> step == MatrixStep::Reject(PipelineError::ShapeMismatch)
                && final(self).displayed() == old(self).displayed()
                && final(self).frames_in_window() == old(self).frames_in_window(),
    {
        if frame.width() != self.width || frame.height() != self.height {
            return MatrixStep::Reject(PipelineError::ShapeMismatch);
        }
        let fired = self.fps.tick();
        proof {
            self.displayed@ = Some(frame@);
        }
        MatrixStep::PaintAndSwap(fired)
    }

    /// The channel closed: the thread exits; the last painted frame simply
    /// remains displayed.
    pub fn on_closed(&mut self)
        requires
            old(self).wf(),
        ensures
            final(self).wf(),
            final(self).is_stopped(),
            final(self).spec_width() == old(self).spec_width(),
            final(self).spec_height() == old(self).spec_height(),
            final(self).frames_in_window() == old(self).frames_in_window(),
            final(self).displayed() == old(self).displayed(),
    {
        self.stopped = true;
    }
}

} // verus!
