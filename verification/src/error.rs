//! Error taxonomy of the frame pipeline.

use vstd::prelude::*;

verus! {

/// Everything that can go wrong in the pipeline.
#[derive(Clone, Copy, Debug, PartialEq, Eq, Structural)]
pub enum PipelineError {
    /// The hardware device or bus could not be opened or configured;
    /// fatal, raised synchronously during construction.
    DeviceInit,
    /// The consuming hardware thread has terminated; raised to producers on
    /// `submit`. Producers must stop submitting and propagate upward.
    ChannelClosed,
    /// A submitted frame's dimensions do not match the backend's fixed
    /// geometry; the frame is rejected at the boundary, never cropped or
    /// scaled.
    ShapeMismatch,
    /// An SPI/GPIO write failed during the hardware protocol sequence;
    /// fatal to that backend's thread, surfaced to producers as a closed
    /// channel.
    IoTransmission,
    /// A network stream delivering frames failed or closed; recovered
    /// locally by blanking the display.
    Stream,
}

} // verus!
