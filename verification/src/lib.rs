//! Real-time LED frame pipeline: feature-to-pixel rendering support,
//! single-slot frame handoff channels with two backpressure policies,
//! and the hardware encoding layers for a row/column LED matrix and a
//! bit-plane-multiplexed parallel LED-strip bus.

pub mod channel;
pub mod error;
pub mod fps;
pub mod frame;
pub mod matrix;
pub mod protocol;
pub mod render;
pub mod source;
pub mod strip;
