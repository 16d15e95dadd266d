//! Network frame source decisions. The transport loop reads exactly
//! `width * height * 3` bytes per frame — framing is purely by byte count —
//! and forwards each complete read downstream; when the stream ends or
//! fails, exactly one all-black frame is forwarded before returning to
//! accept the next connection, so the display blanks instead of freezing
//! on the last frame.

use crate::frame::{rgb_len, RgbFrame};
use vstd::prelude::*;

verus! {

/// One thing the transport observed on the wire.
#[derive(Debug)]
pub enum StreamEvent {
    /// A complete read of one frame's worth of bytes.
    Payload(Vec<u8>),
    /// The connection closed or the read failed.
    End,
}

/// What the source forwards into the pipeline in response.
#[derive(Debug, PartialEq, Eq)]
pub enum SourceAction {
    /// Submit this decoded frame.
    Forward(RgbFrame),
    /// Submit this blanking frame, then go back to accepting connections.
    Blank(RgbFrame),
    /// The payload cannot be a frame of the configured size; forward
    /// nothing.
    Reject,
}

/// Decide what one stream event means for the pipeline: a full payload
/// becomes a frame with exactly those bytes; the end of the stream becomes
/// one all-black frame of the configured geometry.
pub fn source_step(width: u32, height: u32, event: StreamEvent) -> (a: SourceAction)
    requires
        rgb_len(width as nat, height as nat) <= usize::MAX,
    ensures
        event is End ==> a is Blank && {
            let f = a->Blank_0;
            &&& f.wf()
            &&& f@.width == width
            &&& f@.height == height
            &&& f.is_black()
        },
        event matches StreamEvent::Payload(b) ==> (if b@.len() == rgb_len(
            width as nat,
            height as nat,
        ) {
            a is Forward && {
                let f = a->Forward_0;
                &&& f.wf()
                &&& f@.width == width
                &&& f@.height == height
                &&& f@.bytes == b@
            }
        } else {
            a is Reject
        }),
{
    match event {
        StreamEvent::Payload(bytes) => {
            match RgbFrame::from_raw(width, height, bytes) {
                Some(frame) => SourceAction::Forward(frame),
                None => SourceAction::Reject,
            }
        },
        StreamEvent::End => SourceAction::Blank(RgbFrame::black(width, height)),
    }
}

} // verus!
