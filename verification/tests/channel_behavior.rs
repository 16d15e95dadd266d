use vuzic::channel::{FrameSlot, Policy, SubmitOutcome};
use vuzic::error::PipelineError;

#[test]
fn block_policy_keeps_every_frame_in_order() {
    // A producer that waits on MustWait and retries loses nothing, and the
    // consumer sees frames exactly in submission order.
    let mut slot: FrameSlot<u32> = FrameSlot::new(Policy::Block);
    let mut seen: Vec<u32> = Vec::new();
    for frame in 1..=5u32 {
        loop {
            match slot.submit(frame).unwrap() {
                SubmitOutcome::Accepted => break,
                SubmitOutcome::MustWait => {
                    // the consumer drains, then the producer retries
                    seen.push(slot.drain().unwrap());
                }
                SubmitOutcome::Dropped => unreachable!("block policy never drops"),
            }
        }
    }
    while let Some(v) = slot.drain() {
        seen.push(v);
    }
    assert_eq!(seen, vec![1, 2, 3, 4, 5]);
}

#[test]
fn block_policy_reports_must_wait_when_full() {
    let mut slot: FrameSlot<u32> = FrameSlot::new(Policy::Block);
    assert_eq!(slot.submit(1).unwrap(), SubmitOutcome::Accepted);
    assert_eq!(slot.submit(2).unwrap(), SubmitOutcome::MustWait);
    assert_eq!(slot.drain(), Some(1));
    assert_eq!(slot.submit(2).unwrap(), SubmitOutcome::Accepted);
    assert_eq!(slot.drain(), Some(2));
    assert_eq!(slot.drain(), None);
}

#[test]
fn drop_newest_discards_at_full_slot_never_reorders() {
    // Rapid submission with a slow consumer: the consumer observes the
    // first and the most recent frame; intermediate frames are dropped;
    // nothing is delivered out of order.
    let mut slot: FrameSlot<u32> = FrameSlot::new(Policy::DropNewest);
    assert_eq!(slot.submit(1).unwrap(), SubmitOutcome::Accepted);
    assert_eq!(slot.submit(2).unwrap(), SubmitOutcome::Dropped);
    assert_eq!(slot.submit(3).unwrap(), SubmitOutcome::Dropped);
    assert_eq!(slot.drain(), Some(1));
    assert_eq!(slot.submit(4).unwrap(), SubmitOutcome::Accepted);
    assert_eq!(slot.drain(), Some(4));
    assert_eq!(slot.drain(), None);
}

#[test]
fn closed_channel_rejects_submissions() {
    let mut slot: FrameSlot<u32> = FrameSlot::new(Policy::Block);
    assert_eq!(slot.submit(1).unwrap(), SubmitOutcome::Accepted);
    slot.close();
    assert_eq!(slot.submit(2), Err(PipelineError::ChannelClosed));
    // the frame accepted before the close is still drained
    assert_eq!(slot.drain(), Some(1));
}
