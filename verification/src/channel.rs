//! Single-slot handoff queue between one producer and one consumer, with the
//! two full-queue policies: *block* (the producer must wait until the consumer
//! has drained the slot — no accepted frame is ever lost) and *drop-newest*
//! (a frame arriving at a full slot is discarded — the call never waits).
//!
//! The slot carries ghost histories of the frames offered to it, the mask of
//! which of them it kept, and the frames it accepted and delivered; its
//! well-formedness ties them together, so in-order, at-most-one-pending,
//! loss-only-by-drop delivery is an invariant of every reachable slot.

use crate::error::PipelineError;
use vstd::prelude::*;

verus! {

/// Full-queue policy of a frame channel.
#[derive(Clone, Copy, Debug, PartialEq, Eq, Structural)]
pub enum Policy {
    /// The producer waits for the consumer to drain, then installs the frame.
    Block,
    /// A frame that finds the slot occupied is discarded.
    DropNewest,
}

/// What became of one `submit` call.
#[derive(Clone, Copy, Debug, PartialEq, Eq, Structural)]
pub enum SubmitOutcome {
    /// The frame now occupies the slot.
    Accepted,
    /// Block policy, slot occupied: nothing changed; the caller must let the
    /// consumer drain and then retry with the same frame.
    MustWait,
    /// Drop-newest policy, slot occupied: the frame was discarded.
    Dropped,
}

/// The subsequence of `s` whose positions are marked in `mask`, in order.
pub open spec fn masked<T>(s: Seq<T>, mask: Seq<bool>) -> Seq<T>
    decreases s.len(),
{
    if s.len() == 0 {
        Seq::empty()
    } else if mask[s.len() - 1] {
        masked(s.drop_last(), mask).push(s.last())
    } else {
        masked(s.drop_last(), mask)
    }
}

/// `masked` reads the mask only below the sequence's length.
proof fn lemma_masked_agree<T>(s: Seq<T>, m1: Seq<bool>, m2: Seq<bool>)
    requires
        forall|i: int| 0 <= i < s.len() ==> m1[i] == m2[i],
    ensures
        masked(s, m1) == masked(s, m2),
    decreases s.len(),
{
    if s.len() > 0 {
        lemma_masked_agree(s.drop_last(), m1, m2);
    }
}

/// Appending an offer extends the masked subsequence exactly when the
/// offer was kept.
proof fn lemma_masked_push<T>(s: Seq<T>, m: Seq<bool>, v: T, keep: bool)
    requires
        m.len() == s.len(),
    ensures
        masked(s.push(v), m.push(keep)) == if keep {
            masked(s, m).push(v)
        } else {
            masked(s, m)
        },
{
    let s2 = s.push(v);
    let m2 = m.push(keep);
    assert(s2.drop_last() =~= s);
    assert(s2.last() == v);
    assert(m2[s2.len() - 1] == keep);
    lemma_masked_agree(s, m2, m);
}

/// The single-slot channel: holds at most one pending frame.
pub struct FrameSlot<T> {
    policy: Policy,
    slot: Option<T>,
    closed: bool,
    offered: Ghost<Seq<T>>,
    kept: Ghost<Seq<bool>>,
    accepted: Ghost<Seq<T>>,
    delivered: Ghost<Seq<T>>,
}

impl<T> FrameSlot<T> {
    pub closed spec fn policy(self) -> Policy {
        self.policy
    }

    pub closed spec fn is_closed(self) -> bool {
        self.closed
    }

    /// The frames waiting in the slot, oldest first (at most one).
    pub closed spec fn pending(self) -> Seq<T> {
        match self.slot {
            Some(v) => seq![v],
            None => Seq::empty(),
        }
    }

    /// Every frame a producer offered to the open channel, in order
    /// (an offer answered `MustWait` resolves only on the retry and is
    /// not counted twice).
    pub closed spec fn offered(self) -> Seq<T> {
        self.offered@
    }

    /// For each offered frame, whether the slot took it (`true`) or
    /// discarded it under the drop-newest policy (`false`).
    pub closed spec fn kept(self) -> Seq<bool> {
        self.kept@
    }

    /// Every frame the slot ever accepted, in submission order.
    pub closed spec fn accepted(self) -> Seq<T> {
        self.accepted@
    }

    /// Every frame the consumer drained, in delivery order.
    pub closed spec fn delivered(self) -> Seq<T> {
        self.delivered@
    }

    /// Frames pass through unchanged and in order: the accepted frames are
    /// exactly the offered frames with the dropped ones struck out, and
    /// what was accepted is exactly what was delivered followed by what is
    /// still pending.
    pub open spec fn wf(self) -> bool {
        &&& self.kept().len() == self.offered().len()
        &&& self.accepted() == masked(self.offered(), self.kept())
        &&& self.accepted() == self.delivered() + self.pending()
    }

    /// An empty, open slot with the given policy.
    pub fn new(policy: Policy) -> (s: FrameSlot<T>)
        ensures
            s.wf(),
            s.policy() == policy,
            !s.is_closed(),
            s.pending() == Seq::<T>::empty(),
            s.offered() == Seq::<T>::empty(),
            s.accepted() == Seq::<T>::empty(),
            s.delivered() == Seq::<T>::empty(),
    {
        let s = FrameSlot {
            policy,
            slot: None,
            closed: false,
            offered: Ghost(Seq::empty()),
            kept: Ghost(Seq::empty()),
            accepted: Ghost(Seq::empty()),
            delivered: Ghost(Seq::empty()),
        };
        proof {
            assert(s.accepted() =~= s.delivered() + s.pending());
            assert(s.accepted() =~= masked(s.offered(), s.kept()));
        }
        s
    }

    /// Offer a frame to the slot. An empty open slot accepts it; an occupied
    /// open slot answers `MustWait` under the block policy (nothing changes,
    /// the producer retries the same frame) and `Dropped` under drop-newest
    /// (the frame is discarded); a closed slot fails with `ChannelClosed` so
    /// the producer stops submitting.
    pub fn submit(&mut self, v: T) -> (r: Result<SubmitOutcome, PipelineError>)
        requires
            old(self).wf(),
        ensures
            final(self).wf(),
            final(self).policy() == old(self).policy(),
            final(self).is_closed() == old(self).is_closed(),
            final(self).delivered() == old(self).delivered(),
            r is Err <==> old(self).is_closed(),
            r is Err ==> r == Err::<SubmitOutcome, PipelineError>(PipelineError::ChannelClosed)
                && final(self).pending() == old(self).pending()
                && final(self).accepted() == old(self).accepted()
                && final(self).offered() == old(self).offered(),
            r == Ok::<SubmitOutcome, PipelineError>(SubmitOutcome::Accepted)
                <==> !old(self).is_closed() && old(self).pending().len() == 0,
            r == Ok::<SubmitOutcome, PipelineError>(SubmitOutcome::Accepted)
                ==> final(self).pending() == seq![v]
                && final(self).accepted() == old(self).accepted().push(v)
                && final(self).offered() == old(self).offered().push(v)
                && final(self).kept() == old(self).kept().push(true),
            r == Ok::<SubmitOutcome, PipelineError>(SubmitOutcome::MustWait)
                <==> !old(self).is_closed() && old(self).pending().len() == 1
                && old(self).policy() == Policy::Block,
            r == Ok::<SubmitOutcome, PipelineError>(SubmitOutcome::MustWait)
                ==> final(self).offered() == old(self).offered(),
            r == Ok::<SubmitOutcome, PipelineError>(SubmitOutcome::Dropped)
                <==> !old(self).is_closed() && old(self).pending().len() == 1
                && old(self).policy() == Policy::DropNewest,
            r == Ok::<SubmitOutcome, PipelineError>(SubmitOutcome::Dropped)
                ==> final(self).offered() == old(self).offered().push(v)
                && final(self).kept() == old(self).kept().push(false),
            r != Ok::<SubmitOutcome, PipelineError>(SubmitOutcome::Accepted)
                ==> final(self).pending() == old(self).pending()
                && final(self).accepted() == old(self).accepted(),
    {
        if self.closed {
            return Err(PipelineError::ChannelClosed);
        }
        match self.slot {
            None => {
                proof {
                    self.offered@ = self.offered@.push(v);
                    self.kept@ = self.kept@.push(true);
                    self.accepted@ = self.accepted@.push(v);
                }
                self.slot = Some(v);
                proof {
                    assert(self.accepted() =~= self.delivered() + self.pending());
                    lemma_masked_push(old(self).offered(), old(self).kept(), v, true);
                }
                Ok(SubmitOutcome::Accepted)
            },
            Some(_) => {
                match self.policy {
                    Policy::Block => Ok(SubmitOutcome::MustWait),
                    Policy::DropNewest => {
                        proof {
                            self.offered@ = self.offered@.push(v);
                            self.kept@ = self.kept@.push(false);
                            lemma_masked_push(old(self).offered(), old(self).kept(), v, false);
                        }
                        Ok(SubmitOutcome::Dropped)
                    },
                }
            },
        }
    }

    /// Take the pending frame, if any; the consumer thread is the sole caller.
    pub fn drain(&mut self) -> (r: Option<T>)
        requires
            old(self).wf(),
        ensures
            final(self).wf(),
            final(self).policy() == old(self).policy(),
            final(self).is_closed() == old(self).is_closed(),
            final(self).accepted() == old(self).accepted(),
            final(self).offered() == old(self).offered(),
            final(self).pending() == Seq::<T>::empty(),
            old(self).pending().len() == 1
                ==> r == Some::<T>(old(self).pending()[0])
                && final(self).delivered() == old(self).delivered().push(old(self).pending()[0]),
            old(self).pending().len() == 0
                ==> r is None && final(self).delivered() == old(self).delivered(),
    {
        let taken = self.slot.take();
        match taken {
            Some(v) => {
                proof {
                    self.delivered@ = self.delivered@.push(v);
                    assert(self.accepted() =~= self.delivered() + self.pending());
                }
                Some(v)
            },
            None => None,
        }
    }

    /// Whether the channel has been closed.
    pub fn closed(&self) -> (r: bool)
        ensures
            r == self.is_closed(),
    {
        self.closed
    }

    /// Mark the channel closed: the consumer is gone, and every later
    /// `submit` fails with `ChannelClosed`.
    pub fn close(&mut self)
        requires
            old(self).wf(),
        ensures
            final(self).wf(),
            final(self).is_closed(),
            final(self).policy() == old(self).policy(),
            final(self).pending() == old(self).pending(),
            final(self).offered() == old(self).offered(),
            final(self).accepted() == old(self).accepted(),
            final(self).delivered() == old(self).delivered(),
    {
        self.closed = true;
    }
}

/// Frames are delivered in submission order with no reordering: in every
/// reachable slot state, what the consumer has seen is exactly the first
/// `delivered().len()` frames that were accepted, and at most one accepted
/// frame is still undelivered.
pub proof fn lemma_delivery_in_order<T>(s: FrameSlot<T>)
    requires
        s.wf(),
    ensures
        s.delivered() == s.accepted().take(s.delivered().len() as int),
        s.accepted().len() - s.delivered().len() == s.pending().len(),
        s.pending().len() <= 1,
{
    assert(s.delivered() =~= s.accepted().take(s.delivered().len() as int));
}

/// No accepted frame is ever lost: every frame the slot accepted has either
/// been delivered to the consumer or is the one still pending. Under the
/// block policy every offered frame is eventually accepted (the producer
/// retries on `MustWait`), so no frame is skipped; under drop-newest only
/// frames answered `Dropped` are missing, and they never entered the slot.
pub proof fn lemma_no_accepted_frame_lost<T>(s: FrameSlot<T>)
    requires
        s.wf(),
    ensures
        s.accepted() == s.delivered() + s.pending(),
{
}

/// Loss without reordering: in every reachable slot state the accepted
/// frames are exactly the offered frames with the drop-newest discards
/// struck out, in offer order. The consumer can therefore observe the loss
/// of a frame that was answered `Dropped`, but never a reordering; and
/// when every offer was kept — as under the block policy — the slot
/// accepted the offered sequence unchanged.
pub proof fn lemma_only_dropped_offers_are_lost<T>(s: FrameSlot<T>)
    requires
        s.wf(),
    ensures
        s.accepted() == masked(s.offered(), s.kept()),
        (forall|i: int| 0 <= i < s.kept().len() ==> s.kept()[i]) ==> s.accepted() == s.offered(),
{
    if forall|i: int| 0 <= i < s.kept().len() ==> s.kept()[i] {
        lemma_masked_all_kept(s.offered(), s.kept());
    }
}

/// A mask that keeps every position leaves the sequence unchanged.
proof fn lemma_masked_all_kept<T>(s: Seq<T>, m: Seq<bool>)
    requires
        m.len() == s.len(),
        forall|i: int| 0 <= i < m.len() ==> m[i],
    ensures
        masked(s, m) == s,
    decreases s.len(),
{
    if s.len() > 0 {
        lemma_masked_agree(s.drop_last(), m, m.drop_last());
        lemma_masked_all_kept(s.drop_last(), m.drop_last());
        assert(masked(s, m) =~= s);
    } else {
        assert(masked(s, m) =~= s);
    }
}

} // verus!
