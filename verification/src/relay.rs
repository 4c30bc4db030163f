//! The latest-wins hand-off between the decoding side and the renderer.
//!
//! Only the freshest frame matters to a renderer that runs at its own
//! cadence, so the relay is a single slot: publishing overwrites any
//! frame that was not yet taken, and taking empties the slot. The
//! producer side can be closed, which the consumer observes once the
//! slot is drained.

use vstd::prelude::*;
use crate::lidar::LidarFrame;

verus! {

/// What a consumer poll observes: the freshest frame, nothing new yet,
/// or a producer that is gone for good.
pub enum TakeResult {
    Frame(LidarFrame),
    Empty,
    Closed,
}

/// A single-slot, latest-wins frame relay.
pub struct Relay {
    pub slot: Option<LidarFrame>,
    pub closed: bool,
}

/// The relay after `frame` is published into `r`.
pub open spec fn spec_publish(r: Relay, frame: LidarFrame) -> Relay {
    Relay { slot: Some(frame), closed: r.closed }
}

/// The relay and observation after one consumer poll of `r`.
pub open spec fn spec_take(r: Relay) -> (Relay, TakeResult) {
    match r.slot {
        Some(f) => (Relay { slot: None, closed: r.closed }, TakeResult::Frame(f)),
        None => (
            r,
            if r.closed {
                TakeResult::Closed
            } else {
                TakeResult::Empty
            },
        ),
    }
}

impl Relay {
    /// A fresh relay: nothing published, producer present.
    pub fn new() -> (r: Relay)
        ensures
            r.slot is None,
            !r.closed,
    {
        Relay { slot: None, closed: false }
    }

    /// Publishes a frame. Never blocks and never fails: any frame still
    /// in the slot is discarded in its favor.
    pub fn publish(&mut self, frame: LidarFrame)
        ensures
            *final(self) == spec_publish(*old(self), frame),
    {
        self.slot = Some(frame);
    }

    /// Returns the most recently published frame not yet taken, or says
    /// whether the relay is merely empty or closed for good. Never
    /// blocks.
    pub fn try_take_latest(&mut self) -> (r: TakeResult)
        ensures
            (*final(self), r) == spec_take(*old(self)),
    {
        let taken = self.slot.take();
        match taken {
            Some(f) => TakeResult::Frame(f),
            None => if self.closed {
                TakeResult::Closed
            } else {
                TakeResult::Empty
            },
        }
    }

    /// Marks the producer side as permanently gone. A frame already in
    /// the slot is still delivered first.
    pub fn close(&mut self)
        ensures
            final(self).closed,
            final(self).slot == old(self).slot,
    {
        self.closed = true;
    }
}

/// Freshness law: when two frames are published before the consumer
/// polls, the poll observes only the second; the first is discarded,
/// never delivered, and the slot is left empty.
pub proof fn lemma_relay_freshness(r: Relay, f1: LidarFrame, f2: LidarFrame)
    ensures
        spec_take(spec_publish(spec_publish(r, f1), f2)).1 == TakeResult::Frame(f2),
        spec_take(spec_publish(spec_publish(r, f1), f2)).0.slot is None,
{
}

} // verus!
