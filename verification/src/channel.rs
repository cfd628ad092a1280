//! Bounded, ordered event channel model: the queue carrying raw frames from
//! the subscriber to the dispatcher.
//!
//! The channel is a strict FIFO with a fixed capacity. A send on a full
//! channel fails and hands the frame back — the caller must wait, which is
//! the system's backpressure — and a receive on an empty channel yields
//! nothing.

use crate::events::{Event, FrameView};
use vstd::prelude::*;

verus! {

/// A bounded FIFO of raw frames.
pub struct EventChannel {
    buf: Vec<Event>,
    capacity: usize,
}

impl EventChannel {
    /// The frames currently queued, oldest first.
    pub closed spec fn contents(self) -> Seq<FrameView> {
        self.buf@.map_values(|f: Event| f@)
    }

    /// The fixed capacity the channel was created with.
    pub closed spec fn cap(self) -> int {
        self.capacity as int
    }

    /// The queue never exceeds its capacity.
    pub open spec fn wf(self) -> bool {
        self.contents().len() <= self.cap() && self.cap() >= 1
    }

    /// An empty channel with the given capacity.
    pub fn new(capacity: usize) -> (r: EventChannel)
        requires
            capacity >= 1,
        ensures
            r.wf(),
            r.cap() == capacity,
            r.contents() == Seq::<FrameView>::empty(),
    {
        let r = EventChannel { buf: Vec::new(), capacity };
        assert(r.contents() =~= Seq::<FrameView>::empty());
        r
    }

    /// How many frames are queued.
    pub fn len(&self) -> (r: usize)
        ensures
            r == self.contents().len(),
    {
        self.buf.len()
    }

    /// Whether the channel is at capacity, so that a send would fail.
    pub fn is_full(&self) -> (r: bool)
        ensures
            r == (self.contents().len() == self.cap()),
    {
        self.buf.len() == self.capacity
    }

    /// Enqueues a frame at the back, or hands it back unchanged when the
    /// channel is full.
    pub fn send(&mut self, f: Event) -> (r: Result<(), Event>)
        requires
            old(self).wf(),
        ensures
            final(self).wf(),
            final(self).cap() == old(self).cap(),
            old(self).contents().len() < old(self).cap() ==> r is Ok && final(self).contents()
                == old(self).contents().push(f@),
            old(self).contents().len() == old(self).cap() ==> r == Err::<(), Event>(f)
                && final(self).contents() == old(self).contents(),
    {
        if self.buf.len() == self.capacity {
            Err(f)
        } else {
            self.buf.push(f);
            assert(self.contents() =~= old(self).contents().push(f@));
            Ok(())
        }
    }

    /// Dequeues the oldest frame, or yields nothing when the channel is
    /// empty.
    pub fn recv(&mut self) -> (r: Option<Event>)
        requires
            old(self).wf(),
        ensures
            final(self).wf(),
            final(self).cap() == old(self).cap(),
            old(self).contents().len() == 0 ==> r is None && final(self).contents()
                == old(self).contents(),
            old(self).contents().len() > 0 ==> r is Some && r.unwrap()@ == old(self).contents()[0]
                && final(self).contents() == old(self).contents().drop_first(),
    {
        if self.buf.len() == 0 {
            None
        } else {
            let f = self.buf.remove(0);
            assert(self.contents() =~= old(self).contents().drop_first());
            Some(f)
        }
    }
}

} // verus!
