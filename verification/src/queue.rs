//! The bounded inbound frame queue.
//!
//! The transport invokes its receive callback on its own execution context;
//! rather than mutating the shared engine state from there, the callback
//! parks the raw frame here and the listen role drains the queue inside its
//! own lock scope.  The queue is bounded and never blocks the callback: a
//! frame arriving while it is full is dropped.

use std::collections::VecDeque;
use vstd::prelude::*;

verus! {

/// One raw inbound frame: its sender and its undecoded bytes.
pub struct InboundFrame {
    pub src: [u8; 6],
    pub data: Vec<u8>,
}

/// Mathematical image of an `InboundFrame`.
pub ghost struct InboundFrameV {
    pub src: Seq<u8>,
    pub data: Seq<u8>,
}

impl View for InboundFrame {
    type V = InboundFrameV;

    open spec fn view(&self) -> InboundFrameV {
        InboundFrameV { src: self.src@, data: self.data@ }
    }
}

/// First-in, first-out buffer of inbound frames with a hard bound.
pub struct InboundQueue {
    pub frames: VecDeque<InboundFrame>,
    pub capacity: usize,
}

impl InboundQueue {
    /// The parked frames, oldest first.
    pub open spec fn model(self) -> Seq<InboundFrameV> {
        self.frames@.map_values(|f: InboundFrame| f@)
    }

    /// The queue invariant.
    pub open spec fn wf(self) -> bool {
        self.capacity >= 1 && self.model().len() <= self.capacity
    }

    /// An empty queue holding at most `capacity` frames.
    pub fn new(capacity: usize) -> (q: InboundQueue)
        requires
            capacity >= 1,
        ensures
            q.wf(),
            q.model() == Seq::<InboundFrameV>::empty(),
            q.capacity == capacity,
    {
        let q = InboundQueue { frames: VecDeque::new(), capacity };
        proof {
            assert(q.model() =~= Seq::<InboundFrameV>::empty());
        }
        q
    }

    /// How many frames are parked.
    pub fn len(&self) -> (n: usize)
        ensures
            n == self.model().len(),
    {
        self.frames.len()
    }

    /// Parks one frame at the back; a full queue drops it instead.
    pub fn offer(&mut self, frame: InboundFrame) -> (accepted: bool)
        requires
            old(self).wf(),
        ensures
            final(self).wf(),
            final(self).capacity == old(self).capacity,
            accepted == (old(self).model().len() < old(self).capacity),
            accepted ==> final(self).model() == old(self).model().push(frame@),
            !accepted ==> final(self).model() == old(self).model(),
    {
        if self.frames.len() < self.capacity {
            let ghost pre = self.model();
            let ghost frame_v = frame@;
            self.frames.push_back(frame);
            proof {
                assert(self.model() =~= pre.push(frame_v));
            }
            true
        } else {
            false
        }
    }

    /// Takes the oldest parked frame, if any.
    pub fn take(&mut self) -> (frame: Option<InboundFrame>)
        requires
            old(self).wf(),
        ensures
            final(self).wf(),
            final(self).capacity == old(self).capacity,
            match frame {
                Some(f) => old(self).model().len() > 0 && f@ == old(self).model()[0]
                    && final(self).model() == old(self).model().drop_first(),
                None => old(self).model().len() == 0 && final(self).model() == old(self).model(),
            },
    {
        let ghost pre = self.model();
        let taken = self.frames.pop_front();
        proof {
            if pre.len() > 0 {
                assert(self.model() =~= pre.drop_first());
            } else {
                assert(self.model() =~= pre);
            }
        }
        taken
    }
}

} // verus!
