//! The delivery channel: a bounded, ordered FIFO of measurement events
//! between the decoding producer and the persisting consumer.
//!
//! The queue never drops or reorders: an enqueue against a full queue is
//! refused and hands the event back unchanged, so the producer suspends and
//! retries instead of losing data; a dequeue returns the oldest event.

use vstd::prelude::*;
use crate::decode::MeasurementEvent;

verus! {

/// Default capacity of the delivery channel.
pub const CHANNEL_CAPACITY: usize = 10240;

/// A bounded FIFO queue of measurement events.
pub struct BoundedFifo {
    buf: Vec<MeasurementEvent>,
    capacity: usize,
}

impl BoundedFifo {
    /// The queued events, oldest first.
    pub closed spec fn view(&self) -> Seq<MeasurementEvent> {
        self.buf@
    }

    /// The fixed capacity the queue was created with.
    pub closed spec fn cap(&self) -> nat {
        self.capacity as nat
    }

    /// The queue never holds more than its capacity.
    pub open spec fn wf(&self) -> bool {
        &&& self.view().len() <= self.cap()
        &&& self.cap() >= 1
    }

    /// True when an enqueue would be refused.
    pub open spec fn is_full(&self) -> bool {
        self.view().len() == self.cap()
    }

    /// True when a dequeue would find nothing.
    pub open spec fn is_empty(&self) -> bool {
        self.view().len() == 0
    }

    /// An empty queue of the given capacity.
    pub fn new(capacity: usize) -> (q: BoundedFifo)
        requires
            capacity >= 1,
        ensures
            q.wf(),
            q.cap() == capacity,
            q.view() == Seq::<MeasurementEvent>::empty(),
    {
        BoundedFifo { buf: Vec::new(), capacity }
    }

    /// How many events are queued.
    pub fn len(&self) -> (n: usize)
        ensures
            n == self.view().len(),
    {
        self.buf.len()
    }

    /// Enqueue one event. Against a full queue nothing changes and the event
    /// comes back to the caller — it is never dropped or overwritten; the
    /// caller suspends and offers it again. Otherwise the event joins the
    /// back of the queue.
    pub fn try_push(&mut self, ev: MeasurementEvent) -> (refused: Option<MeasurementEvent>)
        requires
            old(self).wf(),
        ensures
            final(self).wf(),
            final(self).cap() == old(self).cap(),
            if old(self).is_full() {
                &&& refused == Some(ev)
                &&& final(self).view() == old(self).view()
            } else {
                &&& refused is None
                &&& final(self).view() == old(self).view().push(ev)
            },
    {
        if self.buf.len() == self.capacity {
            Some(ev)
        } else {
            self.buf.push(ev);
            None
        }
    }

    /// Dequeue the oldest event; `None` on an empty queue. Arrival order is
    /// preserved: what comes out first went in first.
    pub fn pop(&mut self) -> (ev: Option<MeasurementEvent>)
        requires
            old(self).wf(),
        ensures
            final(self).wf(),
            final(self).cap() == old(self).cap(),
            if old(self).is_empty() {
                &&& ev is None
                &&& final(self).view() == old(self).view()
            } else {
                &&& ev == Some(old(self).view()[0])
                &&& final(self).view() == old(self).view().drop_first()
            },
    {
        if self.buf.len() == 0 {
            None
        } else {
            let e = self.buf.remove(0);
            proof {
                assert(self.buf@ =~= old(self).view().drop_first());
            }
            Some(e)
        }
    }
}

} // verus!
