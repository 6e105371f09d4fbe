//! Streaming delivery channel: a bounded, ordered, single-producer /
//! single-consumer buffer between the generation task and the response
//! transport.  Sends after the consumer is gone fail silently, and events
//! leave the channel in exactly the order they entered it.  The
//! asynchronous transport that carries the events over HTTP lives outside
//! the library; this model is the contract it is held to.

use vstd::prelude::*;

verus! {

/// The abstract content of a channel: the events sent but not yet
/// delivered, the capacity, and whether the consumer is still attached.
#[verifier::ext_equal]
pub ghost struct ChannelView<T> {
    pub pending: Seq<T>,
    pub capacity: int,
    pub open: bool,
}

/// The abstract effect of a send: appended when the consumer is attached
/// and the buffer has room, dropped otherwise.
pub open spec fn send_spec<T>(v: ChannelView<T>, item: T) -> ChannelView<T> {
    if v.open && v.pending.len() < v.capacity {
        ChannelView { pending: v.pending.push(item), capacity: v.capacity, open: v.open }
    } else {
        v
    }
}

/// The abstract effect of a receive: the oldest pending event leaves the
/// buffer first.
pub open spec fn recv_spec<T>(v: ChannelView<T>) -> (ChannelView<T>, Option<T>) {
    if v.pending.len() == 0 {
        (v, None)
    } else {
        (
            ChannelView { pending: v.pending.drop_first(), capacity: v.capacity, open: v.open },
            Some(v.pending[0]),
        )
    }
}

/// Law: delivery is first-in first-out.  If two events are sent into a
/// channel with room for both, the next two receives return exactly those
/// two events, in the order they were sent.
pub proof fn lemma_fifo_order<T>(v: ChannelView<T>, a: T, b: T)
    requires
        v.open,
        v.pending.len() == 0,
        v.capacity >= 2,
    ensures
        ({
            let after_sends = send_spec(send_spec(v, a), b);
            let first = recv_spec(after_sends);
            let second = recv_spec(first.0);
            first.1 == Some(a) && second.1 == Some(b)
        }),
{
    let after_sends = send_spec(send_spec(v, a), b);
    assert(after_sends.pending =~= seq![a, b]);
    assert(recv_spec(after_sends).0.pending =~= seq![b]);
}

/// A bounded FIFO channel of events.
pub struct StreamingChannel<T> {
    pending: Vec<T>,
    capacity: usize,
    open: bool,
}

impl<T> View for StreamingChannel<T> {
    type V = ChannelView<T>;

    closed spec fn view(&self) -> ChannelView<T> {
        ChannelView { pending: self.pending@, capacity: self.capacity as int, open: self.open }
    }
}

impl<T> StreamingChannel<T> {
    /// A fresh channel of the given capacity, with the consumer attached.
    pub fn new(capacity: usize) -> (c: Self)
        ensures
            c@.pending == Seq::<T>::empty(),
            c@.capacity == capacity,
            c@.open,
    {
        let pending: Vec<T> = Vec::new();
        proof {
            assert(pending@ =~= Seq::<T>::empty());
        }
        StreamingChannel { pending, capacity, open: true }
    }

    /// Sends one event.  Returns whether it was accepted: a send onto a
    /// closed channel is dropped silently, and a send onto a full buffer
    /// is refused so the producer can wait for the consumer to drain.
    pub fn send(&mut self, item: T) -> (accepted: bool)
        ensures
            final(self)@ == send_spec(old(self)@, item),
            accepted == (old(self)@.open && old(self)@.pending.len() < old(self)@.capacity),
    {
        if self.open && self.pending.len() < self.capacity {
            self.pending.push(item);
            true
        } else {
            false
        }
    }

    /// Receives the oldest pending event, if any.
    pub fn recv(&mut self) -> (r: Option<T>)
        ensures
            final(self)@ == recv_spec(old(self)@).0,
            r == recv_spec(old(self)@).1,
    {
        if self.pending.len() == 0 {
            None
        } else {
            let item = self.pending.remove(0);
            proof {
                assert(self.pending@ =~= old(self)@.pending.drop_first());
            }
            Some(item)
        }
    }

    /// Detaches the consumer: later sends are dropped; events already
    /// pending can still be drained.
    pub fn close(&mut self)
        ensures
            final(self)@.pending == old(self)@.pending,
            final(self)@.capacity == old(self)@.capacity,
            !final(self)@.open,
    {
        self.open = false;
    }

    /// The number of pending events.
    pub fn len(&self) -> (n: usize)
        ensures
            n == self@.pending.len(),
    {
        self.pending.len()
    }
}

} // verus!
