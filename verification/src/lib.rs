//! A bounded channel of byte chunks with backpressure, and a reader that turns
//! the chunks it delivers into one continuous byte stream.
//!
//! The channel core is the only state. Every operation is one step on it and
//! is given the core by exclusive reference, so what a step does can be said
//! exactly: the handles name the side that acts, the core is lent to each
//! call.

pub mod cell;
pub mod laws;
pub mod model;
pub mod queue;
pub mod reader;
pub mod waker;

use crate::model::{chunk_option_view, chunk_poll_view, ChanView};
use crate::queue::ItemQueue;
use crate::waker::{slot_new, slot_register, slot_wake, waker_slot};
use futures::task::AtomicWaker;
use std::task::{Poll, Waker};
use vstd::prelude::*;

verus! {

/// Why a write to the channel did not go through.
#[derive(Debug, Clone, Copy, PartialEq, Eq, Structural)]
pub enum Error {
    /// The channel held as many chunks as it can at the moment of the
    /// attempt. The caller may try again after the next ready check.
    QueueFull,
    /// The channel was closed already. No operation of this crate gives it.
    Closed,
}

/// The channel core: bounded queue, close flag and waiter slot.
pub struct PyChanInner {
    buf: ItemQueue,
    closed: bool,
    waker: AtomicWaker,
}

impl View for PyChanInner {
    type V = ChanView;

    closed spec fn view(&self) -> ChanView {
        ChanView {
            capacity: self.buf.spec_capacity(),
            items: self.buf.items(),
            closed: self.closed,
            waiter: waker_slot(self.waker),
        }
    }
}

impl PyChanInner {
    /// The largest capacity a channel can be made with on this machine.
    pub open spec fn spec_max_capacity() -> nat {
        ItemQueue::spec_max_capacity()
    }

    /// The largest capacity a channel can be made with on this machine.
    pub fn max_capacity() -> (r: usize)
        ensures
            r == Self::spec_max_capacity(),
    {
        ItemQueue::max_capacity()
    }

    /// A core for an empty, open channel with nobody waiting.
    pub fn new(capacity: usize) -> (chan: Self)
        requires
            capacity <= Self::spec_max_capacity(),
        ensures
            chan@ == ChanView::fresh(capacity as nat),
    {
        PyChanInner { buf: ItemQueue::new(capacity), closed: false, waker: slot_new() }
    }

    /// The most chunks the channel holds at once.
    pub fn capacity(&self) -> (r: usize)
        ensures
            r == self@.capacity,
            self@.wf(),
    {
        self.buf.capacity()
    }

    /// Whether the channel was closed.
    pub fn is_closed(&self) -> (r: bool)
        ensures
            r == self@.closed,
            self@.wf(),
    {
        proof {
            use_type_invariant(&self.buf);
            self.buf.lemma_within_capacity();
        }
        self.closed
    }

    /// Whether the channel holds as many chunks as it can. It never holds
    /// more.
    pub fn is_full(&self) -> (r: bool)
        ensures
            r == self@.is_full(),
            self@.wf(),
    {
        self.buf.is_full()
    }

    /// Whether no chunk is queued.
    pub fn is_empty(&self) -> (r: bool)
        ensures
            r == self@.is_empty(),
            self@.wf(),
    {
        self.buf.is_empty()
    }

    /// Queues the chunk unless the channel is full. On success the waiter is
    /// notified; a refused push changes nothing and notifies nobody.
    pub fn try_push(&mut self, item: Vec<u8>) -> (r: Result<(), Error>)
        ensures
            final(self)@ == old(self)@.push(item@),
            r == old(self)@.push_result(),
            final(self)@.wf(),
    {
        match self.buf.push(item) {
            Ok(()) => {
                slot_wake(&mut self.waker);
                Ok(())
            },
            Err(_) => Err(Error::QueueFull),
        }
    }

    /// Takes the oldest chunk, if there is one, closed or not, and notifies
    /// the waiter of the freed space.
    pub fn try_pop(&mut self) -> (r: Option<Vec<u8>>)
        ensures
            final(self)@ == old(self)@.pop(),
            chunk_option_view(r) == old(self)@.pop_result(),
            final(self)@.wf(),
    {
        let r = self.buf.pop();
        if r.is_some() {
            slot_wake(&mut self.waker);
        }
        r
    }

    /// Sets the close flag, for good, and notifies the waiter.
    pub fn close(&mut self)
        ensures
            final(self)@ == old(self)@.close(),
            final(self)@.wf(),
    {
        proof {
            use_type_invariant(&self.buf);
            self.buf.lemma_within_capacity();
        }
        self.closed = true;
        slot_wake(&mut self.waker);
    }

    /// Makes the given waker the one waiter, in place of any other.
    pub fn register_waiter(&mut self, waker: &Waker)
        ensures
            final(self)@ == old(self)@.register(*waker),
            final(self)@.wf(),
    {
        proof {
            use_type_invariant(&self.buf);
            self.buf.lemma_within_capacity();
        }
        slot_register(&mut self.waker, waker);
    }

    /// Notifies the waiter, if there is one.
    pub fn wake(&mut self)
        ensures
            final(self)@ == old(self)@.wake(),
            final(self)@.wf(),
    {
        proof {
            use_type_invariant(&self.buf);
            self.buf.lemma_within_capacity();
        }
        slot_wake(&mut self.waker);
    }
}

/// The producer side of a channel. Any number of senders may act on one core.
#[derive(Clone, Debug)]
pub struct PySender {}

impl PySender {
    /// The ready-to-send check: with room in the channel the sender may
    /// proceed at once and nothing changes; without, the caller becomes the
    /// waiter and is to suspend until notified.
    pub fn poll_ready(&mut self, chan: &mut PyChanInner, waker: &Waker) -> (r: Poll<
        Result<(), Error>,
    >)
        ensures
            final(chan)@ == old(chan)@.ready(*waker),
            r == old(chan)@.ready_result(),
            final(chan)@.wf(),
    {
        if chan.is_full() {
            chan.register_waiter(waker);
            Poll::Pending
        } else {
            Poll::Ready(Ok(()))
        }
    }

    /// Sends one chunk: a push attempt, whose refusal is handed to the
    /// caller and not retried.
    pub fn start_send(&mut self, chan: &mut PyChanInner, item: Vec<u8>) -> (r: Result<(), Error>)
        ensures
            final(chan)@ == old(chan)@.push(item@),
            r == old(chan)@.push_result(),
            final(chan)@.wf(),
    {
        chan.try_push(item)
    }

    /// Nothing is buffered on the way into the channel, so a flush is done at
    /// once. It notifies the waiter.
    pub fn poll_flush(&mut self, chan: &mut PyChanInner) -> (r: Poll<Result<(), Error>>)
        ensures
            final(chan)@ == old(chan)@.wake(),
            r == Poll::Ready(Ok::<(), Error>(())),
            final(chan)@.wf(),
    {
        chan.wake();
        Poll::Ready(Ok(()))
    }

    /// Closes the channel. What is queued can still be received.
    pub fn poll_close(&mut self, chan: &mut PyChanInner) -> (r: Poll<Result<(), Error>>)
        ensures
            final(chan)@ == old(chan)@.close(),
            r == Poll::Ready(Ok::<(), Error>(())),
            final(chan)@.wf(),
    {
        chan.close();
        Poll::Ready(Ok(()))
    }
}

/// The consumer side of a channel. Receivers on one core compete for its
/// chunks, and for the one waiter slot.
#[derive(Clone, Debug)]
pub struct PyReceiver {}

impl PyReceiver {
    /// Asks for the next chunk: the oldest queued one, if any; the end of the
    /// sequence on an empty closed channel, as often as asked; else the caller
    /// becomes the waiter and is to suspend until notified.
    pub fn poll_next(&mut self, chan: &mut PyChanInner, waker: &Waker) -> (r: Poll<
        Option<Vec<u8>>,
    >)
        ensures
            final(chan)@ == old(chan)@.next(*waker),
            chunk_poll_view(r) == old(chan)@.next_result(),
            final(chan)@.wf(),
    {
        match chan.try_pop() {
            Some(item) => Poll::Ready(Some(item)),
            None => {
                if chan.is_closed() {
                    Poll::Ready(None)
                } else {
                    chan.register_waiter(waker);
                    Poll::Pending
                }
            },
        }
    }
}

/// Makes a channel of the given capacity: its core, empty and open, and a
/// handle for each side. With capacity zero the channel is always full.
pub fn channel(capacity: usize) -> (made: (PyChanInner, PySender, PyReceiver))
    requires
        capacity <= PyChanInner::spec_max_capacity(),
    ensures
        made.0@ == ChanView::fresh(capacity as nat),
{
    (PyChanInner::new(capacity), PySender {}, PyReceiver {})
}

} // verus!
