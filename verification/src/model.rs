//! The channel as a mathematical value, and what each operation makes of it.

use crate::Error;
use std::task::{Poll, Waker};
use vstd::prelude::*;

verus! {

/// `std::task::Poll`, with its two variants as std defines them.
#[verifier::external_type_specification]
#[verifier::reject_recursive_types(T)]
pub struct ExPoll<T>(Poll<T>);

/// What a channel is at one moment.
pub struct ChanView {
    /// The most chunks the channel holds at once.
    pub capacity: nat,
    /// The chunks waiting to be received, oldest first.
    pub items: Seq<Seq<u8>>,
    /// Whether the channel was closed.
    pub closed: bool,
    /// The one task to notify next, if any registered since the last
    /// notification.
    pub waiter: Option<Waker>,
}

impl ChanView {
    /// The channel never holds more than its capacity.
    pub open spec fn wf(self) -> bool {
        self.items.len() <= self.capacity
    }

    /// A channel as it is made: empty, open, nobody waiting.
    pub open spec fn fresh(capacity: nat) -> ChanView {
        ChanView { capacity, items: Seq::empty(), closed: false, waiter: None }
    }

    /// Whether the channel holds as many chunks as it can.
    pub open spec fn is_full(self) -> bool {
        self.items.len() >= self.capacity
    }

    /// Whether no chunk is queued.
    pub open spec fn is_empty(self) -> bool {
        self.items.len() == 0
    }

    /// The given waker becomes the one waiter.
    pub open spec fn register(self, waker: Waker) -> ChanView {
        ChanView { waiter: Some(waker), ..self }
    }

    /// The waiter, if any, is notified and leaves the slot.
    pub open spec fn wake(self) -> ChanView {
        ChanView { waiter: None, ..self }
    }

    /// A push attempt: refused without any effect when full; otherwise the
    /// chunk is queued last and the waiter notified.
    pub open spec fn push(self, item: Seq<u8>) -> ChanView {
        if self.is_full() {
            self
        } else {
            ChanView { items: self.items.push(item), waiter: None, ..self }
        }
    }

    /// What a push attempt answers: a refusal exactly when the channel is
    /// full.
    pub open spec fn push_result(self) -> Result<(), Error> {
        if self.is_full() {
            Err(Error::QueueFull)
        } else {
            Ok(())
        }
    }

    /// A pop attempt: the oldest chunk leaves, whether or not the channel is
    /// closed, and the waiter is notified of the freed space.
    pub open spec fn pop(self) -> ChanView {
        if self.is_empty() {
            self
        } else {
            ChanView { items: self.items.drop_first(), waiter: None, ..self }
        }
    }

    /// What a pop attempt hands out: the oldest chunk, if there is one.
    pub open spec fn pop_result(self) -> Option<Seq<u8>> {
        if self.is_empty() {
            None
        } else {
            Some(self.items.first())
        }
    }

    /// Closing: the flag is set for good and the waiter notified. What is
    /// queued stays.
    pub open spec fn close(self) -> ChanView {
        ChanView { closed: true, waiter: None, ..self }
    }

    /// The ready-to-send check: with room it changes nothing; without, the
    /// caller becomes the waiter.
    pub open spec fn ready(self, waker: Waker) -> ChanView {
        if self.is_full() {
            self.register(waker)
        } else {
            self
        }
    }

    /// What the ready-to-send check answers: it suspends exactly when the
    /// channel is full, and never fails.
    pub open spec fn ready_result(self) -> Poll<Result<(), Error>> {
        if self.is_full() {
            Poll::Pending
        } else {
            Poll::Ready(Ok(()))
        }
    }

    /// Asking for the next chunk: a queued chunk is popped; an empty closed
    /// channel stays as it is; on an empty open one the caller becomes the
    /// waiter.
    pub open spec fn next(self, waker: Waker) -> ChanView {
        if !self.is_empty() {
            self.pop()
        } else if self.closed {
            self
        } else {
            self.register(waker)
        }
    }

    /// What asking for the next chunk answers: the oldest chunk; or the end
    /// of the sequence, on an empty closed channel; or to suspend.
    pub open spec fn next_result(self) -> Poll<Option<Seq<u8>>> {
        if !self.is_empty() {
            Poll::Ready(Some(self.items.first()))
        } else if self.closed {
            Poll::Ready(None)
        } else {
            Poll::Pending
        }
    }
}

/// A poll result for a chunk, with the chunk taken by its bytes.
pub open spec fn chunk_poll_view(r: Poll<Option<Vec<u8>>>) -> Poll<Option<Seq<u8>>> {
    match r {
        Poll::Ready(Some(chunk)) => Poll::Ready(Some(chunk@)),
        Poll::Ready(None) => Poll::Ready(None),
        Poll::Pending => Poll::Pending,
    }
}

/// An optional chunk, taken by its bytes.
pub open spec fn chunk_option_view(r: Option<Vec<u8>>) -> Option<Seq<u8>> {
    match r {
        Some(chunk) => Some(chunk@),
        None => None,
    }
}

/// One step that a producer or a consumer takes on a channel.
pub enum Step {
    /// A send of the given chunk.
    Send(Seq<u8>),
    /// A request for the next chunk, by the task that the waker stands for.
    Recv(Waker),
}

/// Whether every step is a send.
pub open spec fn sends_only(steps: Seq<Step>) -> bool {
    forall|i: int| 0 <= i < steps.len() ==> steps[i] is Send
}

/// Whether every step is a request for the next chunk.
pub open spec fn recvs_only(steps: Seq<Step>) -> bool {
    forall|i: int| 0 <= i < steps.len() ==> steps[i] is Recv
}

impl ChanView {
    /// The channel after one step.
    pub open spec fn step(self, step: Step) -> ChanView {
        match step {
            Step::Send(item) => self.push(item),
            Step::Recv(waker) => self.next(waker),
        }
    }

    /// The channel after the given steps, taken in order.
    pub open spec fn run(self, steps: Seq<Step>) -> ChanView
        decreases steps.len(),
    {
        if steps.len() == 0 {
            self
        } else {
            self.run(steps.drop_last()).step(steps.last())
        }
    }

    /// The chunks whose send went through in the given steps, in order.
    pub open spec fn accepted(self, steps: Seq<Step>) -> Seq<Seq<u8>>
        decreases steps.len(),
    {
        if steps.len() == 0 {
            Seq::empty()
        } else {
            let before = self.run(steps.drop_last());
            let sofar = self.accepted(steps.drop_last());
            match steps.last() {
                Step::Send(item) => if before.is_full() {
                    sofar
                } else {
                    sofar.push(item)
                },
                Step::Recv(_) => sofar,
            }
        }
    }

    /// The chunks handed to the consumer in the given steps, in order.
    pub open spec fn received(self, steps: Seq<Step>) -> Seq<Seq<u8>>
        decreases steps.len(),
    {
        if steps.len() == 0 {
            Seq::empty()
        } else {
            let before = self.run(steps.drop_last());
            let sofar = self.received(steps.drop_last());
            match steps.last() {
                Step::Send(_) => sofar,
                Step::Recv(_) => if before.is_empty() {
                    sofar
                } else {
                    sofar.push(before.items.first())
                },
            }
        }
    }
}

} // verus!
