//! The bounded queue of chunks under a channel. The ring buffer is
//! `crossbeam_queue::ArrayQueue`, held by exclusive reference; what its
//! operations do is stated here over the sequence of chunks it holds and is
//! taken on trust. `ItemQueue` adds the capacity zero, for which no ring
//! buffer can be made.

use crossbeam_queue::ArrayQueue;
use vstd::prelude::*;

verus! {

/// `crossbeam_queue::ArrayQueue`, taken as an opaque value.
#[verifier::external_type_specification]
#[verifier::external_body]
#[verifier::reject_recursive_types(T)]
pub struct ExArrayQueue<T>(ArrayQueue<T>);

/// The chunks in the ring buffer, oldest first.
pub uninterp spec fn ring_items(q: ArrayQueue<Vec<u8>>) -> Seq<Seq<u8>>;

/// The number of chunks the ring buffer was made for.
pub uninterp spec fn ring_capacity(q: ArrayQueue<Vec<u8>>) -> nat;

/// `ArrayQueue::new`: an empty ring buffer of the given capacity. The outside
/// function panics on capacity zero and on a capacity whose slots, of at most
/// 32 bytes each, pass `isize::MAX` bytes; both are left out. Where the
/// machine has no memory left for the slots the process ends, as on any
/// allocation.
#[verifier::external_body]
fn ring_new(capacity: usize) -> (q: ArrayQueue<Vec<u8>>)
    requires
        0 < capacity <= isize::MAX / 32,
    ensures
        ring_items(q) == Seq::<Seq<u8>>::empty(),
        ring_capacity(q) == capacity,
{
    ArrayQueue::new(capacity)
}

/// `ArrayQueue::push_mut`: a full ring buffer hands the chunk back and stays as
/// it is; otherwise the chunk becomes the newest one. It does not panic.
#[verifier::external_body]
fn ring_push(q: &mut ArrayQueue<Vec<u8>>, item: Vec<u8>) -> (r: Result<(), Vec<u8>>)
    ensures
        ring_capacity(*final(q)) == ring_capacity(*old(q)),
        r is Err <==> ring_items(*old(q)).len() >= ring_capacity(*old(q)),
        r matches Err(back) ==> back == item,
        ring_items(*final(q)) == if r is Ok {
            ring_items(*old(q)).push(item@)
        } else {
            ring_items(*old(q))
        },
    no_unwind
{
    q.push_mut(item)
}

/// `ArrayQueue::pop_mut`: the oldest chunk leaves the ring buffer, if there is
/// one. It does not panic.
#[verifier::external_body]
fn ring_pop(q: &mut ArrayQueue<Vec<u8>>) -> (r: Option<Vec<u8>>)
    ensures
        ring_capacity(*final(q)) == ring_capacity(*old(q)),
        r is Some <==> ring_items(*old(q)).len() > 0,
        r matches Some(item) ==> item@ == ring_items(*old(q)).first(),
        ring_items(*final(q)) == if r is Some {
            ring_items(*old(q)).drop_first()
        } else {
            ring_items(*old(q))
        },
    no_unwind
{
    q.pop_mut()
}

/// `ArrayQueue::is_full`: whether the ring buffer holds as many chunks as it
/// was made for.
#[verifier::external_body]
fn ring_is_full(q: &ArrayQueue<Vec<u8>>) -> (r: bool)
    ensures
        r == (ring_items(*q).len() >= ring_capacity(*q)),
{
    q.is_full()
}

/// `ArrayQueue::is_empty`: whether the ring buffer holds no chunk.
#[verifier::external_body]
fn ring_is_empty(q: &ArrayQueue<Vec<u8>>) -> (r: bool)
    ensures
        r == (ring_items(*q).len() == 0),
{
    q.is_empty()
}

/// A first-in, first-out queue of chunks with a capacity fixed when it is
/// made. Capacity zero is allowed: such a queue is always full and always
/// empty.
pub struct ItemQueue {
    capacity: usize,
    ring: ArrayQueue<Vec<u8>>,
}

impl ItemQueue {
    /// The queue is within its capacity. With capacity zero the ring buffer
    /// has one slot that is never filled.
    #[verifier::type_invariant]
    pub(crate) closed spec fn inv(self) -> bool {
        &&& ring_items(self.ring).len() <= self.capacity
        &&& ring_capacity(self.ring) == if self.capacity == 0 {
            1
        } else {
            self.capacity as nat
        }
    }

    /// A queue that meets its invariant holds no more than its capacity.
    pub(crate) proof fn lemma_within_capacity(self)
        requires
            self.inv(),
        ensures
            self.items().len() <= self.spec_capacity(),
    {
    }

    /// The chunks in the queue, oldest first.
    pub closed spec fn items(self) -> Seq<Seq<u8>> {
        ring_items(self.ring)
    }

    /// The most chunks the queue holds at once.
    pub closed spec fn spec_capacity(self) -> nat {
        self.capacity as nat
    }

    /// The largest capacity a queue can be made with on this machine.
    pub open spec fn spec_max_capacity() -> nat {
        (isize::MAX / 32) as nat
    }

    /// The largest capacity a queue can be made with on this machine.
    pub fn max_capacity() -> (r: usize)
        ensures
            r == Self::spec_max_capacity(),
    {
        (isize::MAX as usize) / 32
    }

    /// An empty queue of the given capacity.
    pub fn new(capacity: usize) -> (q: Self)
        requires
            capacity <= Self::spec_max_capacity(),
        ensures
            q.items() == Seq::<Seq<u8>>::empty(),
            q.spec_capacity() == capacity,
    {
        let slots: usize = if capacity == 0 {
            1
        } else {
            capacity
        };
        ItemQueue { capacity, ring: ring_new(slots) }
    }

    /// The most chunks the queue holds at once. The queue never holds more.
    pub fn capacity(&self) -> (r: usize)
        ensures
            r == self.spec_capacity(),
            self.items().len() <= self.spec_capacity(),
    {
        proof {
            use_type_invariant(self);
        }
        self.capacity
    }

    /// Whether the queue holds as many chunks as it can. The queue never
    /// holds more.
    pub fn is_full(&self) -> (r: bool)
        ensures
            r == (self.items().len() >= self.spec_capacity()),
            self.items().len() <= self.spec_capacity(),
    {
        proof {
            use_type_invariant(self);
        }
        self.capacity == 0 || ring_is_full(&self.ring)
    }

    /// Whether the queue holds no chunk.
    pub fn is_empty(&self) -> (r: bool)
        ensures
            r == (self.items().len() == 0),
            self.items().len() <= self.spec_capacity(),
    {
        proof {
            use_type_invariant(self);
        }
        ring_is_empty(&self.ring)
    }

    /// Queues the chunk as the newest one, or hands it back when the queue is
    /// full.
    pub fn push(&mut self, item: Vec<u8>) -> (r: Result<(), Vec<u8>>)
        ensures
            final(self).spec_capacity() == old(self).spec_capacity(),
            r is Err <==> old(self).items().len() >= old(self).spec_capacity(),
            r matches Err(back) ==> back == item,
            final(self).items() == if r is Ok {
                old(self).items().push(item@)
            } else {
                old(self).items()
            },
            final(self).items().len() <= final(self).spec_capacity(),
    {
        proof {
            use_type_invariant(&*self);
        }
        if self.capacity == 0 {
            return Err(item);
        }
        ring_push(&mut self.ring, item)
    }

    /// Takes the oldest chunk out of the queue, if there is one.
    pub fn pop(&mut self) -> (r: Option<Vec<u8>>)
        ensures
            final(self).spec_capacity() == old(self).spec_capacity(),
            r is Some <==> old(self).items().len() > 0,
            r matches Some(item) ==> item@ == old(self).items().first(),
            final(self).items() == if r is Some {
                old(self).items().drop_first()
            } else {
                old(self).items()
            },
            final(self).items().len() <= final(self).spec_capacity(),
    {
        proof {
            use_type_invariant(&*self);
        }
        ring_pop(&mut self.ring)
    }
}

} // verus!
