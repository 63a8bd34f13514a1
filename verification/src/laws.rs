//! What holds of every channel and of every reader, proved from the
//! operations' own descriptions.

use crate::model::{recvs_only, sends_only, ChanView, Step};
use crate::reader::{
    chunks_needed, leftover, pending, read_chan, read_count, read_run, read_scratch, read_source,
    read_taken, scratch_wf,
};
use crate::Error;
use std::task::{Poll, Waker};
use vstd::prelude::*;
use vstd::seq_lib::lemma_flatten_concat;

verus! {

/// No send and no request takes a channel over its capacity, changes its
/// capacity, closes it or opens it again. Closing keeps it within its capacity
/// and is for good; closing a closed channel changes nothing.
pub proof fn law_steps_keep_shape(s: ChanView, steps: Seq<Step>)
    requires
        s.wf(),
    ensures
        s.run(steps).wf(),
        s.run(steps).capacity == s.capacity,
        s.run(steps).closed == s.closed,
        s.close().wf(),
        s.close().closed,
        s.close().close() == s.close(),
    decreases steps.len(),
{
    if steps.len() > 0 {
        law_steps_keep_shape(s, steps.drop_last());
    }
}

/// First in, first out: over any run of sends and requests, the chunks that
/// were queued at the start followed by those accepted are exactly the chunks
/// received followed by those still queued. A consumer thus sees the chunks in
/// the order in which they were pushed, none lost, none twice, none made up.
pub proof fn law_fifo(s: ChanView, steps: Seq<Step>)
    ensures
        s.items + s.accepted(steps) == s.received(steps) + s.run(steps).items,
    decreases steps.len(),
{
    if steps.len() > 0 {
        let front = steps.drop_last();
        law_fifo(s, front);
        if let Step::Send(item) = steps.last() {
            if !s.run(front).is_full() {
                assert(s.items + s.accepted(front).push(item) == (s.items + s.accepted(
                    front,
                )).push(item));
            }
        }
    }
}

/// In a run of sends alone nothing is received.
proof fn lemma_sends_receive_nothing(s: ChanView, steps: Seq<Step>)
    requires
        sends_only(steps),
    ensures
        s.received(steps).len() == 0,
    decreases steps.len(),
{
    if steps.len() > 0 {
        lemma_sends_receive_nothing(s, steps.drop_last());
    }
}

/// Backpressure: once as many sends went through as the channel has capacity,
/// with no request for a chunk in between, the channel is full, and the next
/// ready check suspends its caller as the waiter.
pub proof fn law_full_after_capacity_sends(s: ChanView, steps: Seq<Step>, waker: Waker)
    requires
        s.wf(),
        s.capacity >= 1,
        sends_only(steps),
        s.accepted(steps).len() == s.capacity,
    ensures
        s.run(steps).is_full(),
        s.run(steps).ready_result() is Pending,
        s.run(steps).ready(waker).waiter == Some(waker),
        s.run(steps).push_result() == Err::<(), Error>(Error::QueueFull),
{
    law_fifo(s, steps);
    law_steps_keep_shape(s, steps);
    lemma_sends_receive_nothing(s, steps);
}

/// While an empty channel has room every send goes through: the first
/// `capacity` sends into an empty channel are all accepted.
pub proof fn law_sends_accepted_while_room(s: ChanView, steps: Seq<Step>)
    requires
        s.items.len() == 0,
        sends_only(steps),
        steps.len() <= s.capacity,
    ensures
        s.accepted(steps).len() == steps.len(),
        s.run(steps).items == s.accepted(steps),
        forall|i: int| 0 <= i < steps.len() ==> s.accepted(steps)[i] == (#[trigger] steps[i])->Send_0,
    decreases steps.len(),
{
    if steps.len() > 0 {
        let front = steps.drop_last();
        assert(sends_only(front));
        law_sends_accepted_while_room(s, front);
        law_steps_keep_shape(s, front);
        assert forall|i: int| 0 <= i < steps.len() implies s.accepted(steps)[i] == (
        #[trigger] steps[i])->Send_0 by {
            if i < front.len() {
                assert(front[i] == steps[i]);
            }
        }
    }
}

/// Draining: after a close every chunk that was queued is still handed out, in
/// order, one to each request; after the last of them every request is
/// answered with the end of the sequence, however often it is made, and
/// changes nothing.
pub proof fn law_drain_after_close(s: ChanView, steps: Seq<Step>)
    requires
        recvs_only(steps),
    ensures
        ({
            let c = s.close();
            let n = if steps.len() <= s.items.len() {
                steps.len() as int
            } else {
                s.items.len() as int
            };
            &&& c.items == s.items
            &&& c.received(steps) == s.items.take(n)
            &&& c.run(steps).items == s.items.skip(n)
            &&& c.run(steps).closed
            &&& c.run(steps).waiter is None
            &&& c.run(steps).next_result() == if steps.len() < s.items.len() {
                Poll::Ready(Some(s.items[steps.len() as int]))
            } else {
                Poll::Ready(None::<Seq<u8>>)
            }
            &&& steps.len() >= s.items.len() ==> forall|waker: Waker|
                (#[trigger] c.run(steps).next(waker)) == c.run(steps)
        }),
    decreases steps.len(),
{
    if steps.len() > 0 {
        let front = steps.drop_last();
        assert(recvs_only(front));
        law_drain_after_close(s, front);
    }
}

/// Round trip: whatever sends and requests are made on a channel that starts
/// empty, and then the channel is closed and drained, the chunks received are
/// exactly the chunks whose send went through, each with the bytes it was
/// sent with, in the order of sending; then comes the end of the sequence.
pub proof fn law_round_trip(capacity: nat, steps: Seq<Step>, drain: Seq<Step>)
    requires
        recvs_only(drain),
        drain.len() >= ChanView::fresh(capacity).run(steps).items.len(),
    ensures
        ({
            let s = ChanView::fresh(capacity);
            let c = s.run(steps).close();
            &&& s.received(steps) + c.received(drain) == s.accepted(steps)
            &&& c.run(drain).next_result() == Poll::Ready(None::<Seq<u8>>)
        }),
{
    let s = ChanView::fresh(capacity);
    law_fifo(s, steps);
    law_drain_after_close(s.run(steps), drain);
}

/// A channel of capacity zero is always full: it never queues a chunk, every
/// send is refused and changes nothing, every ready check suspends, and a
/// request finds no chunk.
pub proof fn law_capacity_zero(s: ChanView, steps: Seq<Step>, item: Seq<u8>)
    requires
        s.wf(),
        s.capacity == 0,
    ensures
        s.run(steps).items.len() == 0,
        s.accepted(steps).len() == 0,
        s.received(steps).len() == 0,
        s.run(steps).push_result() == Err::<(), Error>(Error::QueueFull),
        s.run(steps).push(item) == s.run(steps),
        s.run(steps).ready_result() is Pending,
        s.run(steps).pop_result() is None,
    decreases steps.len(),
{
    law_steps_keep_shape(s, steps);
    if steps.len() > 0 {
        law_capacity_zero(s, steps.drop_last(), item);
        law_steps_keep_shape(s, steps.drop_last());
    }
}

/// Closing an empty open channel on which a consumer is suspended notifies
/// that consumer and leaves nobody waiting. Its next request is answered with
/// the end of the sequence. No send made after that finds it in the waiter
/// slot, so none notifies it again.
pub proof fn law_close_resolves_suspended_receive(s: ChanView, waker: Waker, sends: Seq<Step>)
    requires
        s.is_empty(),
        !s.closed,
        sends_only(sends),
    ensures
        s.next_result() is Pending,
        s.next(waker).waiter == Some(waker),
        s.next(waker).close().waiter is None,
        s.next(waker).close().next_result() == Poll::Ready(None::<Seq<u8>>),
        forall|i: int|
            0 <= i <= sends.len() ==> (#[trigger] s.next(waker).close().run(
                sends.take(i),
            )).waiter is None,
{
    let c = s.next(waker).close();
    assert forall|i: int| 0 <= i <= sends.len() implies (#[trigger] c.run(
        sends.take(i),
    )).waiter is None by {
        lemma_sends_leave_no_waiter(c, sends.take(i));
    }
}

/// Sends register nobody: with no waiter before a run of sends there is none
/// after it.
proof fn lemma_sends_leave_no_waiter(s: ChanView, steps: Seq<Step>)
    requires
        s.waiter is None,
        sends_only(steps),
    ensures
        s.run(steps).waiter is None,
    decreases steps.len(),
{
    if steps.len() > 0 {
        let front = steps.drop_last();
        assert(sends_only(front));
        lemma_sends_leave_no_waiter(s, front);
    }
}

/// The chunks that a read pops are as few as fill the room: if any chunk is
/// left in the queue the popped ones filled it, and before the last of them
/// was popped there was room still.
proof fn lemma_chunks_needed_bounds(items: Seq<Seq<u8>>, room: nat)
    ensures
        chunks_needed(items, room) <= items.len(),
        chunks_needed(items, room) < items.len() ==> items.take(
            chunks_needed(items, room) as int,
        ).flatten().len() >= room,
        chunks_needed(items, room) > 0 ==> items.take(
            chunks_needed(items, room) - 1,
        ).flatten().len() < room,
    decreases items.len(),
{
    if room > 0 && items.len() > 0 {
        let head = seq![items.first()];
        let tail = items.drop_first();
        head.lemma_flatten_singleton();
        if items.first().len() < room {
            let less = (room - items.first().len()) as nat;
            lemma_chunks_needed_bounds(tail, less);
            let j = chunks_needed(tail, less) as int;
            assert(items.take(j + 1) == head + tail.take(j));
            lemma_flatten_concat(head, tail.take(j));
            if j > 0 {
                assert(items.take(j) == head + tail.take(j - 1));
                lemma_flatten_concat(head, tail.take(j - 1));
            }
        }
    }
}

/// A read hands out the stream and nothing else: the bytes written are the
/// first of those pending, as many as the buffer holds or as there are; what
/// stays pending, in the scratch cell and the queue, is the rest, in order.
/// The scratch cell stays valid and the channel within its capacity.
pub proof fn law_read_conserves_stream(chan: ChanView, scratch: Option<(nat, Seq<u8>)>, len: nat)
    requires
        scratch_wf(scratch),
    ensures
        ({
            let stream = pending(chan, scratch);
            let count = read_count(chan, scratch, len);
            let after = pending(read_chan(chan, scratch, len), read_scratch(chan, scratch, len));
            &&& count == if stream.len() <= len {
                stream.len()
            } else {
                len
            }
            &&& read_source(chan, scratch, len).take(count as int) == stream.take(count as int)
            &&& after == stream.skip(count as int)
            &&& scratch_wf(read_scratch(chan, scratch, len))
            &&& chan.wf() ==> read_chan(chan, scratch, len).wf()
        }),
{
    let rest = leftover(scratch);
    let taken = read_taken(chan, scratch, len) as int;
    let popped = chan.items.take(taken);
    let queued = chan.items.skip(taken);
    if rest.len() < len {
        lemma_chunks_needed_bounds(chan.items, (len - rest.len()) as nat);
    }
    assert(chan.items == popped + queued);
    lemma_flatten_concat(popped, queued);
    if read_source(chan, scratch, len).len() > len && taken > 0 {
        let last = chan.items[taken - 1];
        assert(popped == chan.items.take(taken - 1).push(last));
        chan.items.take(taken - 1).lemma_flatten_push(last);
    }
}

/// The sum of the given lengths.
pub open spec fn total(lens: Seq<nat>) -> nat
    decreases lens.len(),
{
    if lens.len() == 0 {
        0
    } else {
        total(lens.drop_last()) + lens.last()
    }
}

/// Reads, whatever the sizes of their buffers, hand out the pending bytes in
/// order and without a gap: together they deliver the first bytes of the
/// stream, as many as their buffers hold or as there are, and leave the rest
/// pending. Buffers that together hold the whole stream drain it.
pub proof fn law_reads_deliver_the_stream(
    chan: ChanView,
    scratch: Option<(nat, Seq<u8>)>,
    lens: Seq<nat>,
)
    requires
        scratch_wf(scratch),
    ensures
        ({
            let stream = pending(chan, scratch);
            let (c, s, delivered) = read_run(chan, scratch, lens);
            &&& delivered.len() == if stream.len() <= total(lens) {
                stream.len()
            } else {
                total(lens)
            }
            &&& delivered == stream.take(delivered.len() as int)
            &&& pending(c, s) == stream.skip(delivered.len() as int)
            &&& scratch_wf(s)
            &&& c.closed == chan.closed
            &&& c.capacity == chan.capacity
        }),
    decreases lens.len(),
{
    if lens.len() > 0 {
        let front = lens.drop_last();
        law_reads_deliver_the_stream(chan, scratch, front);
        let (c, s, _) = read_run(chan, scratch, front);
        law_read_conserves_stream(c, s, lens.last());
    }
}

/// Round trip of the bytes: chunks sent into an empty channel and then read,
/// into buffers of whatever sizes that together hold them, come out as the
/// bytes of the accepted chunks, in order and with nothing between them; after
/// that no byte is pending.
pub proof fn law_bytes_round_trip(capacity: nat, sends: Seq<Step>, lens: Seq<nat>)
    requires
        sends_only(sends),
        total(lens) >= ChanView::fresh(capacity).accepted(sends).flatten().len(),
    ensures
        ({
            let s = ChanView::fresh(capacity);
            let (c, scratch, delivered) = read_run(s.run(sends).close(), None, lens);
            &&& delivered == s.accepted(sends).flatten()
            &&& pending(c, scratch).len() == 0
            &&& scratch is None
        }),
{
    let s = ChanView::fresh(capacity);
    law_fifo(s, sends);
    lemma_sends_receive_nothing(s, sends);
    assert(s.run(sends).close().items == s.accepted(sends));
    law_reads_deliver_the_stream(s.run(sends).close(), None, lens);
}

} // verus!
