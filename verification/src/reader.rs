//! The byte-stream reader: it takes the chunks of a channel and hands their
//! bytes out in order, as many at a time as the caller's buffer holds. A chunk
//! that did not fit stays in the reader's scratch cell, with the number of its
//! bytes already handed out.

use crate::cell::{cell_new, cell_store, cell_take, cell_value};
use crate::model::ChanView;
use crate::{PyChanInner, PyReceiver};
use crossbeam_utils::atomic::AtomicCell;
use std::task::{Poll, Waker};
use vstd::prelude::*;

verus! {

/// The bytes of the scratch chunk that were not handed out yet.
pub open spec fn leftover(scratch: Option<(nat, Seq<u8>)>) -> Seq<u8> {
    match scratch {
        Some((cursor, bytes)) => bytes.skip(cursor as int),
        None => Seq::empty(),
    }
}

/// A scratch cell is either empty or holds a chunk with bytes left in it.
pub open spec fn scratch_wf(scratch: Option<(nat, Seq<u8>)>) -> bool {
    scratch matches Some((cursor, bytes)) ==> cursor < bytes.len()
}

/// Every byte that a reader can hand out before anything more is pushed, in
/// the order in which it will.
pub open spec fn pending(chan: ChanView, scratch: Option<(nat, Seq<u8>)>) -> Seq<u8> {
    leftover(scratch) + chan.items.flatten()
}

/// Whether a read has anything to start from: a queued chunk or a chunk in
/// the scratch cell.
pub open spec fn available(chan: ChanView, scratch: Option<(nat, Seq<u8>)>) -> bool {
    !chan.is_empty() || scratch is Some
}

/// How many chunks are popped to fill `room` bytes: chunks are popped, oldest
/// first, while there is room and a chunk.
pub open spec fn chunks_needed(items: Seq<Seq<u8>>, room: nat) -> nat
    decreases items.len(),
{
    if room == 0 || items.len() == 0 {
        0
    } else if items.first().len() >= room {
        1
    } else {
        1 + chunks_needed(items.drop_first(), (room - items.first().len()) as nat)
    }
}

/// How many chunks a read into a buffer of `len` bytes pops. None, where the
/// scratch chunk alone fills the buffer.
pub open spec fn read_taken(chan: ChanView, scratch: Option<(nat, Seq<u8>)>, len: nat) -> nat {
    if leftover(scratch).len() >= len {
        0
    } else {
        chunks_needed(chan.items, (len - leftover(scratch).len()) as nat)
    }
}

/// The bytes that a read into a buffer of `len` bytes draws on: the rest of
/// the scratch chunk, then the chunks it pops.
pub open spec fn read_source(chan: ChanView, scratch: Option<(nat, Seq<u8>)>, len: nat) -> Seq<
    u8,
> {
    leftover(scratch) + chan.items.take(read_taken(chan, scratch, len) as int).flatten()
}

/// How many bytes a read into a buffer of `len` bytes hands out.
pub open spec fn read_count(chan: ChanView, scratch: Option<(nat, Seq<u8>)>, len: nat) -> nat {
    if read_source(chan, scratch, len).len() <= len {
        read_source(chan, scratch, len).len()
    } else {
        len
    }
}

/// The scratch cell after a read into a buffer of `len` bytes: the chunk that
/// filled the buffer and did not fit whole, with its cursor moved on.
pub open spec fn read_scratch(chan: ChanView, scratch: Option<(nat, Seq<u8>)>, len: nat) -> Option<
    (nat, Seq<u8>),
> {
    let taken = read_taken(chan, scratch, len);
    let over = read_source(chan, scratch, len).len() - len;
    if over <= 0 {
        None
    } else if taken == 0 {
        match scratch {
            Some((cursor, bytes)) => Some((cursor + len, bytes)),
            None => None,
        }
    } else {
        let last = chan.items[taken - 1];
        Some(((last.len() - over) as nat, last))
    }
}

/// The channel after a read into a buffer of `len` bytes: the popped chunks
/// are gone, and if any was popped the waiter was notified.
pub open spec fn read_chan(chan: ChanView, scratch: Option<(nat, Seq<u8>)>, len: nat) -> ChanView {
    let taken = read_taken(chan, scratch, len);
    ChanView {
        items: chan.items.skip(taken as int),
        waiter: if taken > 0 {
            None
        } else {
            chan.waiter
        },
        ..chan
    }
}

/// The state of channel and scratch cell after reads into buffers of the
/// given lengths, one after the other, together with the bytes that the reads
/// handed out, in order.
pub open spec fn read_run(chan: ChanView, scratch: Option<(nat, Seq<u8>)>, lens: Seq<nat>) -> (
    ChanView,
    Option<(nat, Seq<u8>)>,
    Seq<u8>,
)
    decreases lens.len(),
{
    if lens.len() == 0 {
        (chan, scratch, Seq::empty())
    } else {
        let (c, s, sofar) = read_run(chan, scratch, lens.drop_last());
        let len = lens.last();
        (
            read_chan(c, s, len),
            read_scratch(c, s, len),
            sofar + read_source(c, s, len).take(read_count(c, s, len) as int),
        )
    }
}

/// Popping one chunk more, when there was room for it, is one step of
/// `chunks_needed`.
proof fn lemma_chunks_needed_step(items: Seq<Seq<u8>>, done: int, room: nat)
    requires
        0 <= done < items.len(),
        room > 0,
    ensures
        chunks_needed(items.skip(done), room) == if items[done].len() >= room {
            1
        } else {
            1 + chunks_needed(
                items.skip(done + 1),
                (room - items[done].len()) as nat,
            )
        },
{
    let rest = items.skip(done);
    assert(rest.drop_first() =~= items.skip(done + 1));
}

/// The bytes of the first `done + 1` chunks are those of the first `done`,
/// then the next chunk.
proof fn lemma_flatten_take_step(items: Seq<Seq<u8>>, done: int)
    requires
        0 <= done < items.len(),
    ensures
        items.take(done + 1).flatten() == items.take(done).flatten() + items[done],
{
    assert(items.take(done + 1) =~= items.take(done).push(items[done]));
    items.take(done).lemma_flatten_push(items[done]);
}

/// Copies bytes of `src`, from index `from` on, into `buf`, from index `at`
/// on: as many as `src` has left and `buf` has room for. Returns their number.
fn copy_chunk(src: &Vec<u8>, from: usize, buf: &mut [u8], at: usize) -> (m: usize)
    requires
        from <= src@.len(),
        at <= old(buf)@.len(),
    ensures
        m == if src@.len() - from <= old(buf)@.len() - at {
            src@.len() - from
        } else {
            old(buf)@.len() - at
        },
        final(buf)@ == old(buf)@.take(at as int) + src@.subrange(from as int, from + m) + old(
            buf,
        )@.skip(at + m),
{
    let mut m: usize = 0;
    while m < src.len() - from && m < buf.len() - at
        invariant
            from <= src@.len(),
            at <= buf@.len(),
            buf@.len() == old(buf)@.len(),
            m <= src@.len() - from,
            m <= buf@.len() - at,
            buf@ == old(buf)@.take(at as int) + src@.subrange(from as int, from + m) + old(
                buf,
            )@.skip(at + m),
        decreases src@.len() - from - m,
    {
        buf[at + m] = src[from + m];
        m += 1;
    }
    m
}

/// A reader of the bytes that come through a channel.
pub struct PyBytesReader {
    /// The receiving side, which the reader took over.
    #[allow(dead_code)]
    receiver: PyReceiver,
    /// The chunk that was delivered in part, with the number of its bytes
    /// already handed out.
    scratch: AtomicCell<Option<(usize, Vec<u8>)>>,
}

impl View for PyBytesReader {
    type V = Option<(nat, Seq<u8>)>;

    /// The scratch cell: the chunk that was delivered in part, and how many of
    /// its bytes were handed out.
    closed spec fn view(&self) -> Option<(nat, Seq<u8>)> {
        match cell_value(self.scratch) {
            Some((cursor, bytes)) => Some((cursor as nat, bytes)),
            None => None,
        }
    }
}

impl PyBytesReader {
    #[verifier::type_invariant]
    spec fn inv(self) -> bool {
        scratch_wf(self@)
    }

    /// A reader for the given receiver, with an empty scratch cell.
    pub fn new(receiver: PyReceiver) -> (reader: Self)
        ensures
            reader@ is None,
    {
        PyBytesReader { receiver, scratch: cell_new(None) }
    }

    /// Whether a read has anything to start from: a queued chunk, or a chunk
    /// in the scratch cell. The scratch cell is looked into and left as it
    /// was.
    pub fn has_items(&mut self, chan: &PyChanInner) -> (r: bool)
        ensures
            r == available(chan@, old(self)@),
            final(self)@ == old(self)@,
            scratch_wf(old(self)@),
            chan@.wf(),
    {
        proof {
            use_type_invariant(&*self);
        }
        if !chan.is_empty() {
            true
        } else {
            let s = cell_take(&mut self.scratch);
            let has_scratch = s.is_some();
            cell_store(&mut self.scratch, s);
            has_scratch
        }
    }

    /// Reads into `buf`, which is not grown.
    ///
    /// With nothing to start from, the read reports the end of the stream, as
    /// zero bytes, on a closed channel; on an open one the caller becomes the
    /// waiter and is to suspend. Otherwise the rest of the scratch chunk comes
    /// first; if it fills the buffer the read ends there. Then chunks are
    /// popped and copied while the buffer has room and the queue a chunk. The
    /// chunk that did not fit whole is kept in the scratch cell. The bytes
    /// past those written stay as they were.
    pub fn poll_read(&mut self, chan: &mut PyChanInner, waker: &Waker, buf: &mut [u8]) -> (r: Poll<
        usize,
    >)
        ensures
            scratch_wf(old(self)@),
            scratch_wf(final(self)@),
            final(chan)@.wf(),
            !available(old(chan)@, old(self)@) && old(chan)@.closed ==> {
                &&& r == Poll::Ready(0usize)
                &&& final(chan)@ == old(chan)@
                &&& final(self)@ == old(self)@
                &&& final(buf)@ == old(buf)@
            },
            !available(old(chan)@, old(self)@) && !old(chan)@.closed ==> {
                &&& r is Pending
                &&& final(chan)@ == old(chan)@.register(*waker)
                &&& final(self)@ == old(self)@
                &&& final(buf)@ == old(buf)@
            },
            available(old(chan)@, old(self)@) ==> {
                let len = old(buf)@.len();
                let count = read_count(old(chan)@, old(self)@, len);
                &&& r == Poll::Ready(count as usize)
                &&& final(chan)@ == read_chan(old(chan)@, old(self)@, len)
                &&& final(self)@ == read_scratch(old(chan)@, old(self)@, len)
                &&& final(buf)@ == read_source(old(chan)@, old(self)@, len).take(count as int)
                    + old(buf)@.skip(count as int)
            },
    {
        if !self.has_items(chan) {
            if chan.is_closed() {
                return Poll::Ready(0);
            }
            chan.register_waiter(waker);
            return Poll::Pending;
        }
        let ghost chan0 = chan@;
        let ghost scratch0 = self@;
        let ghost buf0 = buf@;
        let ghost rest = leftover(scratch0);
        let ghost len = buf0.len();
        let mut n: usize = 0;
        match cell_take(&mut self.scratch) {
            Some((cursor, bytes)) => {
                let m = copy_chunk(&bytes, cursor, buf, 0);
                if m < bytes.len() - cursor {
                    proof {
                        assert(chan0.items.skip(0) == chan0.items);
                    }
                    cell_store(&mut self.scratch, Some((cursor + m, bytes)));
                    proof {
                        use_type_invariant(&*self);
                    }
                    return Poll::Ready(m);
                }
                n = m;
            },
            None => {},
        }
        let ghost room = (len - rest.len()) as nat;
        let ghost mut done: int = 0;
        proof {
            assert(chan0.items.skip(0) == chan0.items);
        }
        loop
            invariant_except_break
                rest == leftover(scratch0),
                chan@.wf(),
                buf@.len() == len,
                rest.len() <= len,
                room == len - rest.len(),
                0 <= done <= chan0.items.len(),
                n == rest.len() + chan0.items.take(done).flatten().len(),
                n <= len,
                buf@ == rest + chan0.items.take(done).flatten() + buf0.skip(n as int),
                chunks_needed(chan0.items, room) == done + chunks_needed(
                    chan0.items.skip(done),
                    (len - n) as nat,
                ),
                chan@ == (ChanView {
                    items: chan0.items.skip(done),
                    waiter: if done > 0 {
                        None
                    } else {
                        chan0.waiter
                    },
                    ..chan0
                }),
                self@ is None,
                buf0.len() == len,
            ensures
                buf@.len() == len,
                chan@.wf(),
                n == read_count(chan0, scratch0, len),
                chan@ == read_chan(chan0, scratch0, len),
                self@ == read_scratch(chan0, scratch0, len),
                buf@ == read_source(chan0, scratch0, len).take(n as int) + buf0.skip(n as int),
            decreases chan@.items.len(),
        {
            if n >= buf.len() {
                break ;
            }
            match chan.try_pop() {
                None => {
                    break ;
                },
                Some(bytes) => {
                    proof {
                        lemma_chunks_needed_step(chan0.items, done, (len - n) as nat);
                        lemma_flatten_take_step(chan0.items, done);
                        assert(chan0.items.skip(done).drop_first() == chan0.items.skip(
                            done + 1,
                        ));
                    }
                    let m = copy_chunk(&bytes, 0, buf, n);
                    if m < bytes.len() {
                        n += m;
                        cell_store(&mut self.scratch, Some((m, bytes)));
                        break ;
                    }
                    proof {
                        done = done + 1;
                    }
                    n += m;
                },
            }
        }
        proof {
            use_type_invariant(&*self);
        }
        Poll::Ready(n)
    }
}

impl PyReceiver {
    /// Turns the receiver into a reader of the bytes of its chunks. The
    /// receiver is used up.
    pub fn into_reader(self) -> (reader: PyBytesReader)
        ensures
            reader@ is None,
    {
        PyBytesReader::new(self)
    }
}

} // verus!
