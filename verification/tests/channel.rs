use pychan::{channel, Error, PyChanInner};
use std::sync::atomic::{AtomicUsize, Ordering};
use std::sync::Arc;
use std::task::{Poll, Wake, Waker};

struct Counter {
    wakes: AtomicUsize,
}

impl Wake for Counter {
    fn wake(self: Arc<Self>) {
        self.wakes.fetch_add(1, Ordering::SeqCst);
    }
}

fn counting_waker() -> (Arc<Counter>, Waker) {
    let counter = Arc::new(Counter { wakes: AtomicUsize::new(0) });
    let waker = Waker::from(counter.clone());
    (counter, waker)
}

fn wakes(counter: &Arc<Counter>) -> usize {
    counter.wakes.load(Ordering::SeqCst)
}

#[test]
fn new_channel_is_empty_open_and_has_its_capacity() {
    let (chan, _tx, _rx) = channel(3);
    assert_eq!(chan.capacity(), 3);
    assert!(chan.is_empty());
    assert!(!chan.is_full());
    assert!(!chan.is_closed());
}

#[test]
fn ready_check_passes_while_there_is_room() {
    let (task, waker) = counting_waker();
    let (mut chan, mut tx, _rx) = channel(2);
    assert_eq!(tx.poll_ready(&mut chan, &waker), Poll::Ready(Ok(())));
    assert_eq!(tx.start_send(&mut chan, vec![1]), Ok(()));
    assert_eq!(tx.poll_ready(&mut chan, &waker), Poll::Ready(Ok(())));
    assert_eq!(wakes(&task), 0);
}

#[test]
fn ready_check_suspends_after_capacity_sends() {
    for capacity in 1usize..6 {
        let (_task, waker) = counting_waker();
        let (mut chan, mut tx, _rx) = channel(capacity);
        for i in 0..capacity {
            assert_eq!(tx.poll_ready(&mut chan, &waker), Poll::Ready(Ok(())));
            assert_eq!(tx.start_send(&mut chan, vec![i as u8]), Ok(()));
        }
        assert!(chan.is_full());
        assert_eq!(tx.poll_ready(&mut chan, &waker), Poll::Pending);
        assert_eq!(tx.poll_ready(&mut chan, &waker), Poll::Pending);
    }
}

#[test]
fn send_into_full_channel_gives_queue_full() {
    let (mut chan, mut tx, mut rx) = channel(1);
    let (_task, waker) = counting_waker();
    assert_eq!(tx.start_send(&mut chan, vec![1]), Ok(()));
    assert_eq!(tx.start_send(&mut chan, vec![2]), Err(Error::QueueFull));
    assert_eq!(rx.poll_next(&mut chan, &waker), Poll::Ready(Some(vec![1])));
    assert_eq!(rx.poll_next(&mut chan, &waker), Poll::Pending);
}

#[test]
fn refused_send_notifies_nobody() {
    let (task, waker) = counting_waker();
    let (mut chan, mut tx, _rx) = channel(1);
    assert_eq!(tx.start_send(&mut chan, vec![1]), Ok(()));
    assert_eq!(tx.poll_ready(&mut chan, &waker), Poll::Pending);
    assert_eq!(tx.start_send(&mut chan, vec![2]), Err(Error::QueueFull));
    assert_eq!(wakes(&task), 0);
    tx.poll_flush(&mut chan).is_ready();
    assert_eq!(wakes(&task), 1);
}

#[test]
fn successful_send_notifies_the_waiter_once() {
    let (task, waker) = counting_waker();
    let (mut chan, mut tx, mut rx) = channel(4);
    assert_eq!(rx.poll_next(&mut chan, &waker), Poll::Pending);
    assert_eq!(wakes(&task), 0);
    assert_eq!(tx.start_send(&mut chan, vec![1]), Ok(()));
    assert_eq!(wakes(&task), 1);
    assert_eq!(tx.start_send(&mut chan, vec![2]), Ok(()));
    assert_eq!(wakes(&task), 1);
}

#[test]
fn receives_come_in_push_order() {
    let (_task, waker) = counting_waker();
    let (mut chan, mut tx, mut rx) = channel(3);
    assert_eq!(tx.start_send(&mut chan, vec![1]), Ok(()));
    assert_eq!(tx.start_send(&mut chan, vec![2, 2]), Ok(()));
    assert_eq!(rx.poll_next(&mut chan, &waker), Poll::Ready(Some(vec![1])));
    assert_eq!(tx.start_send(&mut chan, vec![3, 3, 3]), Ok(()));
    assert_eq!(tx.start_send(&mut chan, vec![4]), Ok(()));
    assert_eq!(tx.start_send(&mut chan, vec![5]), Err(Error::QueueFull));
    assert_eq!(rx.poll_next(&mut chan, &waker), Poll::Ready(Some(vec![2, 2])));
    assert_eq!(rx.poll_next(&mut chan, &waker), Poll::Ready(Some(vec![3, 3, 3])));
    assert_eq!(rx.poll_next(&mut chan, &waker), Poll::Ready(Some(vec![4])));
    assert_eq!(rx.poll_next(&mut chan, &waker), Poll::Pending);
}

#[test]
fn receive_on_empty_open_channel_suspends_until_a_send() {
    let (task, waker) = counting_waker();
    let (mut chan, mut tx, mut rx) = channel(2);
    assert_eq!(rx.poll_next(&mut chan, &waker), Poll::Pending);
    assert_eq!(wakes(&task), 0);
    assert_eq!(tx.start_send(&mut chan, vec![8]), Ok(()));
    assert_eq!(wakes(&task), 1);
    assert_eq!(rx.poll_next(&mut chan, &waker), Poll::Ready(Some(vec![8])));
}

#[test]
fn last_registered_waiter_takes_the_slot() {
    let (first, first_waker) = counting_waker();
    let (second, second_waker) = counting_waker();
    let (mut chan, mut tx, mut rx) = channel(2);
    let mut other = rx.clone();
    assert_eq!(rx.poll_next(&mut chan, &first_waker), Poll::Pending);
    assert_eq!(other.poll_next(&mut chan, &second_waker), Poll::Pending);
    assert_eq!(tx.start_send(&mut chan, vec![1]), Ok(()));
    assert_eq!(wakes(&first), 0);
    assert_eq!(wakes(&second), 1);
}

#[test]
fn registering_a_waiter_replaces_the_one_before() {
    let (first, first_waker) = counting_waker();
    let (second, second_waker) = counting_waker();
    let mut chan = PyChanInner::new(1);
    chan.register_waiter(&first_waker);
    chan.register_waiter(&second_waker);
    chan.wake();
    assert_eq!(wakes(&first), 0);
    assert_eq!(wakes(&second), 1);
    chan.wake();
    assert_eq!(wakes(&second), 1);
}

#[test]
fn pop_notifies_a_suspended_sender() {
    let (task, waker) = counting_waker();
    let (consumer, consumer_waker) = counting_waker();
    let (mut chan, mut tx, mut rx) = channel(1);
    assert_eq!(tx.start_send(&mut chan, vec![1]), Ok(()));
    assert_eq!(tx.poll_ready(&mut chan, &waker), Poll::Pending);
    assert_eq!(rx.poll_next(&mut chan, &consumer_waker), Poll::Ready(Some(vec![1])));
    assert_eq!(wakes(&task), 1);
    assert_eq!(wakes(&consumer), 0);
    assert_eq!(tx.poll_ready(&mut chan, &waker), Poll::Ready(Ok(())));
}

#[test]
fn pop_from_empty_channel_notifies_nobody() {
    let (task, waker) = counting_waker();
    let mut chan = PyChanInner::new(1);
    chan.register_waiter(&waker);
    assert_eq!(chan.try_pop(), None);
    assert_eq!(wakes(&task), 0);
}

#[test]
fn close_resolves_a_suspended_receive_and_later_sends_do_not_wake_it() {
    let (task, waker) = counting_waker();
    let (mut chan, mut tx, mut rx) = channel(2);
    assert_eq!(rx.poll_next(&mut chan, &waker), Poll::Pending);
    assert_eq!(tx.poll_close(&mut chan), Poll::Ready(Ok(())));
    assert_eq!(wakes(&task), 1);
    assert!(chan.is_closed());
    assert_eq!(rx.poll_next(&mut chan, &waker), Poll::Ready(None));
    assert_eq!(tx.start_send(&mut chan, vec![1]), Ok(()));
    assert_eq!(tx.start_send(&mut chan, vec![2]), Ok(()));
    assert_eq!(wakes(&task), 1);
}

#[test]
fn close_is_idempotent() {
    let (task, waker) = counting_waker();
    let (mut chan, mut tx, mut rx) = channel(2);
    assert_eq!(tx.start_send(&mut chan, vec![1]), Ok(()));
    assert_eq!(tx.poll_close(&mut chan), Poll::Ready(Ok(())));
    assert_eq!(tx.poll_close(&mut chan), Poll::Ready(Ok(())));
    assert!(chan.is_closed());
    assert_eq!(wakes(&task), 0);
    assert_eq!(rx.poll_next(&mut chan, &waker), Poll::Ready(Some(vec![1])));
    assert_eq!(rx.poll_next(&mut chan, &waker), Poll::Ready(None));
}

#[test]
fn queued_chunks_drain_after_close_then_the_end_repeats() {
    let (task, waker) = counting_waker();
    let (mut chan, mut tx, mut rx) = channel(3);
    assert_eq!(tx.start_send(&mut chan, vec![1]), Ok(()));
    assert_eq!(tx.start_send(&mut chan, vec![2]), Ok(()));
    assert_eq!(tx.start_send(&mut chan, vec![3]), Ok(()));
    assert_eq!(tx.poll_close(&mut chan), Poll::Ready(Ok(())));
    assert_eq!(rx.poll_next(&mut chan, &waker), Poll::Ready(Some(vec![1])));
    assert_eq!(rx.poll_next(&mut chan, &waker), Poll::Ready(Some(vec![2])));
    assert_eq!(rx.poll_next(&mut chan, &waker), Poll::Ready(Some(vec![3])));
    for _ in 0..4 {
        assert_eq!(rx.poll_next(&mut chan, &waker), Poll::Ready(None));
    }
    assert_eq!(wakes(&task), 0);
}

#[test]
fn channel_of_capacity_zero_never_queues() {
    let (task, waker) = counting_waker();
    let (mut chan, mut tx, mut rx) = channel(0);
    assert_eq!(chan.capacity(), 0);
    assert!(chan.is_full());
    assert!(chan.is_empty());
    assert_eq!(tx.poll_ready(&mut chan, &waker), Poll::Pending);
    assert_eq!(tx.start_send(&mut chan, vec![1]), Err(Error::QueueFull));
    assert!(chan.is_empty());
    assert_eq!(wakes(&task), 0);
    assert_eq!(rx.poll_next(&mut chan, &waker), Poll::Pending);
    assert_eq!(tx.poll_close(&mut chan), Poll::Ready(Ok(())));
    assert_eq!(rx.poll_next(&mut chan, &waker), Poll::Ready(None));
}

#[test]
fn round_trip_of_no_chunk() {
    let (_task, waker) = counting_waker();
    let (mut chan, mut tx, mut rx) = channel(2);
    assert_eq!(tx.poll_close(&mut chan), Poll::Ready(Ok(())));
    assert_eq!(rx.poll_next(&mut chan, &waker), Poll::Ready(None));
}

#[test]
fn round_trip_of_many_chunks_through_a_small_channel() {
    let (_task, waker) = counting_waker();
    let (mut chan, mut tx, mut rx) = channel(2);
    let sent: Vec<Vec<u8>> = (0u8..20).map(|i| vec![i; (i % 5) as usize]).collect();
    let mut received: Vec<Vec<u8>> = Vec::new();
    for chunk in &sent {
        while tx.poll_ready(&mut chan, &waker) == Poll::Pending {
            match rx.poll_next(&mut chan, &waker) {
                Poll::Ready(Some(got)) => received.push(got),
                other => panic!("a full channel gave {:?}", other),
            }
        }
        assert_eq!(tx.start_send(&mut chan, chunk.clone()), Ok(()));
    }
    assert_eq!(tx.poll_close(&mut chan), Poll::Ready(Ok(())));
    while let Poll::Ready(Some(got)) = rx.poll_next(&mut chan, &waker) {
        received.push(got);
    }
    assert_eq!(received, sent);
    assert_eq!(rx.poll_next(&mut chan, &waker), Poll::Ready(None));
}

#[test]
fn flush_is_done_at_once_and_notifies_the_waiter() {
    let (task, waker) = counting_waker();
    let (mut chan, mut tx, mut rx) = channel(1);
    assert_eq!(tx.poll_flush(&mut chan), Poll::Ready(Ok(())));
    assert_eq!(rx.poll_next(&mut chan, &waker), Poll::Pending);
    assert_eq!(tx.poll_flush(&mut chan), Poll::Ready(Ok(())));
    assert_eq!(wakes(&task), 1);
    assert!(chan.is_empty());
    assert!(!chan.is_closed());
}

#[test]
fn send_after_close_is_queued_like_any_other() {
    let (_task, waker) = counting_waker();
    let (mut chan, mut tx, mut rx) = channel(1);
    assert_eq!(tx.poll_close(&mut chan), Poll::Ready(Ok(())));
    assert_eq!(tx.start_send(&mut chan, vec![4]), Ok(()));
    assert_eq!(tx.start_send(&mut chan, vec![5]), Err(Error::QueueFull));
    assert!(chan.is_closed());
    assert_eq!(rx.poll_next(&mut chan, &waker), Poll::Ready(Some(vec![4])));
    assert_eq!(rx.poll_next(&mut chan, &waker), Poll::Ready(None));
}

#[test]
fn core_push_and_pop_ignore_the_close_flag() {
    let mut chan = PyChanInner::new(2);
    assert_eq!(chan.try_push(vec![1]), Ok(()));
    chan.close();
    assert_eq!(chan.try_push(vec![2]), Ok(()));
    assert_eq!(chan.try_push(vec![3]), Err(Error::QueueFull));
    assert_eq!(chan.try_pop(), Some(vec![1]));
    assert_eq!(chan.try_pop(), Some(vec![2]));
    assert_eq!(chan.try_pop(), None);
    assert!(chan.is_closed());
}

#[test]
fn cloned_sender_acts_on_the_same_channel() {
    let (_task, waker) = counting_waker();
    let (mut chan, mut tx, mut rx) = channel(2);
    let mut second = tx.clone();
    assert_eq!(tx.start_send(&mut chan, vec![1]), Ok(()));
    assert_eq!(second.start_send(&mut chan, vec![2]), Ok(()));
    assert_eq!(second.poll_ready(&mut chan, &waker), Poll::Pending);
    assert_eq!(rx.poll_next(&mut chan, &waker), Poll::Ready(Some(vec![1])));
    assert_eq!(rx.poll_next(&mut chan, &waker), Poll::Ready(Some(vec![2])));
}

#[test]
fn errors_compare_by_variant() {
    assert_eq!(Error::QueueFull, Error::QueueFull);
    assert_ne!(Error::QueueFull, Error::Closed);
    assert_eq!(format!("{:?}", Error::Closed), "Closed");
}

#[test]
fn largest_channel_capacity_is_that_of_the_queue() {
    assert_eq!(PyChanInner::max_capacity(), (isize::MAX as usize) / 32);
}
