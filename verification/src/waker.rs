//! The waiter slot of a channel: `futures::task::AtomicWaker`, held by
//! exclusive reference, with what its operations do stated over the waker it
//! holds.

use futures::task::AtomicWaker;
use std::task::Waker;
use vstd::prelude::*;

verus! {

/// `std::task::Waker`, taken as an opaque value: the handle by which a
/// suspended task is notified.
#[verifier::external_type_specification]
#[verifier::external_body]
pub struct ExWaker(Waker);

/// `futures::task::AtomicWaker`, taken as an opaque value.
#[verifier::external_type_specification]
#[verifier::external_body]
pub struct ExAtomicWaker(AtomicWaker);

/// The waker that the next wake will notify: the last one registered and not
/// yet woken, if there is one.
pub uninterp spec fn waker_slot(slot: AtomicWaker) -> Option<Waker>;

/// `AtomicWaker::new`: a slot that holds no waker.
#[verifier::external_body]
pub(crate) fn slot_new() -> (slot: AtomicWaker)
    ensures
        waker_slot(slot) is None,
{
    AtomicWaker::new()
}

/// `AtomicWaker::register`: the given waker takes the place of whatever the
/// slot held. The slot keeps a clone of it, or the waker it held already where
/// that one wakes the same task; either is taken to be the given waker.
#[verifier::external_body]
pub(crate) fn slot_register(slot: &mut AtomicWaker, waker: &Waker)
    ensures
        waker_slot(*final(slot)) == Some(*waker),
{
    slot.register(waker)
}

/// `AtomicWaker::wake`: the waker that the slot held, if any, is taken out and
/// woken; the slot is left empty. What waking does is the waker's own affair
/// and is not stated.
#[verifier::external_body]
pub(crate) fn slot_wake(slot: &mut AtomicWaker)
    ensures
        waker_slot(*final(slot)) is None,
{
    slot.wake()
}

} // verus!
