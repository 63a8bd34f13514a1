//! The scratch cell of a reader: `crossbeam_utils::atomic::AtomicCell`, held
//! by exclusive reference, with what its operations do stated over the value
//! it holds.

use crossbeam_utils::atomic::AtomicCell;
use vstd::prelude::*;

verus! {

/// `crossbeam_utils::atomic::AtomicCell`, taken as an opaque value.
#[verifier::external_type_specification]
#[verifier::external_body]
#[verifier::reject_recursive_types(T)]
pub struct ExAtomicCell<T>(AtomicCell<T>);

/// What the cell holds: a chunk and the number of its bytes already handed
/// out, or nothing.
pub uninterp spec fn cell_value(cell: AtomicCell<Option<(usize, Vec<u8>)>>) -> Option<
    (usize, Seq<u8>),
>;

/// A value for the cell, with the chunk taken by its bytes.
pub open spec fn held(value: Option<(usize, Vec<u8>)>) -> Option<(usize, Seq<u8>)> {
    match value {
        Some((cursor, bytes)) => Some((cursor, bytes@)),
        None => None,
    }
}

/// `AtomicCell::new`: a cell that holds the given value.
#[verifier::external_body]
pub(crate) fn cell_new(value: Option<(usize, Vec<u8>)>) -> (cell: AtomicCell<
    Option<(usize, Vec<u8>)>,
>)
    ensures
        cell_value(cell) == held(value),
{
    AtomicCell::new(value)
}

/// `AtomicCell::take`: hands out what the cell held and leaves the default,
/// which for an `Option` is `None`. It does not panic.
#[verifier::external_body]
pub(crate) fn cell_take(cell: &mut AtomicCell<Option<(usize, Vec<u8>)>>) -> (value: Option<
    (usize, Vec<u8>),
>)
    ensures
        cell_value(*final(cell)) is None,
        cell_value(*old(cell)) == held(value),
    no_unwind
{
    cell.take()
}

/// `AtomicCell::store`: the cell holds the given value; what it held before is
/// dropped. It does not panic.
#[verifier::external_body]
pub(crate) fn cell_store(cell: &mut AtomicCell<Option<(usize, Vec<u8>)>>, value: Option<
    (usize, Vec<u8>),
>)
    ensures
        cell_value(*final(cell)) == held(value),
    no_unwind
{
    cell.store(value)
}

} // verus!
