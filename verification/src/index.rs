//! The key index of the transfer registry: a `dashmap::DashMap` from
//! transfer key to slot number, with what the library relies on.

use vstd::prelude::*;
use dashmap::DashMap;

verus! {

/// The concurrent map of the `dashmap` crate, `dashmap::DashMap`.
#[verifier::external_type_specification]
#[verifier::external_body]
#[verifier::reject_recursive_types(K)]
#[verifier::reject_recursive_types(V)]
#[verifier::reject_recursive_types(S)]
pub struct ExDashMap<K, V, S>(DashMap<K, V, S>);

/// The entries of a key index: the slot number that each key stands for.
pub uninterp spec fn slots(index: DashMap<String, usize>) -> Map<Seq<char>, usize>;

/// Makes an empty index with `DashMap::new`.
#[verifier::external_body]
pub(crate) fn index_new() -> (made: DashMap<String, usize>)
    ensures
        slots(made) == (Map::<Seq<char>, usize>::empty()),
{
    DashMap::new()
}

/// Looks a key up with `DashMap::get` and copies the slot number out of
/// the guard that it returns.
#[verifier::external_body]
pub(crate) fn index_get(index: &DashMap<String, usize>, key: &str) -> (slot: Option<usize>)
    ensures
        slot == if slots(*index).dom().contains(key@) {
            Some(slots(*index)[key@])
        } else {
            None
        },
{
    index.get(key).map(|entry| *entry.value())
}

/// Stores an entry with `DashMap::insert`, which replaces the slot number
/// of a key that is already there and returns the one it replaced.
#[verifier::external_body]
pub(crate) fn index_insert(index: &mut DashMap<String, usize>, key: String, slot: usize) -> (previous:
    Option<usize>)
    ensures
        slots(*final(index)) == slots(*old(index)).insert(key@, slot),
        previous == if slots(*old(index)).dom().contains(key@) {
            Some(slots(*old(index))[key@])
        } else {
            None
        },
{
    index.insert(key, slot)
}

/// Drops an entry with `DashMap::remove` and returns the slot number that
/// the key stood for, if it was there.
#[verifier::external_body]
pub(crate) fn index_remove(index: &mut DashMap<String, usize>, key: &str) -> (previous: Option<usize>)
    ensures
        slots(*final(index)) == slots(*old(index)).remove(key@),
        previous == if slots(*old(index)).dom().contains(key@) {
            Some(slots(*old(index))[key@])
        } else {
            None
        },
{
    index.remove(key).map(|entry| entry.1)
}

} // verus!
