//! The concurrent hash map that finds a record's slot by its key.
//!
//! Nothing in this file is proved: it declares the map type of the `dashmap`
//! crate, gives a name to what such a map holds, and states for the four calls
//! that the library makes what each does to that content.
//!
//! The map's own methods change it through a shared reference. Here a call
//! that changes the map takes it by `&mut`: the table that owns the map is its
//! only user, and what the map holds changes only where the types say so.

use dashmap::DashMap;
use vstd::prelude::*;

verus! {

#[verifier::external_type_specification]
#[verifier::external_body]
#[verifier::reject_recursive_types(K)]
#[verifier::reject_recursive_types(V)]
#[verifier::reject_recursive_types(S)]
pub struct ExDashMap<K, V, S>(DashMap<K, V, S>);

/// The key-to-slot associations that a `DashMap<String, usize>` holds, each
/// key taken as its sequence of characters.
pub uninterp spec fn index_entries(m: DashMap<String, usize>) -> Map<Seq<char>, usize>;

/// `DashMap::new`: a map without entries.
#[verifier::external_body]
pub(crate) fn index_new() -> (m: DashMap<String, usize>)
    ensures
        forall|k: Seq<char>| !index_entries(m).contains_key(k),
{
    DashMap::new()
}

/// `DashMap::get`, with the slot copied out of the guard: the slot stored
/// under `key`, if the map has that key.
#[verifier::external_body]
pub(crate) fn index_get(m: &DashMap<String, usize>, key: &str) -> (slot: Option<usize>)
    ensures
        slot == (if index_entries(*m).contains_key(key@) {
            Some(index_entries(*m)[key@])
        } else {
            None
        }),
{
    m.get(key).map(|entry| *entry.value())
}

/// `DashMap::insert`: afterwards `key` leads to `slot` and every other key to
/// what it led to before; the result is the slot that `key` led to before.
#[verifier::external_body]
pub(crate) fn index_insert(m: &mut DashMap<String, usize>, key: String, slot: usize) -> (prev:
    Option<usize>)
    ensures
        index_entries(*final(m)) == index_entries(*old(m)).insert(key@, slot),
        prev == (if index_entries(*old(m)).contains_key(key@) {
            Some(index_entries(*old(m))[key@])
        } else {
            None
        }),
{
    m.insert(key, slot)
}

/// `DashMap::remove`: afterwards the map lacks `key` and is otherwise as
/// before; the result is the slot that `key` led to.
#[verifier::external_body]
pub(crate) fn index_remove(m: &mut DashMap<String, usize>, key: &str) -> (prev: Option<usize>)
    ensures
        index_entries(*final(m)) == index_entries(*old(m)).remove(key@),
        prev == (if index_entries(*old(m)).contains_key(key@) {
            Some(index_entries(*old(m))[key@])
        } else {
            None
        }),
{
    m.remove(key).map(|entry| entry.1)
}

} // verus!
