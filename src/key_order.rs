//! An insertion-ordered set of 128-bit keys with constant-time lookup of a
//! key's position, kept in an `indexmap::IndexSet`.

use vstd::prelude::*;
use indexmap::IndexSet;

verus! {

#[verifier::external_type_specification]
#[verifier::external_body]
#[verifier::reject_recursive_types(T)]
#[verifier::reject_recursive_types(S)]
pub struct ExIndexSet<T, S>(IndexSet<T, S>);

/// Relies on `IndexSet`'s `Clone`, which a cloned `Track` calls; nothing is
/// stated of the copy.
pub assume_specification<T, S>[ <IndexSet<T, S> as Clone>::clone ](s: &IndexSet<T, S>) -> IndexSet<T, S>
    where
        T: Clone,
        S: Clone,
;

/// The keys of the set, in the order they were inserted.
pub uninterp spec fn key_order(s: IndexSet<u128>) -> Seq<u128>;

/// Relies on `IndexSet::new`: a new set is empty.
#[verifier::external_body]
pub(crate) fn keys_new() -> (r: IndexSet<u128>)
    ensures
        key_order(r) == Seq::<u128>::empty(),
{
    IndexSet::new()
}

/// Relies on `IndexSet::get_index_of`: the position of `key` in insertion
/// order, or `None` when the set does not hold it.
#[verifier::external_body]
pub(crate) fn keys_position(s: &IndexSet<u128>, key: u128) -> (r: Option<usize>)
    ensures
        match r {
            Some(i) => i < key_order(*s).len() && key_order(*s)[i as int] == key,
            None => !key_order(*s).contains(key),
        },
{
    s.get_index_of(&key)
}

/// Relies on `IndexSet::insert`: a key the set already holds leaves it
/// unchanged, keeping its order; another key is appended.
#[verifier::external_body]
pub(crate) fn keys_insert(s: &mut IndexSet<u128>, key: u128) -> (r: bool)
    ensures
        key_order(*old(s)).contains(key) ==> !r && key_order(*final(s)) == key_order(*old(s)),
        !key_order(*old(s)).contains(key) ==> r && key_order(*final(s)) == key_order(*old(s)).push(key),
{
    s.insert(key)
}

/// Relies on `IndexSet::shift_remove_index`: the key at position `i` is
/// removed and the keys after it shift down, keeping their order.
#[verifier::external_body]
pub(crate) fn keys_remove_at(s: &mut IndexSet<u128>, i: usize) -> (r: Option<u128>)
    requires
        i < key_order(*old(s)).len(),
    ensures
        r == Some(key_order(*old(s))[i as int]),
        key_order(*final(s)) == key_order(*old(s)).remove(i as int),
{
    s.shift_remove_index(i)
}

} // verus!
