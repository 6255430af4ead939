//! The hash map that the trackers keep their entries in, and what is taken on
//! trust about it.
//!
//! The map is `gfx_hal::backend::FastHashMap`: `std`'s `HashMap` with hashers
//! of `fxhash`. Its keys are slots, plain `u32`s, and each of its hashers
//! starts from the same state and hashes by arithmetic on the bytes it is
//! given, so equal slots hash alike and the map behaves as `std` documents
//! `HashMap`. Its contents are spoken of through the view that `vstd` gives
//! every `HashMap`: the mathematical map from the keys to their values.

use crate::hub::{Index, RefCount};
use gfx_hal::backend::FastHashMap;
use std::borrow::Borrow;
use std::sync::Arc;
use vstd::prelude::*;

verus! {

/// `fxhash::FxHasher`, the hasher of `FastHashMap`. Nothing is said of it.
#[verifier::external_type_specification]
#[verifier::external_body]
pub struct ExFxHasher(fxhash::FxHasher);

/// `std::hash::BuildHasherDefault`, which makes the hashers of `FastHashMap`.
/// Nothing is said of it.
#[verifier::external_type_specification]
#[verifier::external_body]
#[verifier::reject_recursive_types(H)]
pub struct ExBuildHasherDefault<H>(std::hash::BuildHasherDefault<H>);

/// `HashMap::get`: the value stored under `index`, if there is one.
#[verifier::external_body]
pub(crate) fn slot_ref<'a, V>(map: &'a FastHashMap<Index, V>, index: Index) -> (found: Option<&'a V>)
    ensures
        found == (if map@.contains_key(index) {
            Some(&map@[index])
        } else {
            None
        }),
{
    map.get(&index)
}

/// `HashMap::get_mut`: a mutable borrow of the value stored under `index`, if
/// there is one. The map ends with whatever the borrow is left holding under
/// `index`, and is otherwise unchanged.
#[verifier::external_body]
pub(crate) fn slot_mut<'a, V>(map: &'a mut FastHashMap<Index, V>, index: Index) -> (found: Option<
    &'a mut V,
>)
    ensures
        match found {
            Some(value) => {
                &&& old(map)@.contains_key(index)
                &&& *value == old(map)@[index]
                &&& final(map)@ == old(map)@.insert(index, *final(value))
            },
            None => !old(map)@.contains_key(index) && final(map)@ == old(map)@,
        },
{
    map.get_mut(&index)
}

/// `HashMap::insert`: afterwards `index` maps to `value`; the value that it
/// mapped to before is returned.
#[verifier::external_body]
pub(crate) fn slot_insert<V>(map: &mut FastHashMap<Index, V>, index: Index, value: V) -> (replaced:
    Option<V>)
    ensures
        final(map)@ == old(map)@.insert(index, value),
        replaced == old(map)@.get(index),
{
    map.insert(index, value)
}

/// `HashMap::remove`: afterwards nothing is stored under `index`; the value
/// that was stored there is returned.
#[verifier::external_body]
pub(crate) fn slot_take<V>(map: &mut FastHashMap<Index, V>, index: Index) -> (taken: Option<V>)
    ensures
        final(map)@ == old(map)@.remove(index),
        taken == old(map)@.get(index),
{
    map.remove(&index)
}

/// `HashMap::keys`: every occupied slot exactly once. The order is the
/// map's own and nothing is said of it.
#[verifier::external_body]
pub(crate) fn slot_indices<V>(map: &FastHashMap<Index, V>) -> (indices: Vec<Index>)
    ensures
        indices@.no_duplicates(),
        indices@.to_set() == map@.dom(),
{
    map.keys().copied().collect()
}

/// `Arc::clone`: one more holder of the token. A token has nothing inside, so
/// there is nothing to say of the clone.
#[verifier::external_body]
pub(crate) fn token_clone(token: &RefCount) -> RefCount {
    Arc::clone(token)
}

/// `Borrow::borrow`: the liveness token inside a resource. Which token a
/// resource lends is its own affair, so nothing is promised of it.
#[verifier::external_body]
pub(crate) fn lent_ref_count<T: Borrow<RefCount>>(item: &T) -> &RefCount {
    item.borrow()
}

} // verus!
