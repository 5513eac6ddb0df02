//! The hash maps of the pending state, and the hash sets that compare blocks.
//!
//! The maps are those of `alloy_primitives::map::foldhash`: `std::collections::HashMap` with the
//! `foldhash` hasher. Their keys are byte arrays, whose equality and hash std documents. What
//! this module states of them is not proved here; the rest of the crate is proved from it.

use std::collections::HashSet;

use alloy_primitives::map::foldhash::{HashMap, HashMapExt};
use vstd::prelude::*;

use crate::primitives::B256;

verus! {

/// The hasher state of the maps. Nothing is known of a value of it.
#[verifier::external_type_specification]
#[verifier::external_body]
pub struct ExRandomState(alloy_primitives::map::foldhash::fast::RandomState);

/// The value of a key, where it has one.
pub open spec fn lookup<K, V>(map: Map<K, V>, key: K) -> Option<V> {
    if map.contains_key(key) {
        Some(map[key])
    } else {
        None
    }
}

/// Trusted: `HashMapExt::new` makes a map that holds nothing.
#[verifier::external_body]
pub(crate) fn map_new<const N: usize, V>() -> (empty: HashMap<[u8; N], V>)
    ensures
        empty@.dom() == Set::<[u8; N]>::empty(),
{
    HashMap::new()
}

/// Trusted: `HashMap::insert` maps the key to the value, in place of what it was mapped to
/// before, and leaves every other key alone.
#[verifier::external_body]
pub(crate) fn map_insert<const N: usize, V>(map: &mut HashMap<[u8; N], V>, key: [u8; N], value: V)
    ensures
        final(map)@ == old(map)@.insert(key, value),
{
    map.insert(key, value);
}

/// Trusted: `HashMap::get` returns the value of the key, and nothing for a key that is not in
/// the map.
#[verifier::external_body]
pub(crate) fn map_get<'a, const N: usize, V>(map: &'a HashMap<[u8; N], V>, key: &[u8; N]) -> (value:
    Option<&'a V>)
    ensures
        match value {
            Some(v) => map@.contains_key(*key) && *v == map@[*key],
            None => !map@.contains_key(*key),
        },
{
    map.get(key)
}

/// Trusted: `HashMap::remove` takes the key out of the map and returns the value it had.
#[verifier::external_body]
pub(crate) fn map_remove<const N: usize, V>(
    map: &mut HashMap<[u8; N], V>,
    key: &[u8; N],
) -> (value: Option<V>)
    ensures
        final(map)@ == old(map)@.remove(*key),
        match value {
            Some(v) => old(map)@.contains_key(*key) && v == old(map)@[*key],
            None => !old(map)@.contains_key(*key),
        },
{
    map.remove(key)
}

/// Trusted: `HashMap::keys` visits each key of the map once. The order in which it does is not
/// stated: it differs from one process to the next.
#[verifier::external_body]
pub(crate) fn map_keys<const N: usize, V>(map: &HashMap<[u8; N], V>) -> (keys: Vec<[u8; N]>)
    ensures
        keys@.no_duplicates(),
        keys@.to_set() == map@.dom(),
{
    map.keys().copied().collect()
}

/// Trusted: `HashMap::clone` makes a map with the same keys, each mapped to a clone of the value
/// that it has in the first.
#[verifier::external_body]
pub(crate) fn map_clone<const N: usize, V: Clone>(map: &HashMap<[u8; N], V>) -> (copy: HashMap<
    [u8; N],
    V,
>)
    ensures
        copy@.dom() == map@.dom(),
        forall|key: [u8; N]| #[trigger]
            map@.contains_key(key) ==> cloned::<V>(map@[key], copy@[key]),
{
    map.clone()
}

/// Trusted: collecting into a `std::collections::HashSet` keeps each element once.
#[verifier::external_body]
pub(crate) fn hash_set(hashes: Vec<B256>) -> (set: HashSet<B256>)
    ensures
        set@ == hashes@.to_set(),
{
    hashes.into_iter().collect()
}

/// Trusted: two `std::collections::HashSet`s are equal when they hold the same elements.
#[verifier::external_body]
pub(crate) fn hash_set_eq(a: &HashSet<B256>, b: &HashSet<B256>) -> (equal: bool)
    ensures
        equal == (a@ == b@),
{
    a == b
}

} // verus!
