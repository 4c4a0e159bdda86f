//! Hash maps keyed by node id and hashed by `rustc_hash`.

use rustc_hash::FxHashMap;
use vstd::prelude::*;

verus! {

/// The hash builder behind `rustc_hash::FxHashMap`; only ever carried as a type parameter.
#[verifier::external_type_specification]
#[verifier::external_body]
pub struct ExFxBuildHasher(rustc_hash::FxBuildHasher);

/// `HashMap::insert` on an `FxHashMap`: the key now maps to `value`, every other entry is kept.
/// `FxHasher` is deterministic and unseeded, and `u32` has the usual `Eq` and `Hash`.
#[verifier::external_body]
pub(crate) fn fx_insert<V>(map: &mut FxHashMap<u32, V>, key: u32, value: V)
    ensures
        final(map)@ == old(map)@.insert(key, value),
{
    map.insert(key, value);
}

/// `HashMap::get` on an `FxHashMap`: the value stored under `key`, `None` if there is none.
#[verifier::external_body]
pub(crate) fn fx_get<V>(map: &FxHashMap<u32, V>, key: u32) -> (value: Option<&V>)
    ensures
        match value {
            Some(v) => map@.contains_key(key) && *v == map@[key],
            None => !map@.contains_key(key),
        },
{
    map.get(&key)
}

/// `HashMap::remove` on an `FxHashMap`: the entry under `key` is gone, every other one is kept.
#[verifier::external_body]
pub(crate) fn fx_remove<V>(map: &mut FxHashMap<u32, V>, key: u32)
    ensures
        final(map)@ == old(map)@.remove(key),
{
    map.remove(&key);
}

/// `HashMap::keys` on an `FxHashMap`: every key once, in an order that is not specified.
#[verifier::external_body]
pub(crate) fn fx_keys<V>(map: &FxHashMap<u32, V>) -> (keys: Vec<u32>)
    ensures
        keys@.no_duplicates(),
        keys@.to_set() == map@.dom(),
{
    map.keys().copied().collect()
}

} // verus!
