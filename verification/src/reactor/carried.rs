//! The map that the readiness of connections is carried over in.

use rustc_hash::{FxBuildHasher, FxHashMap};

use vstd::prelude::*;

use crate::reactor::readiness::Readiness;

verus! {

/// Declares `rustc_hash::FxBuildHasher`.
#[verifier::external_type_specification]
#[verifier::external_body]
pub struct ExFxBuildHasher(FxBuildHasher);

/// Calls `HashMap::get` on a `rustc_hash::FxHashMap`, and copies the value: the value under a key,
/// if there is one.
#[verifier::external_body]
pub(crate) fn carried_get(map: &FxHashMap<usize, Readiness>, key: usize) -> (value: Option<
    Readiness,
>)
    ensures
        value == (if map@.contains_key(key) {
            Some(map@[key])
        } else {
            None
        }),
{
    map.get(&key).copied()
}

/// Calls `HashMap::insert` on a `rustc_hash::FxHashMap`: puts a value under a key, in place of the
/// one that was there.
#[verifier::external_body]
pub(crate) fn carried_insert(map: &mut FxHashMap<usize, Readiness>, key: usize, value: Readiness)
    ensures
        final(map)@ == old(map)@.insert(key, value),
{
    map.insert(key, value);
}

/// Calls `HashMap::remove` on a `rustc_hash::FxHashMap`: takes away the value under a key, if
/// there is one.
#[verifier::external_body]
pub(crate) fn carried_remove(map: &mut FxHashMap<usize, Readiness>, key: usize)
    ensures
        final(map)@ == old(map)@.remove(key),
{
    map.remove(&key);
}

/// Calls `HashMap::keys` on a `rustc_hash::FxHashMap`: the keys of all values, each of them once.
/// Their order is not stated.
#[verifier::external_body]
pub(crate) fn carried_keys(map: &FxHashMap<usize, Readiness>) -> (keys: Vec<usize>)
    ensures
        keys@.no_duplicates(),
        forall|key: usize| map@.contains_key(key) <==> #[trigger] keys@.contains(key),
{
    map.keys().copied().collect()
}

} // verus!
