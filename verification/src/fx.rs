//! `u16`-keyed hash tables over the hasher of the `fxhash` crate.
use std::collections::HashMap;
use std::hash::BuildHasherDefault;

use fxhash::{FxBuildHasher, FxHasher};
use vstd::prelude::*;

verus! {

/// `fxhash::FxHasher`, carried through as the hasher of the tables.
#[verifier::external_type_specification]
#[verifier::external_body]
pub struct ExFxHasher(FxHasher);

/// `std::hash::BuildHasherDefault`, which makes the hashers of the tables.
#[verifier::external_type_specification]
#[verifier::external_body]
#[verifier::reject_recursive_types(H)]
pub struct ExBuildHasherDefault<H>(BuildHasherDefault<H>);

/// A table without entries.
pub(crate) fn fx_table<V>() -> (r: HashMap<u16, V, FxBuildHasher>)
    ensures
        r@.is_empty(),
{
    HashMap::default()
}

/// `HashMap::get` over `FxBuildHasher`: the value under `key`, and `None` exactly
/// where the table has no entry for it. The hasher starts from a fixed state, so
/// one key always has one hash.
#[verifier::external_body]
pub(crate) fn fx_get<V>(table: &HashMap<u16, V, FxBuildHasher>, key: u16) -> (r: Option<&V>)
    ensures
        match r {
            Some(value) => table@.contains_key(key) && *value == table@[key],
            None => !table@.contains_key(key),
        },
{
    table.get(&key)
}

/// `HashMap::insert` over `FxBuildHasher`: `value` stands under `key` afterwards,
/// in the place of what stood there, and every other entry is as it was.
#[verifier::external_body]
pub(crate) fn fx_insert<V>(table: &mut HashMap<u16, V, FxBuildHasher>, key: u16, value: V)
    ensures
        final(table)@ == old(table)@.insert(key, value),
{
    table.insert(key, value);
}

} // verus!
