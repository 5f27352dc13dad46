//! The hash table behind the solidity tracker.
//!
//! The table is `rustc_hash::FxHashMap<Vec<u8>, bool>`: the standard library's `HashMap`
//! with the Fx hasher. Verus does not look inside it. What this module says of it is
//! taken on trust from the documentation of `HashMap`: a key is found again by the bytes it
//! holds, so the table is modelled as a map from byte sequences to flags.

use rustc_hash::FxBuildHasher;
use rustc_hash::FxHashMap;
use vstd::prelude::*;

verus! {

/// `rustc_hash::FxBuildHasher`, the hasher of the table. Nothing is said of it.
#[verifier::external_type_specification]
#[verifier::external_body]
pub struct ExFxBuildHasher(FxBuildHasher);

/// What a table holds: for each key, given by its bytes, the flag stored under it.
pub uninterp spec fn entries(table: FxHashMap<Vec<u8>, bool>) -> Map<Seq<u8>, bool>;

/// Calls `FxHashMap::default`. Trusted: the new table holds no key.
#[verifier::external_body]
pub(crate) fn table_new() -> (fresh: FxHashMap<Vec<u8>, bool>)
    ensures
        entries(fresh).dom() == Set::<Seq<u8>>::empty(),
{
    FxHashMap::default()
}

/// Calls `HashMap::len`. Trusted: the result is the number of keys that the table holds.
#[verifier::external_body]
pub(crate) fn table_len(table: &FxHashMap<Vec<u8>, bool>) -> (n: usize)
    ensures
        n == entries(*table).dom().len(),
{
    table.len()
}

/// Calls `HashMap::get_mut`. Trusted: where the table holds `key`, the result is a
/// reference to the flag stored under it, and the table ends as it was but for what the
/// caller writes through that reference; where it does not, the result is `None` and the
/// table stays as it was.
#[verifier::external_body]
pub(crate) fn table_get_mut<'a>(table: &'a mut FxHashMap<Vec<u8>, bool>, key: &Vec<u8>) -> (flag:
    Option<&'a mut bool>)
    ensures
        match flag {
            Some(f) => entries(*old(table)).contains_key(key@) && *f == entries(*old(table))[key@]
                && entries(*final(table)) == entries(*old(table)).insert(key@, *final(f)),
            None => !entries(*old(table)).contains_key(key@) && entries(*final(table)) == entries(
                *old(table),
            ),
        },
{
    table.get_mut(key)
}

/// Calls `HashMap::insert`. Trusted: afterwards `key` holds `flag`, whether or not the
/// table held `key` before, and every other key holds what it held.
#[verifier::external_body]
pub(crate) fn table_insert(table: &mut FxHashMap<Vec<u8>, bool>, key: Vec<u8>, flag: bool)
    ensures
        entries(*final(table)) == entries(*old(table)).insert(key@, flag),
{
    table.insert(key, flag);
}

} // verus!
