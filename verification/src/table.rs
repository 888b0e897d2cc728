//! Hash tables with the FNV hasher, as the engine uses them: keyed by a
//! worker index or by an agent id.

use fnv::FnvHashMap;
use std::hash::Hash;
use vstd::prelude::*;
use vstd::std_specs::hash::obeys_key_model;

verus! {

/// `FnvHasher` of the fnv crate: the hasher of the tables. Nothing is said
/// of what is in it.
#[verifier::external_type_specification]
#[verifier::external_body]
pub struct ExFnvHasher(fnv::FnvHasher);

/// `BuildHasherDefault` of `std`: what makes the hashers of a table. Nothing
/// is said of what is in it.
#[verifier::external_type_specification]
#[verifier::external_body]
#[verifier::reject_recursive_types(H)]
pub struct ExBuildHasherDefault<H>(core::hash::BuildHasherDefault<H>);

/// `HashMap::insert` on a table with the FNV hasher: the key is bound to the
/// value, and the value that the key was bound to before is handed back.
#[verifier::external_body]
pub(crate) fn table_insert<K: Hash + Eq, V>(
    table: &mut FnvHashMap<K, V>,
    key: K,
    value: V,
) -> (previous: Option<V>)
    requires
        obeys_key_model::<K>(),
    ensures
        final(table)@ == old(table)@.insert(key, value),
        previous == (if old(table)@.contains_key(key) {
            Some(old(table)@[key])
        } else {
            None
        }),
{
    table.insert(key, value)
}

/// `HashMap::remove` on a table with the FNV hasher: the key is unbound, and
/// the value that it was bound to is handed back.
#[verifier::external_body]
pub(crate) fn table_remove<K: Hash + Eq, V>(table: &mut FnvHashMap<K, V>, key: &K) -> (previous:
    Option<V>)
    requires
        obeys_key_model::<K>(),
    ensures
        final(table)@ == old(table)@.remove(*key),
        previous == (if old(table)@.contains_key(*key) {
            Some(old(table)@[*key])
        } else {
            None
        }),
{
    table.remove(key)
}

/// `HashMap::get` on a table with the FNV hasher: the value that the key is
/// bound to.
#[verifier::external_body]
pub(crate) fn table_get<'a, K: Hash + Eq, V>(table: &'a FnvHashMap<K, V>, key: &K) -> (value:
    Option<&'a V>)
    requires
        obeys_key_model::<K>(),
    ensures
        value == (if table@.contains_key(*key) {
            Some(&table@[*key])
        } else {
            None
        }),
{
    table.get(key)
}

/// `HashMap::keys` on a table with the FNV hasher, collected: every key of
/// the table once, in the order in which the table is walked.
#[verifier::external_body]
pub(crate) fn table_keys<K: Hash + Eq + Copy, V>(table: &FnvHashMap<K, V>) -> (keys: Vec<K>)
    requires
        obeys_key_model::<K>(),
    ensures
        keys@.no_duplicates(),
        keys@.to_set() == table@.dom(),
{
    table.keys().copied().collect()
}

/// `HashMap::len` on a table with the FNV hasher: the number of keys.
#[verifier::external_body]
pub(crate) fn table_len<K: Hash + Eq, V>(table: &FnvHashMap<K, V>) -> (len: usize)
    requires
        obeys_key_model::<K>(),
    ensures
        len == table@.len(),
{
    table.len()
}

} // verus!
