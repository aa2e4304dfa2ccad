//! The key-value store that holds the poll: `cosmwasm_std::MemoryStorage`.

use cosmwasm_std::{MemoryStorage, ReadonlyStorage, Storage};
use vstd::prelude::*;

verus! {

/// `cosmwasm_std::MemoryStorage`, an ordered map from byte strings to byte
/// strings. Its field is private: all that is known of a value is what
/// `contents` names.
#[verifier::external_type_specification]
#[verifier::external_body]
pub struct ExMemoryStorage(MemoryStorage);

/// The entries of a `MemoryStorage`: each key with the value last set for it.
pub uninterp spec fn contents(storage: MemoryStorage) -> Map<Seq<u8>, Seq<u8>>;

/// `ReadonlyStorage::get` on a `MemoryStorage`: a copy of the value stored
/// under `key`, or `None` where nothing is stored under it.
#[verifier::external_body]
pub(crate) fn fetch(storage: &MemoryStorage, key: &[u8]) -> (r: Option<Vec<u8>>)
    ensures
        match r {
            Some(value) => contents(*storage).contains_key(key@) && value@ == contents(*storage)[key@],
            None => !contents(*storage).contains_key(key@),
        },
{
    storage.get(key)
}

/// `Storage::set` on a `MemoryStorage`: afterwards `key` holds `value`, and
/// every other key holds what it held before.
#[verifier::external_body]
pub(crate) fn put(storage: &mut MemoryStorage, key: &[u8], value: &[u8])
    ensures
        contents(*final(storage)) == contents(*old(storage)).insert(key@, value@),
{
    storage.set(key, value)
}

} // verus!
