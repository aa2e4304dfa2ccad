//! The poll's records as they lie in storage: the text under `POLL_KEY`, the
//! tally under `TALLY_KEY`, and each voter's ballot under the voter's
//! identifier.

use crate::codec::{ballot_decoding, tally_decoding, text_of};
use crate::error::PollError;
use crate::keys::{POLL_KEY, TALLY_KEY};
use crate::state::{Ballot, BallotView, Tally, TallyView};
use crate::storage::{contents, fetch};
use cosmwasm_std::MemoryStorage;
use vstd::prelude::*;
use vstd::utf8::{decode_utf8, valid_utf8};

verus! {

/// The entries of a store: what lies under each key.
pub type Entries = Map<Seq<u8>, Seq<u8>>;

/// The tally that the entries `m` hold, where they hold one.
pub open spec fn tally_in(m: Entries) -> Option<TallyView> {
    if m.contains_key(TALLY_KEY@) {
        tally_decoding(m[TALLY_KEY@])
    } else {
        None
    }
}

/// The ballot that the entries `m` hold for `id`, where they hold one.
pub open spec fn ballot_in(m: Entries, id: Seq<u8>) -> Option<BallotView> {
    if m.contains_key(id) {
        ballot_decoding(m[id])
    } else {
        None
    }
}

/// The poll's text that the entries `m` hold, where they hold one.
pub open spec fn poll_in(m: Entries) -> Option<Seq<char>> {
    if m.contains_key(POLL_KEY@) && valid_utf8(m[POLL_KEY@]) {
        Some(decode_utf8(m[POLL_KEY@]))
    } else {
        None
    }
}

/// Reads the tally. Fails with `Storage` exactly when storage holds none.
pub fn load_tally(storage: &MemoryStorage) -> (r: Result<Tally, PollError>)
    ensures
        match r {
            Ok(tally) => tally_in(contents(*storage)) == Some(tally@),
            Err(e) => e == PollError::Storage && tally_in(contents(*storage)) is None,
        },
{
    match fetch(storage, TALLY_KEY.as_slice()) {
        Some(bytes) => Tally::deserialize(bytes.as_slice()),
        None => Err(PollError::Storage),
    }
}

/// Reads the ballot of `id`. Fails with `Storage` exactly when storage holds
/// none for `id`.
pub fn load_ballot(storage: &MemoryStorage, id: &[u8]) -> (r: Result<Ballot, PollError>)
    ensures
        match r {
            Ok(ballot) => ballot_in(contents(*storage), id@) == Some(ballot@),
            Err(e) => e == PollError::Storage && ballot_in(contents(*storage), id@) is None,
        },
{
    match fetch(storage, id) {
        Some(bytes) => Ballot::deserialize(bytes.as_slice()),
        None => Err(PollError::Storage),
    }
}

/// Reads the poll's text. Fails with `Storage` exactly when storage holds
/// none.
pub fn load_poll(storage: &MemoryStorage) -> (r: Result<String, PollError>)
    ensures
        match r {
            Ok(text) => poll_in(contents(*storage)) == Some(text@),
            Err(e) => e == PollError::Storage && poll_in(contents(*storage)) is None,
        },
{
    match fetch(storage, POLL_KEY.as_slice()) {
        Some(bytes) => match text_of(bytes) {
            Some(text) => Ok(text),
            None => Err(PollError::Storage),
        },
        None => Err(PollError::Storage),
    }
}

} // verus!
