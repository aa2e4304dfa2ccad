//! The byte form of the records: the tally and the ballots are made and read
//! by `bincode2` in its default configuration, and the poll's text is UTF-8.

use crate::error::PollError;
use crate::state::{Ballot, BallotView, Tally, TallyView};
use bincode2::ErrorKind;
use vstd::prelude::*;
use vstd::utf8::{decode_utf8, valid_utf8};

verus! {

/// `bincode2::ErrorKind`, the reason for which encoding or decoding failed.
/// Nothing is read from it.
#[verifier::external_type_specification]
#[verifier::external_body]
pub struct ExErrorKind(ErrorKind);

/// What `bincode2::serialize` gives for the fields of a tally, in the order
/// in which the record declares them; `None` where it refuses.
pub uninterp spec fn tally_encoding(tally: TallyView) -> Option<Seq<u8>>;

/// What `bincode2::deserialize` reads from `bytes` as the fields of a tally;
/// `None` where it refuses.
pub uninterp spec fn tally_decoding(bytes: Seq<u8>) -> Option<TallyView>;

/// What `bincode2::serialize` gives for the fields of a ballot, in the order
/// in which the record declares them; `None` where it refuses.
pub uninterp spec fn ballot_encoding(ballot: BallotView) -> Option<Seq<u8>>;

/// What `bincode2::deserialize` reads from `bytes` as the fields of a ballot;
/// `None` where it refuses.
pub uninterp spec fn ballot_decoding(bytes: Seq<u8>) -> Option<BallotView>;

/// `bincode2::serialize` on the seven fields of a tally, as a tuple. Claimed
/// and not proved: the bytes depend on the fields alone, and
/// `bincode2::deserialize` reads the same fields back from them.
#[verifier::external_body]
fn encode_tally(tally: &Tally) -> (r: Result<Vec<u8>, Box<ErrorKind>>)
    ensures
        match r {
            Ok(bytes) => tally_encoding(tally@) == Some(bytes@) && tally_decoding(bytes@) == Some(
                tally@,
            ),
            Err(_) => tally_encoding(tally@) is None,
        },
{
    bincode2::serialize(
        &(
            tally.yes,
            tally.no,
            &tally.voters,
            tally.init_timestamp,
            tally.end_timestamp,
            tally.early_results_allowed,
            tally.is_completed,
        ),
    )
}

/// `bincode2::deserialize` of the seven fields of a tally, as a tuple.
/// Claimed and not proved: the outcome depends on the bytes alone.
#[verifier::external_body]
fn decode_tally(data: &[u8]) -> (r: Result<Tally, Box<ErrorKind>>)
    ensures
        match r {
            Ok(tally) => tally_decoding(data@) == Some(tally@),
            Err(_) => tally_decoding(data@) is None,
        },
{
    let (yes, no, voters, init_timestamp, end_timestamp, early_results_allowed, is_completed) =
        bincode2::deserialize(data)?;
    Ok(Tally { yes, no, voters, init_timestamp, end_timestamp, early_results_allowed, is_completed })
}

/// `bincode2::serialize` on the five fields of a ballot, as a tuple. Claimed
/// and not proved: the bytes depend on the fields alone, and
/// `bincode2::deserialize` reads the same fields back from them.
#[verifier::external_body]
fn encode_ballot(ballot: &Ballot) -> (r: Result<Vec<u8>, Box<ErrorKind>>)
    ensures
        match r {
            Ok(bytes) => ballot_encoding(ballot@) == Some(bytes@) && ballot_decoding(bytes@)
                == Some(ballot@),
            Err(_) => ballot_encoding(ballot@) is None,
        },
{
    bincode2::serialize(
        &(ballot.has_voted, ballot.timestamp, ballot.vote, &ballot.delegate, ballot.vote_value),
    )
}

/// `bincode2::deserialize` of the five fields of a ballot, as a tuple.
/// Claimed and not proved: the outcome depends on the bytes alone.
#[verifier::external_body]
fn decode_ballot(data: &[u8]) -> (r: Result<Ballot, Box<ErrorKind>>)
    ensures
        match r {
            Ok(ballot) => ballot_decoding(data@) == Some(ballot@),
            Err(_) => ballot_decoding(data@) is None,
        },
{
    let (has_voted, timestamp, vote, delegate, vote_value) = bincode2::deserialize(data)?;
    Ok(Ballot { has_voted, timestamp, vote, delegate, vote_value })
}

/// `String::from_utf8`: the text that `bytes` encode, or `None` where they
/// are not valid UTF-8.
#[verifier::external_body]
pub(crate) fn text_of(bytes: Vec<u8>) -> (r: Option<String>)
    ensures
        match r {
            Some(text) => valid_utf8(bytes@) && text@ == decode_utf8(bytes@),
            None => !valid_utf8(bytes@),
        },
{
    String::from_utf8(bytes).ok()
}

/// The bytes under which `tally` is stored: its encoding, where there is one
/// and it decodes to `tally` again.
pub open spec fn tally_bytes(tally: TallyView) -> Option<Seq<u8>> {
    match tally_encoding(tally) {
        Some(bytes) => if tally_decoding(bytes) == Some(tally) {
            Some(bytes)
        } else {
            None
        },
        None => None,
    }
}

/// The bytes under which `ballot` is stored: its encoding, where there is one
/// and it decodes to `ballot` again.
pub open spec fn ballot_bytes(ballot: BallotView) -> Option<Seq<u8>> {
    match ballot_encoding(ballot) {
        Some(bytes) => if ballot_decoding(bytes) == Some(ballot) {
            Some(bytes)
        } else {
            None
        },
        None => None,
    }
}

impl Tally {
    /// The bytes under which the tally is stored. Fails with `Storage` exactly
    /// when the tally has no such bytes.
    pub fn serialize(&self) -> (r: Result<Vec<u8>, PollError>)
        ensures
            match r {
                Ok(bytes) => tally_bytes(self@) == Some(bytes@),
                Err(e) => e == PollError::Storage && tally_bytes(self@) is None,
            },
    {
        match encode_tally(self) {
            Ok(bytes) => Ok(bytes),
            Err(_) => Err(PollError::Storage),
        }
    }

    /// The tally that `data` holds. Fails with `Storage` exactly when `data`
    /// does not decode to a tally.
    pub fn deserialize(data: &[u8]) -> (r: Result<Tally, PollError>)
        ensures
            match r {
                Ok(tally) => tally_decoding(data@) == Some(tally@),
                Err(e) => e == PollError::Storage && tally_decoding(data@) is None,
            },
    {
        match decode_tally(data) {
            Ok(tally) => Ok(tally),
            Err(_) => Err(PollError::Storage),
        }
    }
}

impl Ballot {
    /// The bytes under which the ballot is stored. Fails with `Storage`
    /// exactly when the ballot has no such bytes.
    pub fn serialize(&self) -> (r: Result<Vec<u8>, PollError>)
        ensures
            match r {
                Ok(bytes) => ballot_bytes(self@) == Some(bytes@),
                Err(e) => e == PollError::Storage && ballot_bytes(self@) is None,
            },
    {
        match encode_ballot(self) {
            Ok(bytes) => Ok(bytes),
            Err(_) => Err(PollError::Storage),
        }
    }

    /// The ballot that `data` holds. Fails with `Storage` exactly when `data`
    /// does not decode to a ballot.
    pub fn deserialize(data: &[u8]) -> (r: Result<Ballot, PollError>)
        ensures
            match r {
                Ok(ballot) => ballot_decoding(data@) == Some(ballot@),
                Err(e) => e == PollError::Storage && ballot_decoding(data@) is None,
            },
    {
        match decode_ballot(data) {
            Ok(ballot) => Ok(ballot),
            Err(_) => Err(PollError::Storage),
        }
    }
}

} // verus!
