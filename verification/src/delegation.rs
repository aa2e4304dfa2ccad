//! Resolving a delegation: the chain of delegations is followed to the voter
//! at its end, and the weight goes to that voter's record, or to the count
//! where that voter has voted.

use crate::error::PollError;
use crate::keys::same_bytes;
use crate::ledger::{ballot_in, load_ballot, Entries};
use crate::state::{copy_bytes, Ballot, BallotView, Tally, TallyView};
use crate::storage::contents;
use cosmwasm_std::MemoryStorage;
use vstd::prelude::*;

verus! {

/// The voter at whom a chain of delegations ends, with the voter's record
/// where there is one.
#[derive(Clone, Debug, PartialEq, Eq)]
pub struct Holder {
    pub id: Vec<u8>,
    pub ballot: Option<Ballot>,
}

/// A holder as a mathematical value.
pub struct HolderView {
    pub id: Seq<u8>,
    pub ballot: Option<BallotView>,
}

impl View for Holder {
    type V = HolderView;

    open spec fn view(&self) -> HolderView {
        HolderView {
            id: self.id@,
            ballot: match self.ballot {
                Some(ballot) => Some(ballot@),
                None => None,
            },
        }
    }
}

/// A ballot together with the voter under whose identifier it is stored.
#[derive(Clone, Debug, PartialEq, Eq)]
pub struct Held {
    pub id: Vec<u8>,
    pub ballot: Ballot,
}

/// A held ballot as a mathematical value.
pub struct HeldView {
    pub id: Seq<u8>,
    pub ballot: BallotView,
}

impl View for Held {
    type V = HeldView;

    open spec fn view(&self) -> HeldView {
        HeldView { id: self.id@, ballot: self.ballot@ }
    }
}

/// Where delegated weight went: the tally after it, and the record of the
/// voter who now holds the weight, where it was not counted at once.
#[derive(Clone, Debug, PartialEq, Eq)]
pub struct Routing {
    pub tally: Tally,
    pub held: Option<Held>,
}

/// A routing as a mathematical value.
pub struct RoutingView {
    pub tally: TallyView,
    pub held: Option<HeldView>,
}

impl View for Routing {
    type V = RoutingView;

    open spec fn view(&self) -> RoutingView {
        RoutingView {
            tally: self.tally@,
            held: match self.held {
                Some(held) => Some(held@),
                None => None,
            },
        }
    }
}

/// The end of the chain of delegations that starts at `id`: the first voter
/// on it who has no record, or whose record names no delegate. At most `hops`
/// delegations are followed; a chain that goes on after that is a
/// `DelegationCycle`. A voter listed in `voters` whose record cannot be read
/// is a `Storage` failure.
pub open spec fn chain_end(m: Entries, voters: Seq<Seq<u8>>, id: Seq<u8>, hops: nat) -> Result<
    HolderView,
    PollError,
>
    decreases hops,
{
    if !voters.contains(id) {
        Ok(HolderView { id, ballot: None })
    } else {
        match ballot_in(m, id) {
            None => Err(PollError::Storage),
            Some(ballot) => match ballot.delegate {
                None => Ok(HolderView { id, ballot: Some(ballot) }),
                Some(next) => if hops == 0 {
                    Err(PollError::DelegationCycle)
                } else {
                    chain_end(m, voters, next, (hops - 1) as nat)
                },
            },
        }
    }
}

/// What becomes of `weight` that `caller` delegates when the chain ends at
/// `holder`.
///
/// - Weight that would come back to `caller` is refused: `DelegationCycle`.
/// - A holder without a record gets one, not final, that holds the weight
///   beside the holder's own, and joins the voters.
/// - A holder whose ballot is not final holds the weight beside what the
///   record held.
/// - A holder who has voted has the weight counted on the side of that vote.
pub open spec fn routed(
    tally: TallyView,
    caller: Seq<u8>,
    weight: u64,
    holder: HolderView,
    now: u64,
) -> Result<RoutingView, PollError> {
    if holder.id == caller {
        Err(PollError::DelegationCycle)
    } else {
        match holder.ballot {
            None => if 1 + weight > u64::MAX {
                Err(PollError::Overflow)
            } else {
                Ok(
                    RoutingView {
                        tally: tally.joined(holder.id),
                        held: Some(
                            HeldView {
                                id: holder.id,
                                ballot: BallotView::pending(now, (1 + weight) as u64),
                            },
                        ),
                    },
                )
            },
            Some(ballot) => if !ballot.has_voted {
                if ballot.vote_value + weight > u64::MAX {
                    Err(PollError::Overflow)
                } else {
                    Ok(
                        RoutingView {
                            tally,
                            held: Some(
                                HeldView {
                                    id: holder.id,
                                    ballot: BallotView {
                                        timestamp: now,
                                        vote_value: (ballot.vote_value + weight) as u64,
                                        ..ballot
                                    },
                                },
                            ),
                        },
                    )
                }
            } else {
                match ballot.vote {
                    None => Err(PollError::Storage),
                    Some(vote) => if tally.can_count(vote, weight) {
                        Ok(RoutingView { tally: tally.counted(vote, weight), held: None })
                    } else {
                        Err(PollError::Overflow)
                    },
                }
            },
        }
    }
}

/// What becomes of `weight` that `caller` delegates to `delegate`: the chain
/// is followed for at most as many delegations as there are voters, and the
/// weight goes to the voter at its end.
pub open spec fn delegated(
    m: Entries,
    tally: TallyView,
    caller: Seq<u8>,
    weight: u64,
    delegate: Seq<u8>,
    now: u64,
) -> Result<RoutingView, PollError> {
    match chain_end(m, tally.voters, delegate, tally.voters.len()) {
        Err(e) => Err(e),
        Ok(holder) => routed(tally, caller, weight, holder, now),
    }
}

/// Follows the chain of delegations that starts at `delegate` to its end.
pub fn find_holder(storage: &MemoryStorage, tally: &Tally, delegate: &[u8]) -> (r: Result<
    Holder,
    PollError,
>)
    ensures
        match r {
            Ok(holder) => chain_end(
                contents(*storage),
                tally@.voters,
                delegate@,
                tally@.voters.len(),
            ) == Ok::<HolderView, PollError>(holder@),
            Err(e) => chain_end(contents(*storage), tally@.voters, delegate@, tally@.voters.len())
                == Err::<HolderView, PollError>(e),
        },
{
    let mut id = copy_bytes(delegate);
    let mut hops: usize = tally.voters.len();
    loop
        invariant
            chain_end(contents(*storage), tally@.voters, delegate@, tally@.voters.len())
                == chain_end(contents(*storage), tally@.voters, id@, hops as nat),
        decreases hops,
    {
        if !tally.has_voter(id.as_slice()) {
            return Ok(Holder { id, ballot: None });
        }
        let ballot = match load_ballot(storage, id.as_slice()) {
            Ok(ballot) => ballot,
            Err(e) => {
                return Err(e);
            },
        };
        match &ballot.delegate {
            None => {
                return Ok(Holder { id, ballot: Some(ballot) });
            },
            Some(next) => {
                if hops == 0 {
                    return Err(PollError::DelegationCycle);
                }
                id = copy_bytes(next.as_slice());
                hops -= 1;
            },
        }
    }
}

/// Hands `weight` that `caller` delegates to `holder`, the voter at whom the
/// chain of delegations ends: the weight is counted where the holder has
/// voted, and held in the holder's record where not.
pub fn route(tally: Tally, caller: &[u8], weight: u64, holder: Holder, now: u64) -> (r: Result<
    Routing,
    PollError,
>)
    ensures
        match r {
            Ok(routing) => routed(tally@, caller@, weight, holder@, now) == Ok::<
                RoutingView,
                PollError,
            >(routing@),
            Err(e) => routed(tally@, caller@, weight, holder@, now) == Err::<RoutingView, PollError>(
                e,
            ),
        },
{
    if same_bytes(holder.id.as_slice(), caller) {
        return Err(PollError::DelegationCycle);
    }
    let mut tally = tally;
    match holder.ballot {
        None => {
            if weight == u64::MAX {
                return Err(PollError::Overflow);
            }
            tally.join(copy_bytes(holder.id.as_slice()));
            let ballot = Ballot {
                has_voted: false,
                timestamp: now,
                vote: None,
                delegate: None,
                vote_value: 1 + weight,
            };
            Ok(Routing { tally, held: Some(Held { id: holder.id, ballot }) })
        },
        Some(ballot) => {
            if !ballot.has_voted {
                match ballot.vote_value.checked_add(weight) {
                    None => Err(PollError::Overflow),
                    Some(sum) => {
                        let ballot = Ballot {
                            has_voted: ballot.has_voted,
                            timestamp: now,
                            vote: ballot.vote,
                            delegate: ballot.delegate,
                            vote_value: sum,
                        };
                        Ok(Routing { tally, held: Some(Held { id: holder.id, ballot }) })
                    },
                }
            } else {
                match ballot.vote {
                    None => Err(PollError::Storage),
                    Some(vote) => match tally.count(vote, weight) {
                        Ok(()) => Ok(Routing { tally, held: None }),
                        Err(e) => Err(e),
                    },
                }
            }
        },
    }
}

/// Resolves a delegation: follows the chain that starts at `delegate` to its
/// end and hands `weight` to the voter found there. Nothing is written: the
/// record to write, if there is one, comes back with the tally.
pub fn delegate_vote(
    storage: &MemoryStorage,
    tally: Tally,
    caller: &[u8],
    weight: u64,
    delegate: &[u8],
    now: u64,
) -> (r: Result<Routing, PollError>)
    ensures
        match r {
            Ok(routing) => delegated(contents(*storage), tally@, caller@, weight, delegate@, now)
                == Ok::<RoutingView, PollError>(routing@),
            Err(e) => delegated(contents(*storage), tally@, caller@, weight, delegate@, now)
                == Err::<RoutingView, PollError>(e),
        },
{
    match find_holder(storage, &tally, delegate) {
        Ok(holder) => route(tally, caller, weight, holder, now),
        Err(e) => Err(e),
    }
}

} // verus!
