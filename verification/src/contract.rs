//! The poll's operations: opening it, taking a ballot, and answering
//! questions.
//!
//! Every operation is stated over the entries of the store. An operation that
//! fails leaves the store as it was: all that can fail is done before the
//! first write.

use crate::codec::{ballot_bytes, tally_bytes};
use crate::delegation::{delegate_vote, delegated, Held, HeldView, Routing, RoutingView};
use crate::error::PollError;
use crate::keys::{is_reserved, reserved, POLL_KEY, TALLY_KEY};
use crate::ledger::{ballot_in, load_ballot, load_poll, load_tally, poll_in, tally_in, Entries};
use crate::msg::{
    Choice, ChoiceView, HandleAnswer, HandleAnswerView, HandleMsg, HandleMsgView, InitMsg,
    InitMsgView, QueryAnswer, QueryAnswerView, QueryMsg,
};
use crate::state::{copy_bytes, Ballot, BallotView, Tally, TallyView};
use crate::storage::{contents, put};
use cosmwasm_std::MemoryStorage;
use vstd::prelude::*;
use vstd::utf8::encode_utf8;

verus! {

/// What an operation returns and what the store holds after it.
pub struct Effect<T> {
    pub result: Result<T, PollError>,
    pub entries: Entries,
}

/// The effect of an operation that fails with `e`: nothing is written.
pub open spec fn refused<T>(m: Entries, e: PollError) -> Effect<T> {
    Effect { result: Err(e), entries: m }
}

/// The view of what `handle` returns.
pub open spec fn answer_view(r: Result<HandleAnswer, PollError>) -> Result<
    HandleAnswerView,
    PollError,
> {
    match r {
        Ok(answer) => Ok(answer@),
        Err(e) => Err(e),
    }
}

/// The view of what `query` returns.
pub open spec fn reply_view(r: Result<QueryAnswer, PollError>) -> Result<
    QueryAnswerView,
    PollError,
> {
    match r {
        Ok(answer) => Ok(answer@),
        Err(e) => Err(e),
    }
}

/// Opening a poll: the text goes under `POLL_KEY` as UTF-8, and under
/// `TALLY_KEY` a tally with no weight and no voters, open from `now` for the
/// duration asked.
pub open spec fn opened(m: Entries, now: u64, msg: InitMsgView) -> Effect<()> {
    if now + msg.duration > u64::MAX {
        refused(m, PollError::Overflow)
    } else {
        match tally_bytes(TallyView::opened(now, msg.duration, msg.early_results_allowed)) {
            None => refused(m, PollError::Storage),
            Some(bytes) => Effect {
                result: Ok(()),
                entries: m.insert(POLL_KEY@, encode_utf8(msg.poll)).insert(TALLY_KEY@, bytes),
            },
        }
    }
}

/// A submission after the window closed: the tally is marked completed if it
/// was not, nothing is counted, and the answer tells what is on record.
pub open spec fn closed(m: Entries, tally: TallyView, prior: Option<BallotView>) -> Effect<
    HandleAnswerView,
> {
    if tally.is_completed {
        Effect { result: Ok(HandleAnswerView::closed(prior)), entries: m }
    } else {
        match tally_bytes(tally.completed()) {
            None => refused(m, PollError::Storage),
            Some(bytes) => Effect {
                result: Ok(HandleAnswerView::closed(prior)),
                entries: m.insert(TALLY_KEY@, bytes),
            },
        }
    }
}

/// The weight with which a voter casts a ballot: what the voter's record
/// holds, or one where there is no record.
pub open spec fn weight_of(prior: Option<BallotView>) -> u64 {
    match prior {
        Some(ballot) => ballot.vote_value,
        None => 1,
    }
}

/// Where the weight of a ballot goes: to the side of the vote, or down the
/// chain of delegations.
pub open spec fn applied(
    m: Entries,
    tally: TallyView,
    sender: Seq<u8>,
    now: u64,
    choice: ChoiceView,
    weight: u64,
) -> Result<RoutingView, PollError> {
    match choice {
        ChoiceView::Vote(vote) => if tally.can_count(vote, weight) {
            Ok(RoutingView { tally: tally.counted(vote, weight), held: None })
        } else {
            Err(PollError::Overflow)
        },
        ChoiceView::Delegate(delegate) => delegated(m, tally, sender, weight, delegate, now),
    }
}

/// Writing what a ballot changed: the holder's record if there is one, the
/// sender's ballot, and the tally. Fails with `Storage`, and writes nothing,
/// when one of them has no bytes.
pub open spec fn committed(
    m: Entries,
    tally: TallyView,
    sender: Seq<u8>,
    ballot: BallotView,
    held: Option<HeldView>,
    answer: HandleAnswerView,
) -> Effect<HandleAnswerView> {
    match (tally_bytes(tally), ballot_bytes(ballot)) {
        (Some(tally_bytes), Some(ballot_bytes)) => match held {
            None => Effect {
                result: Ok(answer),
                entries: m.insert(sender, ballot_bytes).insert(TALLY_KEY@, tally_bytes),
            },
            Some(held) => match crate::codec::ballot_bytes(held.ballot) {
                None => refused(m, PollError::Storage),
                Some(held_bytes) => Effect {
                    result: Ok(answer),
                    entries: m.insert(held.id, held_bytes).insert(sender, ballot_bytes).insert(
                        TALLY_KEY@,
                        tally_bytes,
                    ),
                },
            },
        },
        _ => refused(m, PollError::Storage),
    }
}

/// A ballot within the window from a voter whose ballot is not final: the
/// weight is applied, the ballot becomes final with that weight, and a voter
/// without a record joins the voters.
pub open spec fn cast(
    m: Entries,
    tally: TallyView,
    sender: Seq<u8>,
    now: u64,
    choice: ChoiceView,
    prior: Option<BallotView>,
) -> Effect<HandleAnswerView> {
    let weight = weight_of(prior);
    match applied(m, tally, sender, now, choice, weight) {
        Err(e) => refused(m, e),
        Ok(routing) => committed(
            m,
            if prior is None {
                routing.tally.joined(sender)
            } else {
                routing.tally
            },
            sender,
            BallotView::cast(now, choice.vote(), choice.delegate(), weight),
            routing.held,
            HandleAnswerView::cast(choice.vote(), choice.delegate()),
        ),
    }
}

/// A submission by `sender` at `now`.
///
/// - A message that makes no choice, or one in which the sender or the
///   delegate is a reserved key, is an `InvalidRequest`.
/// - Without a readable tally, or without a readable ballot for a sender
///   listed among the voters, the store is inconsistent: `Storage`.
/// - After the window the poll is closed, whatever the message asks.
/// - A sender whose ballot is final gets it back, and nothing changes.
/// - Otherwise the ballot is cast.
pub open spec fn handled(m: Entries, sender: Seq<u8>, now: u64, msg: HandleMsgView) -> Effect<
    HandleAnswerView,
> {
    match msg.choice() {
        None => refused(m, PollError::InvalidRequest),
        Some(choice) => if is_reserved(sender) || (choice matches ChoiceView::Delegate(delegate)
            && is_reserved(delegate)) {
            refused(m, PollError::InvalidRequest)
        } else {
            match tally_in(m) {
                None => refused(m, PollError::Storage),
                Some(tally) => {
                    if !tally.voters.contains(sender) {
                        if tally.over(now) {
                            closed(m, tally, None)
                        } else {
                            cast(m, tally, sender, now, choice, None)
                        }
                    } else {
                        match ballot_in(m, sender) {
                            None => refused(m, PollError::Storage),
                            Some(ballot) => if tally.over(now) {
                                closed(m, tally, Some(ballot))
                            } else if ballot.has_voted {
                                Effect {
                                    result: Ok(HandleAnswerView::already_cast(ballot)),
                                    entries: m,
                                }
                            } else {
                                cast(m, tally, sender, now, choice, Some(ballot))
                            },
                        }
                    }
                },
            }
        },
    }
}

/// The answer to a question. The text is always given; the tally only once it
/// may be disclosed, else the question is `Unauthorized`. A record that cannot
/// be read is a `Storage` failure.
pub open spec fn answered(m: Entries, msg: QueryMsg) -> Result<QueryAnswerView, PollError> {
    match msg {
        QueryMsg::GetPoll {  } => match poll_in(m) {
            Some(text) => Ok(QueryAnswerView::Poll(text)),
            None => Err(PollError::Storage),
        },
        QueryMsg::GetTally {  } => match tally_in(m) {
            None => Err(PollError::Storage),
            Some(tally) => if tally.disclosed() {
                Ok(QueryAnswerView::Tally(tally))
            } else {
                Err(PollError::Unauthorized)
            },
        },
    }
}

/// Opens the poll at `now`: stores the text, and a tally without weight or
/// voters that takes ballots until `now` and the duration asked for have
/// passed. Fails with `Overflow` where that end does not fit in 64 bits.
/// What is stored then is stated by `opened`.
pub fn init(storage: &mut MemoryStorage, now: u64, msg: InitMsg) -> (r: Result<(), PollError>)
    ensures
        r == opened(contents(*old(storage)), now, msg@).result,
        contents(*final(storage)) == opened(contents(*old(storage)), now, msg@).entries,
{
    let tally = match Tally::new(now, msg.duration, msg.early_results_allowed) {
        Ok(tally) => tally,
        Err(e) => {
            return Err(e);
        },
    };
    let bytes = match tally.serialize() {
        Ok(bytes) => bytes,
        Err(e) => {
            return Err(e);
        },
    };
    put(storage, POLL_KEY.as_slice(), msg.poll.as_str().as_bytes());
    put(storage, TALLY_KEY.as_slice(), bytes.as_slice());
    Ok(())
}

/// Closes the poll for a submission that came after the window.
fn close(storage: &mut MemoryStorage, tally: Tally, prior: Option<Ballot>) -> (r: Result<
    HandleAnswer,
    PollError,
>)
    ensures
        answer_view(r) == closed(
            contents(*old(storage)),
            tally@,
            match prior {
                Some(ballot) => Some(ballot@),
                None => None,
            },
        ).result,
        contents(*final(storage)) == closed(
            contents(*old(storage)),
            tally@,
            match prior {
                Some(ballot) => Some(ballot@),
                None => None,
            },
        ).entries,
{
    if !tally.is_completed {
        let mut tally = tally;
        tally.is_completed = true;
        let bytes = match tally.serialize() {
            Ok(bytes) => bytes,
            Err(e) => {
                return Err(e);
            },
        };
        put(storage, TALLY_KEY.as_slice(), bytes.as_slice());
    }
    Ok(HandleAnswer::closed(prior))
}

/// Writes what a ballot changed, after encoding all of it.
fn commit(
    storage: &mut MemoryStorage,
    tally: Tally,
    sender: &[u8],
    ballot: Ballot,
    held: Option<Held>,
    answer: HandleAnswer,
) -> (r: Result<HandleAnswer, PollError>)
    ensures
        answer_view(r) == committed(
            contents(*old(storage)),
            tally@,
            sender@,
            ballot@,
            match held {
                Some(held) => Some(held@),
                None => None,
            },
            answer@,
        ).result,
        contents(*final(storage)) == committed(
            contents(*old(storage)),
            tally@,
            sender@,
            ballot@,
            match held {
                Some(held) => Some(held@),
                None => None,
            },
            answer@,
        ).entries,
{
    let tally_bytes = match tally.serialize() {
        Ok(bytes) => bytes,
        Err(e) => {
            return Err(e);
        },
    };
    let ballot_bytes = match ballot.serialize() {
        Ok(bytes) => bytes,
        Err(e) => {
            return Err(e);
        },
    };
    match held {
        None => {},
        Some(held) => {
            let held_bytes = match held.ballot.serialize() {
                Ok(bytes) => bytes,
                Err(e) => {
                    return Err(e);
                },
            };
            put(storage, held.id.as_slice(), held_bytes.as_slice());
        },
    }
    put(storage, sender, ballot_bytes.as_slice());
    put(storage, TALLY_KEY.as_slice(), tally_bytes.as_slice());
    Ok(answer)
}

/// Takes a submission by `sender` at `now`: a vote, or a delegation.
///
/// A message that makes no choice is refused, and so is one that names a
/// reserved key. After the window the poll is completed and nothing is
/// counted. A sender whose ballot is final is told what it holds. Else the
/// ballot is cast with the weight that the sender holds: a vote is counted, a
/// delegation resolved, and the sender's ballot is final from then on. What
/// is answered and stored in each case is stated by `handled`.
pub fn handle(storage: &mut MemoryStorage, sender: &[u8], now: u64, msg: HandleMsg) -> (r: Result<
    HandleAnswer,
    PollError,
>)
    ensures
        answer_view(r) == handled(contents(*old(storage)), sender@, now, msg@).result,
        contents(*final(storage)) == handled(contents(*old(storage)), sender@, now, msg@).entries,
{
    let choice = match msg.choice() {
        Ok(choice) => choice,
        Err(e) => {
            return Err(e);
        },
    };
    if reserved(sender) {
        return Err(PollError::InvalidRequest);
    }
    match &choice {
        Choice::Delegate(delegate) => {
            if reserved(delegate.as_slice()) {
                return Err(PollError::InvalidRequest);
            }
        },
        Choice::Vote(_) => {},
    }
    let tally = match load_tally(storage) {
        Ok(tally) => tally,
        Err(e) => {
            return Err(e);
        },
    };
    let prior: Option<Ballot> = if tally.has_voter(sender) {
        match load_ballot(storage, sender) {
            Ok(ballot) => Some(ballot),
            Err(e) => {
                return Err(e);
            },
        }
    } else {
        None
    };
    if tally.over(now) {
        return close(storage, tally, prior);
    }
    let fresh = prior.is_none();
    let weight: u64 = match prior {
        Some(ballot) => {
            if ballot.has_voted {
                return Ok(HandleAnswer::already_cast(ballot));
            }
            ballot.vote_value
        },
        None => 1,
    };
    let routing = match &choice {
        Choice::Vote(vote) => {
            let mut tally = tally;
            match tally.count(*vote, weight) {
                Ok(()) => Routing { tally, held: None },
                Err(e) => {
                    return Err(e);
                },
            }
        },
        Choice::Delegate(delegate) => match delegate_vote(
            storage,
            tally,
            sender,
            weight,
            delegate.as_slice(),
            now,
        ) {
            Ok(routing) => routing,
            Err(e) => {
                return Err(e);
            },
        },
    };
    let mut tally = routing.tally;
    if fresh {
        tally.join(copy_bytes(sender));
    }
    let ballot = Ballot {
        has_voted: true,
        timestamp: now,
        vote: choice.vote(),
        delegate: choice.delegate(),
        vote_value: weight,
    };
    let answer = HandleAnswer::cast(choice.vote(), choice.delegate());
    commit(storage, tally, sender, ballot, routing.held, answer)
}

/// Answers a question about the poll: the text always, the tally only once
/// early results are allowed or the poll is completed, else the question is
/// `Unauthorized`. A record that cannot be read is a `Storage` failure.
pub fn query(storage: &MemoryStorage, msg: QueryMsg) -> (r: Result<QueryAnswer, PollError>)
    ensures
        reply_view(r) == answered(contents(*storage), msg),
{
    match msg {
        QueryMsg::GetPoll {  } => match load_poll(storage) {
            Ok(text) => Ok(QueryAnswer::Poll(text)),
            Err(e) => Err(e),
        },
        QueryMsg::GetTally {  } => match load_tally(storage) {
            Ok(tally) => if tally.disclosed() {
                Ok(QueryAnswer::Tally(tally))
            } else {
                Err(PollError::Unauthorized)
            },
            Err(e) => Err(e),
        },
    }
}

} // verus!
