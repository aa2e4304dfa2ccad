//! What the store of a poll looks like, and that every operation keeps it so.

use crate::chains::followed;
use crate::contract::{applied, cast, handled, opened, weight_of};
use crate::delegation::chain_end;
use crate::error::PollError;
use crate::keys::{is_reserved, POLL_KEY, TALLY_KEY};
use crate::ledger::{ballot_in, tally_in, Entries};
use crate::msg::{ChoiceView, HandleAnswerView, HandleMsgView, InitMsgView};
use crate::state::{lemma_join_keeps_distinct, BallotView, TallyView};
use vstd::prelude::*;

verus! {

/// What a ballot on record looks like: it is well formed, and its delegate,
/// if it names one, is a listed voter.
pub open spec fn ballot_sound(ballot: BallotView, voters: Seq<Seq<u8>>) -> bool {
    &&& ballot.well_formed()
    &&& ballot.delegate matches Some(delegate) ==> voters.contains(delegate)
}

/// What the store of a poll looks like: there is a tally, which is well
/// formed, so that no voter is listed twice or under a reserved key; and
/// every listed voter has a ballot on record, which is sound.
pub open spec fn sound(m: Entries) -> bool {
    tally_in(m) matches Some(tally) && {
        &&& tally.well_formed()
        &&& forall|id: Seq<u8>| #[trigger]
            tally.voters.contains(id) ==> (ballot_in(m, id) matches Some(ballot) && ballot_sound(
                ballot,
                tally.voters,
            ))
    }
}

/// The record of `id` where `id` is a listed voter.
pub open spec fn record(m: Entries, voters: Seq<Seq<u8>>, id: Seq<u8>) -> Option<BallotView> {
    if voters.contains(id) {
        ballot_in(m, id)
    } else {
        None
    }
}

/// In a sound store a chain that starts at a listed voter ends at a listed
/// voter, so the only voter who can get a record by a delegation is the
/// delegate named in it.
pub proof fn lemma_chain_stays_listed(m: Entries, voters: Seq<Seq<u8>>, id: Seq<u8>, hops: nat)
    requires
        sound(m),
        tally_in(m)->0.voters == voters,
    ensures
        chain_end(m, voters, id, hops) matches Ok(holder) ==> (holder.ballot is None ==> holder.id
            == id && !voters.contains(id)) && (holder.ballot matches Some(ballot) ==> voters.contains(
            holder.id,
        ) && ballot_in(m, holder.id) == Some(ballot) && ballot_sound(ballot, voters)
            && ballot.delegate is None),
    decreases hops,
{
    if voters.contains(id) {
        let ballot = ballot_in(m, id)->0;
        match ballot.delegate {
            None => {},
            Some(next) => {
                if hops > 0 {
                    assert(voters.contains(next));
                    lemma_chain_stays_listed(m, voters, next, (hops - 1) as nat);
                }
            },
        }
    }
}

/// In a sound store no record on a chain is unreadable: a chain is followed
/// to a voter, or not to its end.
pub proof fn lemma_sound_chain(m: Entries, voters: Seq<Seq<u8>>, id: Seq<u8>, hops: nat)
    requires
        sound(m),
        tally_in(m)->0.voters == voters,
    ensures
        chain_end(m, voters, id, hops) is Ok || !followed(m, voters, id, hops),
    decreases hops,
{
    if voters.contains(id) {
        let ballot = ballot_in(m, id)->0;
        match ballot.delegate {
            None => {},
            Some(next) => {
                if hops > 0 {
                    lemma_sound_chain(m, voters, next, (hops - 1) as nat);
                }
            },
        }
    }
}

/// The poll that `init` opens is sound.
pub proof fn lemma_opened_poll_is_sound(m: Entries, now: u64, msg: InitMsgView)
    requires
        opened(m, now, msg).result is Ok,
    ensures
        sound(opened(m, now, msg).entries),
        tally_in(opened(m, now, msg).entries) == Some(
            TallyView::opened(now, msg.duration, msg.early_results_allowed),
        ),
{
    assert(POLL_KEY@ != TALLY_KEY@) by {
        assert(POLL_KEY@.len() == 4);
        assert(TALLY_KEY@.len() == 5);
    }
}

/// Every submission leaves a sound store sound. In particular no voter is
/// ever listed twice, and no voter ever has more than the one ballot that
/// lies under the voter's identifier.
pub proof fn lemma_submission_keeps_sound(m: Entries, sender: Seq<u8>, now: u64, msg: HandleMsgView)
    requires
        sound(m),
    ensures
        sound(handled(m, sender, now, msg).entries),
{
    let after = handled(m, sender, now, msg);
    let tally = tally_in(m)->0;
    if after.entries == m {
    } else if tally.over(now) {
        let t2 = tally.completed();
        assert(tally_in(after.entries) == Some(t2));
        assert forall|id: Seq<u8>| #[trigger] t2.voters.contains(id) implies !is_reserved(id) && (
        ballot_in(after.entries, id) matches Some(ballot) && ballot_sound(ballot, t2.voters)) by {
            assert(tally.voters.contains(id));
        }
    } else {
        let prior = if tally.voters.contains(sender) {
            ballot_in(m, sender)
        } else {
            None
        };
        lemma_cast_keeps_sound(m, tally, sender, now, msg.choice()->0, prior);
    }
}

/// Casting a ballot leaves a sound store sound.
proof fn lemma_cast_keeps_sound(
    m: Entries,
    tally: TallyView,
    sender: Seq<u8>,
    now: u64,
    choice: ChoiceView,
    prior: Option<BallotView>,
)
    requires
        sound(m),
        tally_in(m) == Some(tally),
        !is_reserved(sender),
        choice.delegate() matches Some(delegate) ==> !is_reserved(delegate),
        prior == if tally.voters.contains(sender) {
            ballot_in(m, sender)
        } else {
            None
        },
        prior matches Some(ballot) ==> !ballot.has_voted,
    ensures
        sound(cast(m, tally, sender, now, choice, prior).entries),
{
    let after = cast(m, tally, sender, now, choice, prior);
    let weight = weight_of(prior);
    let voters = tally.voters;
    if after.result is Ok {
        let routing = applied(m, tally, sender, now, choice, weight)->Ok_0;
        let t2 = if prior is None {
            routing.tally.joined(sender)
        } else {
            routing.tally
        };
        let ballot = BallotView::cast(now, choice.vote(), choice.delegate(), weight);
        assert(tally_in(after.entries) == Some(t2));
        assert(weight >= 1);
        if choice.vote() is None {
            let delegate = choice.delegate()->0;
            lemma_chain_stays_listed(m, voters, delegate, voters.len());
        }
        // the voters after the ballot: those before, the holder if new, the sender if new
        let v1 = routing.tally.voters;
        assert(v1.no_duplicates() && (forall|other: Seq<u8>| #[trigger]
            v1.contains(other) <==> voters.contains(other) || (routing.held matches Some(held)
                && other == held.id))) by {
            if choice.vote() is None {
                let holder = chain_end(m, voters, choice.delegate()->0, voters.len())->Ok_0;
                if holder.ballot is None {
                    lemma_join_keeps_distinct(voters, holder.id);
                }
            }
        }
        assert(t2.voters.no_duplicates() && (forall|other: Seq<u8>| #[trigger]
            t2.voters.contains(other) <==> v1.contains(other) || other == sender)) by {
            if prior is None {
                assert(!v1.contains(sender));
                lemma_join_keeps_distinct(v1, sender);
            }
        }
        assert forall|id: Seq<u8>| #[trigger] t2.voters.contains(id) implies !is_reserved(id) && (
        ballot_in(after.entries, id) matches Some(b) && ballot_sound(b, t2.voters)) by {
            if id == sender {
                assert(ballot_in(after.entries, id) == Some(ballot));
                assert(ballot_sound(ballot, t2.voters)) by {
                    if choice.delegate() is Some {
                        let delegate = choice.delegate()->0;
                        assert(t2.voters.contains(delegate));
                    }
                }
            } else if routing.held is Some && id == routing.held->0.id {
                assert(ballot_in(after.entries, id) == Some(routing.held->0.ballot));
            } else {
                assert(voters.contains(id));
                assert(ballot_in(after.entries, id) == ballot_in(m, id));
                let b = ballot_in(m, id)->0;
                assert(ballot_sound(b, voters));
                if b.delegate is Some {
                    assert(voters.contains(b.delegate->0));
                    assert(v1.contains(b.delegate->0));
                    assert(t2.voters.contains(b.delegate->0));
                }
            }
        }
    }
}

/// A ballot that is recorded is final from then on: the sender of a
/// submission that succeeds is listed, once, with a final ballot that holds
/// what the message asked. A further submission of the sender therefore
/// finds that ballot and changes nothing.
pub proof fn lemma_recorded_ballot_is_final(m: Entries, sender: Seq<u8>, now: u64, msg: HandleMsgView)
    requires
        sound(m),
        handled(m, sender, now, msg).result == Ok::<HandleAnswerView, PollError>(
            HandleAnswerView::cast(msg.vote, msg.delegate),
        ),
    ensures
        ({
            let after = handled(m, sender, now, msg).entries;
            &&& tally_in(after) matches Some(tally) && tally.voters.contains(sender)
                && tally.voters.no_duplicates()
            &&& ballot_in(after, sender) matches Some(ballot) && ballot.has_voted && ballot.vote
                == msg.vote && ballot.delegate == msg.delegate && ballot.timestamp == now
        }),
{
    let tally = tally_in(m)->0;
    lemma_submission_keeps_sound(m, sender, now, msg);
    let prior = record(m, tally.voters, sender);
    assert(handled(m, sender, now, msg) == cast(m, tally, sender, now, msg.choice()->0, prior));
    let routing = applied(m, tally, sender, now, msg.choice()->0, weight_of(prior))->Ok_0;
    if msg.vote is None {
        lemma_chain_stays_listed(m, tally.voters, msg.delegate->0, tally.voters.len());
    }
    if routing.held is Some && !tally.voters.contains(routing.held->0.id) {
        lemma_join_keeps_distinct(tally.voters, routing.held->0.id);
    }
    if prior is None {
        lemma_join_keeps_distinct(routing.tally.voters, sender);
    }
}

} // verus!
