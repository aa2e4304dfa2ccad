//! Why the store of a poll holds no chain of delegations that runs in a
//! circle.

use crate::chains::{followed, lemma_chain_fits, lemma_more_hops, lemma_same_chain};
use crate::contract::{applied, cast, handled, opened, weight_of};
use crate::delegation::chain_end;
use crate::error::PollError;
use crate::keys::is_reserved;
use crate::ledger::{ballot_in, tally_in, Entries};
use crate::msg::{ChoiceView, HandleAnswerView, HandleMsgView, InitMsgView};
use crate::sound::{
    lemma_chain_stays_listed, lemma_opened_poll_is_sound, lemma_sound_chain,
    lemma_submission_keeps_sound, record, sound,
};
use crate::state::{lemma_join_keeps_distinct, BallotView, TallyView};
use vstd::prelude::*;

verus! {

/// Whether no chain in the store runs in a circle: whichever voter a chain
/// starts at, it ends within as many hops as there are voters.
pub open spec fn acyclic(m: Entries) -> bool {
    tally_in(m) matches Some(tally) && forall|id: Seq<u8>| #[trigger]
        followed(m, tally.voters, id, tally.voters.len())
}

/// How the records `m2` of the voters `voters2` come from the records `m` of
/// the voters `voters` when `sender` casts a ballot: no voter leaves; every
/// voter has a record; no voter but `sender` gets another delegate; a voter
/// who joins, unless it is `sender`, has none; and `sender` had none.
pub open spec fn cast_over(
    m: Entries,
    voters: Seq<Seq<u8>>,
    m2: Entries,
    voters2: Seq<Seq<u8>>,
    sender: Seq<u8>,
) -> bool {
    &&& forall|id: Seq<u8>| #[trigger] voters.contains(id) ==> voters2.contains(id)
    &&& forall|id: Seq<u8>| #[trigger]
        voters2.contains(id) ==> ballot_in(m2, id) is Some && (id != sender ==> ballot_in(
            m2,
            id,
        )->0.delegate == if voters.contains(id) {
            ballot_in(m, id)->0.delegate
        } else {
            None
        })
    &&& voters2.contains(sender)
    &&& voters.contains(sender) ==> (ballot_in(m, sender) matches Some(ballot)
        && ballot.delegate is None)
}

/// A chain that does not end at the sender is not touched by the sender's
/// ballot.
proof fn lemma_chain_untouched(
    m: Entries,
    voters: Seq<Seq<u8>>,
    m2: Entries,
    voters2: Seq<Seq<u8>>,
    sender: Seq<u8>,
    id: Seq<u8>,
    hops: nat,
)
    requires
        cast_over(m, voters, m2, voters2, sender),
        chain_end(m, voters, id, hops) matches Ok(holder) && holder.id != sender,
    ensures
        chain_end(m2, voters2, id, hops) matches Ok(holder) && holder.id == chain_end(
            m,
            voters,
            id,
            hops,
        )->Ok_0.id,
    decreases hops,
{
    if voters.contains(id) {
        let ballot = ballot_in(m, id)->0;
        assert(id != sender);
        assert(voters2.contains(id));
        match ballot.delegate {
            None => {},
            Some(next) => {
                lemma_chain_untouched(m, voters, m2, voters2, sender, next, (hops - 1) as nat);
            },
        }
    } else if voters2.contains(id) {
        assert(ballot_in(m2, id)->0.delegate is None);
    }
}

/// A chain that ended before the sender's ballot ends after it: where it
/// ended at the sender, it now goes on along the sender's delegation, which
/// ends.
proof fn lemma_chain_goes_on(
    m: Entries,
    voters: Seq<Seq<u8>>,
    m2: Entries,
    voters2: Seq<Seq<u8>>,
    sender: Seq<u8>,
    beyond: nat,
    id: Seq<u8>,
    hops: nat,
)
    requires
        cast_over(m, voters, m2, voters2, sender),
        ballot_in(m2, sender)->0.delegate matches Some(delegate) ==> chain_end(
            m2,
            voters2,
            delegate,
            beyond,
        ) is Ok,
        chain_end(m, voters, id, hops) is Ok,
    ensures
        chain_end(m2, voters2, id, hops + 1 + beyond) is Ok,
    decreases hops,
{
    if voters2.contains(id) {
        let after = ballot_in(m2, id)->0;
        if id == sender {
            match after.delegate {
                None => {},
                Some(delegate) => {
                    lemma_more_hops(m2, voters2, delegate, beyond, hops + beyond);
                },
            }
        } else if voters.contains(id) {
            let ballot = ballot_in(m, id)->0;
            match ballot.delegate {
                None => {},
                Some(next) => {
                    lemma_chain_goes_on(
                        m,
                        voters,
                        m2,
                        voters2,
                        sender,
                        beyond,
                        next,
                        (hops - 1) as nat,
                    );
                },
            }
        } else {
            assert(after.delegate is None);
        }
    } else {
        assert(!voters.contains(id));
    }
}

/// What a recorded ballot does to the records: see `cast_over`.
proof fn lemma_cast_is_cast_over(
    m: Entries,
    tally: TallyView,
    sender: Seq<u8>,
    now: u64,
    choice: ChoiceView,
)
    requires
        sound(m),
        tally_in(m) == Some(tally),
        !is_reserved(sender),
        choice.delegate() matches Some(delegate) ==> !is_reserved(delegate),
        record(m, tally.voters, sender) matches Some(ballot) ==> !ballot.has_voted,
        cast(m, tally, sender, now, choice, record(m, tally.voters, sender)).result is Ok,
    ensures
        ({
            let after = cast(m, tally, sender, now, choice, record(m, tally.voters, sender)).entries;
            &&& tally_in(after) matches Some(tally2) && cast_over(
                m,
                tally.voters,
                after,
                tally2.voters,
                sender,
            )
            &&& ballot_in(after, sender) matches Some(ballot) && ballot.delegate == choice.delegate()
            &&& choice.delegate() matches Some(delegate) ==> (chain_end(
                m,
                tally.voters,
                delegate,
                tally.voters.len(),
            ) matches Ok(holder) && holder.id != sender)
        }),
{
    let prior = record(m, tally.voters, sender);
    let voters = tally.voters;
    let effect = cast(m, tally, sender, now, choice, prior);
    let after = effect.entries;
    let weight = weight_of(prior);
    let routing = applied(m, tally, sender, now, choice, weight)->Ok_0;
    let tally2 = if prior is None {
        routing.tally.joined(sender)
    } else {
        routing.tally
    };
    let ballot = BallotView::cast(now, choice.vote(), choice.delegate(), weight);
    assert(tally_in(after) == Some(tally2));
    assert(ballot_in(after, sender) == Some(ballot));
    if choice.vote() is None {
        lemma_chain_stays_listed(m, voters, choice.delegate()->0, voters.len());
    }
    let voters1 = routing.tally.voters;
    assert(forall|id: Seq<u8>| #[trigger]
        voters1.contains(id) <==> voters.contains(id) || (routing.held is Some && id
            == routing.held->0.id)) by {
        if routing.held is Some && !voters.contains(routing.held->0.id) {
            lemma_join_keeps_distinct(voters, routing.held->0.id);
        }
    }
    assert(forall|id: Seq<u8>| #[trigger]
        tally2.voters.contains(id) <==> voters1.contains(id) || id == sender) by {
        if prior is None {
            lemma_join_keeps_distinct(voters1, sender);
        }
    }
    assert forall|id: Seq<u8>| #[trigger] tally2.voters.contains(id) implies ballot_in(after, id)
        is Some && (id != sender ==> ballot_in(after, id)->0.delegate == if voters.contains(id) {
        ballot_in(m, id)->0.delegate
    } else {
        None
    }) by {
        if id == sender {
        } else if routing.held is Some && id == routing.held->0.id {
            assert(ballot_in(after, id) == Some(routing.held->0.ballot));
        } else {
            assert(voters.contains(id));
            assert(!is_reserved(id));
            assert(ballot_in(after, id) == ballot_in(m, id));
        }
    }
}

/// The poll that `init` opens has no voters and so no chains.
pub proof fn lemma_opened_poll_is_acyclic(m: Entries, now: u64, msg: InitMsgView)
    requires
        opened(m, now, msg).result is Ok,
    ensures
        acyclic(opened(m, now, msg).entries),
{
    lemma_opened_poll_is_sound(m, now, msg);
}

/// No submission makes a chain run in a circle: in a sound store where every
/// chain ends, every chain still ends after any submission.
pub proof fn lemma_submission_keeps_acyclic(m: Entries, sender: Seq<u8>, now: u64, msg: HandleMsgView)
    requires
        sound(m),
        acyclic(m),
    ensures
        acyclic(handled(m, sender, now, msg).entries),
{
    let tally = tally_in(m)->0;
    let voters = tally.voters;
    let effect = handled(m, sender, now, msg);
    let m2 = effect.entries;
    lemma_submission_keeps_sound(m, sender, now, msg);
    let voters2 = tally_in(m2)->0.voters;
    if m2 == m {
    } else if tally.over(now) {
        assert(voters2 == voters);
        assert forall|id: Seq<u8>| #[trigger] voters.contains(id) implies ballot_in(m2, id)
            == ballot_in(m, id) by {
            assert(!is_reserved(id));
        }
        assert forall|id: Seq<u8>| #[trigger] followed(m2, voters2, id, voters2.len()) by {
            assert(followed(m, voters, id, voters.len()));
            lemma_same_chain(m, m2, voters, id, voters.len());
        }
    } else {
        let prior = record(m, voters, sender);
        assert(effect == cast(m, tally, sender, now, msg.choice()->0, prior));
        lemma_cast_is_cast_over(m, tally, sender, now, msg.choice()->0);
        let beyond = voters.len();
        if msg.vote is None {
            let delegate = msg.delegate->0;
            lemma_chain_untouched(m, voters, m2, voters2, sender, delegate, beyond);
        }
        assert forall|id: Seq<u8>| #[trigger] followed(m2, voters2, id, voters2.len()) by {
            assert(followed(m, voters, id, voters.len()));
            lemma_sound_chain(m, voters, id, voters.len());
            lemma_chain_goes_on(m, voters, m2, voters2, sender, beyond, id, voters.len());
            lemma_chain_fits(m2, voters2, id, voters.len() + 1 + beyond);
        }
    }
}

/// In a sound store where every chain ends, a delegation is refused as a
/// `DelegationCycle` only where its weight would come back to the sender:
/// the chain from the delegate ends at the sender.
pub proof fn lemma_cycle_means_return(m: Entries, sender: Seq<u8>, now: u64, msg: HandleMsgView)
    requires
        sound(m),
        acyclic(m),
        handled(m, sender, now, msg).result == Err::<HandleAnswerView, PollError>(
            PollError::DelegationCycle,
        ),
    ensures
        msg.delegate matches Some(delegate) && chain_end(
            m,
            tally_in(m)->0.voters,
            delegate,
            tally_in(m)->0.voters.len(),
        ) matches Ok(holder) && holder.id == sender,
{
    let voters = tally_in(m)->0.voters;
    if msg.delegate is Some {
        assert(followed(m, voters, msg.delegate->0, voters.len()));
        lemma_sound_chain(m, voters, msg.delegate->0, voters.len());
    }
}

} // verus!
