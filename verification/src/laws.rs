//! What holds of every submission and of every answer, whatever the store
//! holds.

use crate::chains::lemma_chain_end;
use crate::codec::{ballot_bytes, ballot_decoding, tally_bytes, tally_decoding};
use crate::contract::{answered, applied, cast, handled, opened, weight_of};
use crate::delegation::chain_end;
use crate::error::PollError;
use crate::keys::{is_reserved, POLL_KEY, TALLY_KEY};
use crate::ledger::{ballot_in, tally_in, Entries};
use crate::msg::{HandleAnswerView, HandleMsgView, InitMsgView, QueryAnswerView, QueryMsg};
use crate::sound::{lemma_opened_poll_is_sound, record};
use crate::state::{BallotView, TallyView};
use vstd::prelude::*;
use vstd::utf8::{
    decode_utf8, encode_utf8, encode_utf8_decode_utf8, encode_utf8_valid_utf8, valid_utf8,
};

verus! {

/// Whether `m2` holds under every key but `TALLY_KEY` what `m` holds: no
/// ballot was written, changed or removed.
pub open spec fn same_ballots(m: Entries, m2: Entries) -> bool {
    forall|id: Seq<u8>|
        id != TALLY_KEY@ ==> (#[trigger] m2.contains_key(id) == m.contains_key(id)) && (
        m.contains_key(id) ==> m2[id] == m[id])
}

/// Whether two tallies differ in nothing but, at most, being completed.
pub open spec fn same_count(a: TallyView, b: TallyView) -> bool {
    a == TallyView { is_completed: a.is_completed, ..b }
}

/// Once the window has closed, no submission changes a count, the voters or
/// a ballot, whatever it asks; a poll that was completed stays so, and every
/// submission that is answered leaves the poll completed.
pub proof fn lemma_closed_poll_counts_nothing(m: Entries, sender: Seq<u8>, now: u64, msg: HandleMsgView)
    requires
        tally_in(m) matches Some(tally) && tally.over(now),
    ensures
        same_ballots(m, handled(m, sender, now, msg).entries),
        tally_in(handled(m, sender, now, msg).entries) matches Some(after) && same_count(
            after,
            tally_in(m)->0,
        ) && (tally_in(m)->0.is_completed ==> after.is_completed) && (handled(
            m,
            sender,
            now,
            msg,
        ).result is Ok ==> after.is_completed),
{
}

/// A voter whose ballot is final gets nothing changed by a further
/// submission: neither a count, nor the voters, nor any ballot. At most the
/// poll becomes completed. The answer, where there is one, is a failure that
/// tells what the final ballot holds.
pub proof fn lemma_final_ballot_is_spent(m: Entries, sender: Seq<u8>, now: u64, msg: HandleMsgView)
    requires
        tally_in(m) matches Some(tally) && tally.voters.contains(sender),
        ballot_in(m, sender) matches Some(ballot) && ballot.has_voted,
    ensures
        same_ballots(m, handled(m, sender, now, msg).entries),
        tally_in(handled(m, sender, now, msg).entries) matches Some(after) && same_count(
            after,
            tally_in(m)->0,
        ),
        handled(m, sender, now, msg).result is Ok ==> handled(m, sender, now, msg).result == Ok::<
            HandleAnswerView,
            PollError,
        >(
            if tally_in(m)->0.over(now) {
                HandleAnswerView::closed(ballot_in(m, sender))
            } else {
                HandleAnswerView::already_cast(ballot_in(m, sender)->0)
            },
        ),
{
}

/// The final ballot of a listed voter is never written again, whoever
/// submits what: the bytes under the voter's identifier stay as they are.
pub proof fn lemma_final_ballot_is_frozen(
    m: Entries,
    voter: Seq<u8>,
    sender: Seq<u8>,
    now: u64,
    msg: HandleMsgView,
)
    requires
        tally_in(m) matches Some(tally) && tally.voters.contains(voter),
        ballot_in(m, voter) matches Some(ballot) && ballot.has_voted,
        !is_reserved(voter),
    ensures
        handled(m, sender, now, msg).entries.contains_key(voter),
        handled(m, sender, now, msg).entries[voter] == m[voter],
        ballot_in(handled(m, sender, now, msg).entries, voter) == ballot_in(m, voter),
{
    let tally = tally_in(m)->0;
    match msg.delegate {
        Some(delegate) => {
            lemma_chain_end(m, tally.voters, delegate, tally.voters.len());
        },
        None => {},
    }
}

/// A submission only adds: the voters listed before are listed after, in the
/// same places; neither count goes down; and a completed poll stays
/// completed.
pub proof fn lemma_submission_only_adds(m: Entries, sender: Seq<u8>, now: u64, msg: HandleMsgView)
    requires
        tally_in(m) is Some,
    ensures
        ({
            let before = tally_in(m)->0;
            tally_in(handled(m, sender, now, msg).entries) matches Some(after) && {
                &&& before.voters.is_prefix_of(after.voters)
                &&& before.yes <= after.yes
                &&& before.no <= after.no
                &&& before.is_completed ==> after.is_completed
                &&& before.init_timestamp == after.init_timestamp
                &&& before.end_timestamp == after.end_timestamp
                &&& before.early_results_allowed == after.early_results_allowed
            }
        }),
{
    let before = tally_in(m)->0;
    let voters = before.voters;
    let effect = handled(m, sender, now, msg);
    if effect.entries == m {
        assert(voters.is_prefix_of(voters));
    } else if before.over(now) {
        assert(tally_in(effect.entries) == Some(before.completed()));
        assert(voters.is_prefix_of(voters));
    } else {
        let prior = record(m, voters, sender);
        assert(effect == cast(m, before, sender, now, msg.choice()->0, prior));
        let routing = applied(m, before, sender, now, msg.choice()->0, weight_of(prior))->Ok_0;
        let after = if prior is None {
            routing.tally.joined(sender)
        } else {
            routing.tally
        };
        assert(tally_in(effect.entries) == Some(after));
        assert(voters.is_prefix_of(routing.tally.voters)) by {
            assert(voters.is_prefix_of(voters));
            assert(voters.is_prefix_of(voters.push(sender)));
            if msg.vote is None {
                let holder = chain_end(m, voters, msg.delegate->0, voters.len())->Ok_0;
                assert(voters.is_prefix_of(voters.push(holder.id)));
            }
        }
        assert(routing.tally.voters.is_prefix_of(after.voters)) by {
            assert(routing.tally.voters.is_prefix_of(routing.tally.voters));
            assert(routing.tally.voters.is_prefix_of(routing.tally.voters.push(sender)));
        }
    }
}

/// The tally is refused as `Unauthorized` exactly while early results are not
/// allowed and the poll is not completed; in every other state of a stored
/// tally the question is answered with that tally.
pub proof fn lemma_tally_disclosure(m: Entries)
    ensures
        answered(m, QueryMsg::GetTally {  }) == Err::<QueryAnswerView, PollError>(
            PollError::Unauthorized,
        ) <==> (tally_in(m) matches Some(tally) && !tally.early_results_allowed
            && !tally.is_completed),
        tally_in(m) is Some && tally_in(m)->0.disclosed() ==> answered(m, QueryMsg::GetTally {  })
            == Ok::<QueryAnswerView, PollError>(QueryAnswerView::Tally(tally_in(m)->0)),
{
}

/// A poll that was opened answers with the text and the tally it was opened
/// with.
pub proof fn lemma_opened_poll_answers(m: Entries, now: u64, msg: InitMsgView)
    requires
        opened(m, now, msg).result is Ok,
    ensures
        answered(opened(m, now, msg).entries, QueryMsg::GetPoll {  }) == Ok::<
            QueryAnswerView,
            PollError,
        >(QueryAnswerView::Poll(msg.poll)),
        msg.early_results_allowed ==> answered(opened(m, now, msg).entries, QueryMsg::GetTally {  })
            == Ok::<QueryAnswerView, PollError>(
            QueryAnswerView::Tally(TallyView::opened(now, msg.duration, msg.early_results_allowed)),
        ),
        !msg.early_results_allowed ==> answered(opened(m, now, msg).entries, QueryMsg::GetTally {  })
            == Err::<QueryAnswerView, PollError>(PollError::Unauthorized),
{
    lemma_opened_poll_is_sound(m, now, msg);
    lemma_text_round_trip(msg.poll);
    assert(POLL_KEY@ != TALLY_KEY@) by {
        assert(POLL_KEY@.len() == 4);
        assert(TALLY_KEY@.len() == 5);
    }
}

/// The bytes under which a tally is stored decode to that tally again. This
/// rests on what is claimed of `bincode2`, which `tally_bytes` takes up.
pub proof fn lemma_tally_round_trip(tally: TallyView)
    ensures
        tally_bytes(tally) matches Some(bytes) ==> tally_decoding(bytes) == Some(tally),
{
}

/// The bytes under which a ballot is stored decode to that ballot again. This
/// rests on what is claimed of `bincode2`, which `ballot_bytes` takes up.
pub proof fn lemma_ballot_round_trip(ballot: BallotView)
    ensures
        ballot_bytes(ballot) matches Some(bytes) ==> ballot_decoding(bytes) == Some(ballot),
{
}

/// The bytes under which a text is stored are valid UTF-8 and decode to that
/// text again.
pub proof fn lemma_text_round_trip(text: Seq<char>)
    ensures
        valid_utf8(encode_utf8(text)),
        decode_utf8(encode_utf8(text)) == text,
{
    encode_utf8_valid_utf8(text);
    encode_utf8_decode_utf8(text);
}

} // verus!
