//! What holds of a poll through all that is ever submitted to it.

use crate::contract::{handled, opened};
use crate::cycles::{
    acyclic, lemma_opened_poll_is_acyclic, lemma_submission_keeps_acyclic,
};
use crate::keys::is_reserved;
use crate::laws::{lemma_final_ballot_is_frozen, lemma_submission_only_adds};
use crate::ledger::{ballot_in, tally_in, Entries};
use crate::msg::{HandleMsgView, InitMsgView};
use crate::sound::{lemma_opened_poll_is_sound, lemma_submission_keeps_sound, sound};
use crate::weight::{
    conserves_weight, counts_final_weight, defers, lemma_counted_weight_is_final_weight,
    lemma_opened_poll_is_balanced, lemma_weight_is_conserved,
};
use vstd::prelude::*;

verus! {

/// One submission: who sends it, when, and what it asks.
pub struct Submission {
    pub sender: Seq<u8>,
    pub now: u64,
    pub msg: HandleMsgView,
}

/// The entries of the store after the submissions `steps`, taken in order,
/// whether they were answered or refused.
pub open spec fn after(m: Entries, steps: Seq<Submission>) -> Entries
    decreases steps.len(),
{
    if steps.len() == 0 {
        m
    } else {
        handled(
            after(m, steps.drop_last()),
            steps.last().sender,
            steps.last().now,
            steps.last().msg,
        ).entries
    }
}

/// What a poll keeps to: its store is sound, no chain of delegations runs in
/// a circle, and weight is conserved.
pub open spec fn valid(m: Entries) -> bool {
    &&& sound(m)
    &&& acyclic(m)
    &&& conserves_weight(m)
}

/// The poll that `init` opens is valid.
pub proof fn lemma_opened_poll_is_valid(m: Entries, now: u64, msg: InitMsgView)
    requires
        opened(m, now, msg).result is Ok,
    ensures
        valid(opened(m, now, msg).entries),
{
    lemma_opened_poll_is_sound(m, now, msg);
    lemma_opened_poll_is_acyclic(m, now, msg);
    lemma_opened_poll_is_balanced(m, now, msg);
}

/// Every submission leaves a valid poll valid.
pub proof fn lemma_submission_keeps_valid(m: Entries, sender: Seq<u8>, now: u64, msg: HandleMsgView)
    requires
        valid(m),
    ensures
        valid(handled(m, sender, now, msg).entries),
{
    lemma_submission_keeps_sound(m, sender, now, msg);
    lemma_submission_keeps_acyclic(m, sender, now, msg);
    lemma_weight_is_conserved(m, sender, now, msg);
}

/// A valid poll stays valid whatever is submitted to it, in whatever order:
/// through all of it no voter is listed twice, every delegation ends, and
/// every final ballot has put one unit of weight into the poll that is either
/// counted or held by a voter who has yet to vote.
pub proof fn lemma_poll_stays_valid(m: Entries, steps: Seq<Submission>)
    requires
        valid(m),
    ensures
        valid(after(m, steps)),
    decreases steps.len(),
{
    if steps.len() > 0 {
        lemma_poll_stays_valid(m, steps.drop_last());
        lemma_submission_keeps_valid(
            after(m, steps.drop_last()),
            steps.last().sender,
            steps.last().now,
            steps.last().msg,
        );
    }
}

/// Whatever is submitted after a ballot became final, in whatever order, the
/// voter stays listed and the ballot stays as it is, byte for byte.
pub proof fn lemma_final_ballot_stays(m: Entries, voter: Seq<u8>, steps: Seq<Submission>)
    requires
        tally_in(m) matches Some(tally) && tally.voters.contains(voter),
        ballot_in(m, voter) matches Some(ballot) && ballot.has_voted,
        !is_reserved(voter),
    ensures
        tally_in(after(m, steps)) matches Some(tally) && tally.voters.contains(voter),
        after(m, steps).contains_key(voter),
        after(m, steps)[voter] == m[voter],
    decreases steps.len(),
{
    if steps.len() > 0 {
        let before = after(m, steps.drop_last());
        let last = steps.last();
        lemma_final_ballot_stays(m, voter, steps.drop_last());
        lemma_final_ballot_is_frozen(before, voter, last.sender, last.now, last.msg);
        lemma_submission_only_adds(before, last.sender, last.now, last.msg);
        let listed = tally_in(before)->0.voters;
        let then = tally_in(after(m, steps))->0.voters;
        let i = choose|i: int| 0 <= i < listed.len() && listed[i] == voter;
        assert(then[i] == voter);
    }
}

/// Whether none of the submissions `steps`, taken in order from `m`, is a
/// delegation that is deferred.
pub open spec fn none_deferred(m: Entries, steps: Seq<Submission>) -> bool
    decreases steps.len(),
{
    steps.len() > 0 ==> none_deferred(m, steps.drop_last()) && !defers(
        after(m, steps.drop_last()),
        steps.last().sender,
        steps.last().now,
        steps.last().msg,
    )
}

/// As long as no delegation is deferred, the counted weight is the weight of
/// the final ballots: through votes, and through delegations to voters who
/// have voted, in whatever order.
pub proof fn lemma_count_is_final_weight(m: Entries, steps: Seq<Submission>)
    requires
        valid(m),
        counts_final_weight(m),
        none_deferred(m, steps),
    ensures
        counts_final_weight(after(m, steps)),
    decreases steps.len(),
{
    if steps.len() > 0 {
        let before = after(m, steps.drop_last());
        lemma_count_is_final_weight(m, steps.drop_last());
        lemma_poll_stays_valid(m, steps.drop_last());
        lemma_counted_weight_is_final_weight(
            before,
            steps.last().sender,
            steps.last().now,
            steps.last().msg,
        );
    }
}

} // verus!
