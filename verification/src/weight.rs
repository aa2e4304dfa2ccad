//! Where the weight is: what is counted, what the final ballots weigh, and
//! what waits in the records of voters who have not voted.

use crate::codec::{ballot_bytes, tally_bytes};
use crate::contract::{applied, cast, handled, opened, weight_of};
use crate::keys::{is_reserved, TALLY_KEY};
use crate::error::PollError;
use crate::ledger::{ballot_in, tally_in, Entries};
use crate::msg::{ChoiceView, HandleAnswerView, HandleMsgView, InitMsgView};
use crate::sound::{lemma_chain_stays_listed, lemma_opened_poll_is_sound, record, sound};
use crate::state::{BallotView, TallyView};
use vstd::prelude::*;

verus! {

/// What is added up over the ballots of the voters.
pub enum Measure {
    /// One for each final ballot.
    FinalBallots,
    /// The weight of each final ballot.
    FinalWeight,
    /// What each ballot that is not final holds beside the voter's own
    /// weight: the weight that others have delegated and that waits for the
    /// voter's choice.
    HeldWeight,
}

/// What the record of one voter adds to a measure.
pub open spec fn measure(which: Measure, ballot: Option<BallotView>) -> int {
    match ballot {
        None => 0,
        Some(ballot) => match which {
            Measure::FinalBallots => if ballot.has_voted {
                1
            } else {
                0
            },
            Measure::FinalWeight => if ballot.has_voted {
                ballot.vote_value as int
            } else {
                0
            },
            Measure::HeldWeight => if ballot.has_voted {
                0
            } else {
                ballot.vote_value - 1
            },
        },
    }
}

/// A measure added up over the records of `voters`, each voter counted as
/// often as listed.
pub open spec fn total(m: Entries, voters: Seq<Seq<u8>>, which: Measure) -> int
    decreases voters.len(),
{
    if voters.len() == 0 {
        0
    } else {
        total(m, voters.drop_last(), which) + measure(which, ballot_in(m, voters.last()))
    }
}

/// Whether the counted weight is the weight of the final ballots.
pub open spec fn counts_final_weight(m: Entries) -> bool {
    tally_in(m) matches Some(tally) && tally.yes + tally.no == total(
        m,
        tally.voters,
        Measure::FinalWeight,
    )
}

/// Whether every final ballot has put one unit of weight into the poll that
/// is either counted or held by a voter whose ballot is not final.
pub open spec fn conserves_weight(m: Entries) -> bool {
    tally_in(m) matches Some(tally) && tally.yes + tally.no + total(
        m,
        tally.voters,
        Measure::HeldWeight,
    ) == total(m, tally.voters, Measure::FinalBallots)
}

/// Whether a submission is a delegation that is recorded and whose weight is
/// not counted at once, because the chain ends at a voter who has not voted.
pub open spec fn defers(m: Entries, sender: Seq<u8>, now: u64, msg: HandleMsgView) -> bool {
    &&& handled(m, sender, now, msg).result is Ok
    &&& tally_in(m) matches Some(tally) && !tally.over(now) && {
        let prior = record(m, tally.voters, sender);
        &&& !(prior matches Some(ballot) && ballot.has_voted)
        &&& applied(m, tally, sender, now, msg.choice()->0, weight_of(prior)) matches Ok(routing)
            && routing.held is Some
    }
}

/// A total depends on the records of the listed voters alone.
pub proof fn lemma_total_unchanged(m: Entries, m2: Entries, voters: Seq<Seq<u8>>, which: Measure)
    requires
        forall|id: Seq<u8>| #[trigger] voters.contains(id) ==> ballot_in(m2, id) == ballot_in(m, id),
    ensures
        total(m2, voters, which) == total(m, voters, which),
    decreases voters.len(),
{
    if voters.len() > 0 {
        let rest = voters.drop_last();
        assert(voters.contains(voters.last())) by {
            assert(voters[voters.len() - 1] == voters.last());
        }
        assert forall|id: Seq<u8>| #[trigger] rest.contains(id) implies ballot_in(m2, id)
            == ballot_in(m, id) by {
            let i = choose|i: int| 0 <= i < rest.len() && rest[i] == id;
            assert(voters[i] == id);
            assert(voters.contains(id));
        }
        lemma_total_unchanged(m, m2, rest, which);
    }
}

/// When the record of one voter changes, a total over a list that names the
/// voter once changes by what that record added and now adds.
pub proof fn lemma_total_changed(
    m: Entries,
    m2: Entries,
    voters: Seq<Seq<u8>>,
    which: Measure,
    voter: Seq<u8>,
)
    requires
        voters.no_duplicates(),
        voters.contains(voter),
        forall|id: Seq<u8>| #[trigger]
            voters.contains(id) && id != voter ==> ballot_in(m2, id) == ballot_in(m, id),
    ensures
        total(m2, voters, which) == total(m, voters, which) - measure(which, ballot_in(m, voter))
            + measure(which, ballot_in(m2, voter)),
    decreases voters.len(),
{
    let rest = voters.drop_last();
    let last = voters.len() - 1;
    assert forall|id: Seq<u8>| #[trigger] rest.contains(id) implies voters.contains(id) && id
        != voters.last() by {
        let i = choose|i: int| 0 <= i < rest.len() && rest[i] == id;
        assert(voters[i] == id);
        assert(voters[i] != voters[last]);
    }
    if voters.last() == voter {
        lemma_total_unchanged(m, m2, rest, which);
    } else {
        assert(rest.contains(voter)) by {
            let i = choose|i: int| 0 <= i < voters.len() && voters[i] == voter;
            assert(rest[i] == voter);
        }
        assert(rest.no_duplicates());
        assert(voters.contains(voters.last())) by {
            assert(voters[last] == voters.last());
        }
        lemma_total_changed(m, m2, rest, which, voter);
    }
}

/// A voter who joins adds the voter's record to a total.
pub proof fn lemma_total_joined(m: Entries, voters: Seq<Seq<u8>>, which: Measure, voter: Seq<u8>)
    ensures
        total(m, voters.push(voter), which) == total(m, voters, which) + measure(
            which,
            ballot_in(m, voter),
        ),
{
    assert(voters.push(voter).drop_last() == voters);
    assert(voters.push(voter).last() == voter);
}

/// How a recorded ballot changes a total: the sender's record now adds what
/// the new ballot adds, and the holder's record, where the weight is held,
/// what the holder's new record adds.
proof fn lemma_cast_totals(
    m: Entries,
    tally: TallyView,
    sender: Seq<u8>,
    now: u64,
    choice: ChoiceView,
    which: Measure,
)
    requires
        sound(m),
        tally_in(m) == Some(tally),
        !is_reserved(sender),
        choice.delegate() matches Some(delegate) ==> !is_reserved(delegate),
        record(m, tally.voters, sender) matches Some(ballot) ==> !ballot.has_voted,
        cast(m, tally, sender, now, choice, record(m, tally.voters, sender)).result is Ok,
    ensures
        ({
            let prior = record(m, tally.voters, sender);
            let after = cast(m, tally, sender, now, choice, prior);
            let weight = weight_of(prior);
            let routing = applied(m, tally, sender, now, choice, weight)->Ok_0;
            let ballot = BallotView::cast(now, choice.vote(), choice.delegate(), weight);
            tally_in(after.entries) matches Some(t2) && total(after.entries, t2.voters, which)
                == total(m, tally.voters, which) - measure(which, prior) + measure(
                which,
                Some(ballot),
            ) + (match routing.held {
                Some(held) => measure(which, Some(held.ballot)) - measure(
                    which,
                    record(m, tally.voters, held.id),
                ),
                None => 0,
            })
        }),
{
    let prior = record(m, tally.voters, sender);
    let after = cast(m, tally, sender, now, choice, prior);
    let weight = weight_of(prior);
    let voters = tally.voters;
    let routing = applied(m, tally, sender, now, choice, weight)->Ok_0;
    let t2 = if prior is None {
        routing.tally.joined(sender)
    } else {
        routing.tally
    };
    let ballot = BallotView::cast(now, choice.vote(), choice.delegate(), weight);
    let ballot_bytes = ballot_bytes(ballot)->0;
    let tally_bytes = tally_bytes(t2)->0;
    assert(tally_in(after.entries) == Some(t2));
    if choice.vote() is None {
        lemma_chain_stays_listed(m, voters, choice.delegate()->0, voters.len());
    }
    // first the holder's record, then the sender's and the tally
    let m1 = match routing.held {
        Some(held) => m.insert(held.id, crate::codec::ballot_bytes(held.ballot)->0),
        None => m,
    };
    assert(after.entries == m1.insert(sender, ballot_bytes).insert(TALLY_KEY@, tally_bytes));
    let v1 = routing.tally.voters;
    // over the voters listed before
    match routing.held {
        Some(held) => {
            assert(held.id != sender);
            if voters.contains(held.id) {
                lemma_total_changed(m, m1, voters, which, held.id);
            } else {
                lemma_total_unchanged(m, m1, voters, which);
            }
            assert(ballot_in(m1, held.id) == Some(held.ballot));
        },
        None => {
            assert(m1 == m);
        },
    }
    assert(ballot_in(m1, sender) == ballot_in(m, sender));
    assert forall|id: Seq<u8>| #[trigger] voters.contains(id) && id != sender implies ballot_in(
        after.entries,
        id,
    ) == ballot_in(m1, id) by {
        assert(!is_reserved(id));
    }
    if voters.contains(sender) {
        lemma_total_changed(m1, after.entries, voters, which, sender);
    } else {
        lemma_total_unchanged(m1, after.entries, voters, which);
    }
    assert(ballot_in(after.entries, sender) == Some(ballot));
    // over the voters who joined
    if v1 != voters {
        let held = routing.held->0;
        assert(v1 == voters.push(held.id));
        lemma_total_joined(after.entries, voters, which, held.id);
        assert(ballot_in(after.entries, held.id) == Some(held.ballot));
    }
    if prior is None {
        lemma_total_joined(after.entries, v1, which, sender);
    }
}

/// How a submission changes a total, and the counts with it.
proof fn lemma_submission_changes_totals(
    m: Entries,
    sender: Seq<u8>,
    now: u64,
    msg: HandleMsgView,
    which: Measure,
)
    requires
        sound(m),
    ensures
        ({
            let tally = tally_in(m)->0;
            let after = handled(m, sender, now, msg);
            let prior = record(m, tally.voters, sender);
            let weight = weight_of(prior);
            let recorded = after.result is Ok && !tally.over(now) && !(prior matches Some(ballot)
                && ballot.has_voted);
            let held = recorded && defers(m, sender, now, msg);
            tally_in(after.entries) matches Some(t2) && t2.yes + t2.no == tally.yes + tally.no + (
            if recorded && !held {
                weight as int
            } else {
                0
            }) && total(after.entries, t2.voters, which) == total(m, tally.voters, which) + (
            if !recorded {
                0
            } else {
                match which {
                    Measure::FinalBallots => 1,
                    Measure::FinalWeight => weight as int,
                    Measure::HeldWeight => if held {
                        1
                    } else {
                        1 - weight
                    },
                }
            })
        }),
{
    let tally = tally_in(m)->0;
    let voters = tally.voters;
    let after = handled(m, sender, now, msg);
    let prior = record(m, voters, sender);
    if after.entries == m {
    } else if tally.over(now) {
        assert(tally_in(after.entries) == Some(tally.completed()));
        assert forall|id: Seq<u8>| #[trigger] voters.contains(id) implies ballot_in(
            after.entries,
            id,
        ) == ballot_in(m, id) by {
            assert(!is_reserved(id));
        }
        lemma_total_unchanged(m, after.entries, voters, which);
    } else {
        assert(after == cast(m, tally, sender, now, msg.choice()->0, prior));
        lemma_cast_totals(m, tally, sender, now, msg.choice()->0, which);
        if msg.vote is None {
            lemma_chain_stays_listed(m, voters, msg.delegate->0, voters.len());
        }
    }
}

/// In the poll that `init` opens, the counted weight is the weight of the
/// final ballots, both being nothing, and weight is conserved.
pub proof fn lemma_opened_poll_is_balanced(m: Entries, now: u64, msg: InitMsgView)
    requires
        opened(m, now, msg).result is Ok,
    ensures
        counts_final_weight(opened(m, now, msg).entries),
        conserves_weight(opened(m, now, msg).entries),
{
    lemma_opened_poll_is_sound(m, now, msg);
}

/// The counted weight stays the weight of the final ballots under every
/// submission but a delegation that is deferred: there the delegator's
/// ballot is final while its weight waits, uncounted, for the holder's vote.
pub proof fn lemma_counted_weight_is_final_weight(
    m: Entries,
    sender: Seq<u8>,
    now: u64,
    msg: HandleMsgView,
)
    requires
        sound(m),
        counts_final_weight(m),
        !defers(m, sender, now, msg),
    ensures
        counts_final_weight(handled(m, sender, now, msg).entries),
{
    lemma_submission_changes_totals(m, sender, now, msg, Measure::FinalWeight);
}

/// A deferred delegation is where the counted weight falls behind the
/// weight of the final ballots: the delegator's ballot is final, and its
/// weight is not counted before the holder votes.
pub proof fn lemma_deferred_weight_is_not_counted(
    m: Entries,
    sender: Seq<u8>,
    now: u64,
    msg: HandleMsgView,
)
    requires
        sound(m),
        counts_final_weight(m),
        defers(m, sender, now, msg),
    ensures
        !counts_final_weight(handled(m, sender, now, msg).entries),
{
    lemma_submission_changes_totals(m, sender, now, msg, Measure::FinalWeight);
}

/// Under every submission weight is conserved: each final ballot has put one
/// unit of weight into the poll, and each unit is either counted or held by
/// a voter whose ballot is not final. So no weight is counted twice, and none
/// is lost.
pub proof fn lemma_weight_is_conserved(m: Entries, sender: Seq<u8>, now: u64, msg: HandleMsgView)
    requires
        sound(m),
        conserves_weight(m),
    ensures
        conserves_weight(handled(m, sender, now, msg).entries),
{
    lemma_submission_changes_totals(m, sender, now, msg, Measure::FinalBallots);
    lemma_submission_changes_totals(m, sender, now, msg, Measure::HeldWeight);
}

/// The counted weight grows only when a ballot becomes final, and then by
/// the weight of that ballot, all on one side; or, where the delegation is
/// deferred, not at all.
pub proof fn lemma_count_grows_by_the_ballot(m: Entries, sender: Seq<u8>, now: u64, msg: HandleMsgView)
    requires
        tally_in(m) is Some,
    ensures
        ({
            let before = tally_in(m)->0;
            let effect = handled(m, sender, now, msg);
            let weight = weight_of(record(m, before.voters, sender));
            let counted = effect.result == Ok::<HandleAnswerView, PollError>(
                HandleAnswerView::cast(msg.vote, msg.delegate),
            ) && !defers(m, sender, now, msg);
            tally_in(effect.entries) matches Some(after) && if counted {
                ||| after.yes == before.yes + weight && after.no == before.no
                ||| after.yes == before.yes && after.no == before.no + weight
            } else {
                after.yes == before.yes && after.no == before.no
            }
        }),
{
    let before = tally_in(m)->0;
    let effect = handled(m, sender, now, msg);
    let prior = record(m, before.voters, sender);
    if effect.entries == m {
    } else if before.over(now) {
        assert(tally_in(effect.entries) == Some(before.completed()));
    } else {
        assert(effect == cast(m, before, sender, now, msg.choice()->0, prior));
        let routing = applied(m, before, sender, now, msg.choice()->0, weight_of(prior))->Ok_0;
        let after = if prior is None {
            routing.tally.joined(sender)
        } else {
            routing.tally
        };
        assert(tally_in(effect.entries) == Some(after));
    }
}

} // verus!
