//! The two kinds of record that the poll keeps: the tally and the ballots.

use crate::error::PollError;
use crate::keys::{is_reserved, same_bytes};
use vstd::prelude::*;

verus! {

/// The views of a list of voter identifiers, in the same order.
pub open spec fn id_views(ids: Seq<Vec<u8>>) -> Seq<Seq<u8>> {
    Seq::new(ids.len(), |i: int| ids[i]@)
}

/// The view of an optional voter identifier.
pub open spec fn opt_id_view(id: Option<Vec<u8>>) -> Option<Seq<u8>> {
    match id {
        Some(bytes) => Some(bytes@),
        None => None,
    }
}

/// A copy of a byte string.
pub fn copy_bytes(bytes: &[u8]) -> (r: Vec<u8>)
    ensures
        r@ == bytes@,
{
    let mut out: Vec<u8> = Vec::new();
    let mut i: usize = 0;
    while i < bytes.len()
        invariant
            i <= bytes.len(),
            out@ == bytes@.subrange(0, i as int),
        decreases bytes.len() - i,
    {
        out.push(bytes[i]);
        i += 1;
        assert(out@ =~= bytes@.subrange(0, i as int));
    }
    assert(out@ =~= bytes@);
    out
}

/// A list without repetitions stays so when a voter who is not on it joins.
pub proof fn lemma_join_keeps_distinct(voters: Seq<Seq<u8>>, id: Seq<u8>)
    requires
        voters.no_duplicates(),
        !voters.contains(id),
    ensures
        voters.push(id).no_duplicates(),
        forall|other: Seq<u8>| #[trigger]
            voters.push(id).contains(other) <==> other == id || voters.contains(other),
{
    let joined = voters.push(id);
    assert forall|i: int, j: int| 0 <= i < joined.len() && 0 <= j < joined.len() && i != j implies joined[i]
        != joined[j] by {
        if i < voters.len() {
            assert(voters.contains(voters[i]));
        }
        if j < voters.len() {
            assert(voters.contains(voters[j]));
        }
    }
    assert forall|other: Seq<u8>| #[trigger]
        joined.contains(other) <==> other == id || voters.contains(other) by {
        if joined.contains(other) {
            let i = choose|i: int| 0 <= i < joined.len() && joined[i] == other;
            if i < voters.len() {
                assert(voters[i] == other);
            }
        }
        if voters.contains(other) {
            let i = choose|i: int| 0 <= i < voters.len() && voters[i] == other;
            assert(joined[i] == other);
        }
        if other == id {
            assert(joined[voters.len() as int] == id);
        }
    }
}

/// The running count of the poll, with its voting window and what governs
/// disclosure.
#[derive(Clone, Debug, PartialEq, Eq)]
pub struct Tally {
    /// Weight counted in favour.
    pub yes: u64,
    /// Weight counted against.
    pub no: u64,
    /// Every voter that has a ballot record, each once, oldest first.
    pub voters: Vec<Vec<u8>>,
    /// When the poll was opened.
    pub init_timestamp: u64,
    /// The last moment at which a ballot is accepted.
    pub end_timestamp: u64,
    /// Whether the count may be read while the poll is open.
    pub early_results_allowed: bool,
    /// Whether a submission has been seen after the window closed.
    pub is_completed: bool,
}

/// A tally as a mathematical value.
pub struct TallyView {
    pub yes: u64,
    pub no: u64,
    pub voters: Seq<Seq<u8>>,
    pub init_timestamp: u64,
    pub end_timestamp: u64,
    pub early_results_allowed: bool,
    pub is_completed: bool,
}

impl View for Tally {
    type V = TallyView;

    open spec fn view(&self) -> TallyView {
        TallyView {
            yes: self.yes,
            no: self.no,
            voters: id_views(self.voters@),
            init_timestamp: self.init_timestamp,
            end_timestamp: self.end_timestamp,
            early_results_allowed: self.early_results_allowed,
            is_completed: self.is_completed,
        }
    }
}

impl TallyView {
    /// Whether no voter is listed twice, and none under a reserved key.
    pub open spec fn well_formed(self) -> bool {
        &&& self.voters.no_duplicates()
        &&& forall|id: Seq<u8>| #[trigger] self.voters.contains(id) ==> !is_reserved(id)
    }

    /// The tally of a poll opened at `now` for `duration`, before any ballot.
    pub open spec fn opened(now: u64, duration: u64, early_results_allowed: bool) -> TallyView
        recommends
            now + duration <= u64::MAX,
    {
        TallyView {
            yes: 0,
            no: 0,
            voters: Seq::empty(),
            init_timestamp: now,
            end_timestamp: (now + duration) as u64,
            early_results_allowed,
            is_completed: false,
        }
    }

    /// Whether the voting window has closed by `now`.
    pub open spec fn over(self, now: u64) -> bool {
        now > self.end_timestamp
    }

    /// Whether the count may be read.
    pub open spec fn disclosed(self) -> bool {
        self.early_results_allowed || self.is_completed
    }

    /// Whether `weight` more can be counted on the side of `vote`.
    pub open spec fn can_count(self, vote: bool, weight: u64) -> bool {
        if vote {
            self.yes + weight <= u64::MAX
        } else {
            self.no + weight <= u64::MAX
        }
    }

    /// The tally with `weight` more on the side of `vote`.
    pub open spec fn counted(self, vote: bool, weight: u64) -> TallyView
        recommends
            self.can_count(vote, weight),
    {
        if vote {
            TallyView { yes: (self.yes + weight) as u64, ..self }
        } else {
            TallyView { no: (self.no + weight) as u64, ..self }
        }
    }

    /// The tally with `id` added as the newest voter.
    pub open spec fn joined(self, id: Seq<u8>) -> TallyView {
        TallyView { voters: self.voters.push(id), ..self }
    }

    /// The tally marked as completed.
    pub open spec fn completed(self) -> TallyView {
        TallyView { is_completed: true, ..self }
    }
}

impl Tally {
    /// Opens a poll at `now` that accepts ballots up to `now + duration`.
    /// Fails with `Overflow` exactly when that moment does not fit in 64 bits.
    pub fn new(now: u64, duration: u64, early_results_allowed: bool) -> (r: Result<Tally, PollError>)
        ensures
            match r {
                Ok(tally) => now + duration <= u64::MAX && tally@ == TallyView::opened(
                    now,
                    duration,
                    early_results_allowed,
                ) && tally@.well_formed(),
                Err(e) => e == PollError::Overflow && now + duration > u64::MAX,
            },
    {
        match now.checked_add(duration) {
            Some(end_timestamp) => {
                let tally = Tally {
                    yes: 0,
                    no: 0,
                    voters: Vec::new(),
                    init_timestamp: now,
                    end_timestamp,
                    early_results_allowed,
                    is_completed: false,
                };
                assert(tally@.voters =~= Seq::empty());
                Ok(tally)
            },
            None => Err(PollError::Overflow),
        }
    }

    /// Whether `id` has a ballot record.
    pub fn has_voter(&self, id: &[u8]) -> (r: bool)
        ensures
            r == self@.voters.contains(id@),
    {
        let mut i: usize = 0;
        while i < self.voters.len()
            invariant
                i <= self.voters.len(),
                forall|j: int| 0 <= j < i ==> self@.voters[j] != id@,
            decreases self.voters.len() - i,
        {
            if same_bytes(self.voters[i].as_slice(), id) {
                assert(self@.voters[i as int] == id@);
                return true;
            }
            i += 1;
        }
        false
    }

    /// Adds `id` as the newest voter. The tally stays well formed where `id`
    /// is neither listed nor reserved.
    pub fn join(&mut self, id: Vec<u8>)
        ensures
            final(self)@ == old(self)@.joined(id@),
            old(self)@.well_formed() && !old(self)@.voters.contains(id@) && !is_reserved(id@)
                ==> final(self)@.well_formed(),
    {
        self.voters.push(id);
        assert(self@.voters =~= old(self)@.voters.push(id@));
        proof {
            if old(self)@.voters.no_duplicates() && !old(self)@.voters.contains(id@) {
                lemma_join_keeps_distinct(old(self)@.voters, id@);
            }
        }
    }

    /// Counts `weight` more on the side of `vote`. Fails with `Overflow`, and
    /// changes nothing, exactly when the count would not fit in 64 bits.
    pub fn count(&mut self, vote: bool, weight: u64) -> (r: Result<(), PollError>)
        ensures
            match r {
                Ok(()) => old(self)@.can_count(vote, weight) && final(self)@ == old(self)@.counted(
                    vote,
                    weight,
                ),
                Err(e) => e == PollError::Overflow && !old(self)@.can_count(vote, weight)
                    && *final(self) == *old(self),
            },
    {
        let side = if vote { self.yes } else { self.no };
        match side.checked_add(weight) {
            Some(sum) => {
                if vote {
                    self.yes = sum;
                } else {
                    self.no = sum;
                }
                Ok(())
            },
            None => Err(PollError::Overflow),
        }
    }

    /// Whether the voting window has closed by `now`.
    pub fn over(&self, now: u64) -> (r: bool)
        ensures
            r == self@.over(now),
    {
        now > self.end_timestamp
    }

    /// Whether the count may be read: early results are allowed, or the poll
    /// is completed.
    pub fn disclosed(&self) -> (r: bool)
        ensures
            r == self@.disclosed(),
    {
        self.early_results_allowed || self.is_completed
    }
}

/// What one voter has on record.
#[derive(Clone, Debug, PartialEq, Eq)]
pub struct Ballot {
    /// Whether the voter has cast a final ballot, by voting or by delegating.
    pub has_voted: bool,
    /// When the record was last changed.
    pub timestamp: u64,
    /// The voter's own choice, where the final ballot was a vote.
    pub vote: Option<bool>,
    /// The voter to whom the weight was handed, where the final ballot was a
    /// delegation.
    pub delegate: Option<Vec<u8>>,
    /// The weight that the voter controls: one for the voter, and what others
    /// have delegated before the ballot became final.
    pub vote_value: u64,
}

/// A ballot as a mathematical value.
pub struct BallotView {
    pub has_voted: bool,
    pub timestamp: u64,
    pub vote: Option<bool>,
    pub delegate: Option<Seq<u8>>,
    pub vote_value: u64,
}

impl View for Ballot {
    type V = BallotView;

    open spec fn view(&self) -> BallotView {
        BallotView {
            has_voted: self.has_voted,
            timestamp: self.timestamp,
            vote: self.vote,
            delegate: opt_id_view(self.delegate),
            vote_value: self.vote_value,
        }
    }
}

impl BallotView {
    /// Whether the record holds the voter's own weight at least, and is either
    /// a final ballot, which is a vote or a delegation and not both, or one
    /// that is not final, which is neither.
    pub open spec fn well_formed(self) -> bool {
        &&& self.vote_value >= 1
        &&& if self.has_voted {
            (self.vote is Some) != (self.delegate is Some)
        } else {
            self.vote is None && self.delegate is None
        }
    }

    /// The record of a voter who has not cast a ballot and holds `weight`.
    pub open spec fn pending(now: u64, weight: u64) -> BallotView {
        BallotView { has_voted: false, timestamp: now, vote: None, delegate: None, vote_value: weight }
    }

    /// The record of a voter who cast a final ballot at `now` with `weight`.
    pub open spec fn cast(
        now: u64,
        vote: Option<bool>,
        delegate: Option<Seq<u8>>,
        weight: u64,
    ) -> BallotView {
        BallotView { has_voted: true, timestamp: now, vote, delegate, vote_value: weight }
    }
}

} // verus!
