//! What callers send to the poll and what they get back.

use crate::error::PollError;
use crate::state::{copy_bytes, opt_id_view, Ballot, BallotView, Tally, TallyView};
use vstd::prelude::*;

verus! {

/// Opens the poll.
#[derive(Clone, Debug, PartialEq, Eq)]
pub struct InitMsg {
    /// The question put to the voters.
    pub poll: String,
    /// How long ballots are accepted, counted from the opening.
    pub duration: u64,
    /// Whether the count may be read while the poll is open.
    pub early_results_allowed: bool,
}

/// An opening message as a mathematical value.
pub struct InitMsgView {
    pub poll: Seq<char>,
    pub duration: u64,
    pub early_results_allowed: bool,
}

impl View for InitMsg {
    type V = InitMsgView;

    open spec fn view(&self) -> InitMsgView {
        InitMsgView {
            poll: self.poll@,
            duration: self.duration,
            early_results_allowed: self.early_results_allowed,
        }
    }
}

/// A ballot: either a vote or the voter to whom the weight is handed.
#[derive(Clone, Debug, PartialEq, Eq)]
pub struct HandleMsg {
    pub vote: Option<bool>,
    pub delegate: Option<Vec<u8>>,
}

/// A ballot as a mathematical value.
pub struct HandleMsgView {
    pub vote: Option<bool>,
    pub delegate: Option<Seq<u8>>,
}

impl View for HandleMsg {
    type V = HandleMsgView;

    open spec fn view(&self) -> HandleMsgView {
        HandleMsgView { vote: self.vote, delegate: opt_id_view(self.delegate) }
    }
}

/// What a ballot asks for: a vote, or the handing of the weight to a
/// delegate. A message that carries exactly one of the two is a choice.
#[derive(Clone, Debug, PartialEq, Eq)]
pub enum Choice {
    Vote(bool),
    Delegate(Vec<u8>),
}

/// A choice as a mathematical value.
pub enum ChoiceView {
    Vote(bool),
    Delegate(Seq<u8>),
}

impl View for Choice {
    type V = ChoiceView;

    open spec fn view(&self) -> ChoiceView {
        match *self {
            Choice::Vote(vote) => ChoiceView::Vote(vote),
            Choice::Delegate(delegate) => ChoiceView::Delegate(delegate@),
        }
    }
}

impl ChoiceView {
    /// The vote, where the choice is one.
    pub open spec fn vote(self) -> Option<bool> {
        match self {
            ChoiceView::Vote(vote) => Some(vote),
            ChoiceView::Delegate(_) => None,
        }
    }

    /// The delegate, where the choice names one.
    pub open spec fn delegate(self) -> Option<Seq<u8>> {
        match self {
            ChoiceView::Vote(_) => None,
            ChoiceView::Delegate(delegate) => Some(delegate),
        }
    }
}

impl Choice {
    /// The vote, where the choice is one.
    pub fn vote(&self) -> (r: Option<bool>)
        ensures
            r == self@.vote(),
    {
        match self {
            Choice::Vote(vote) => Some(*vote),
            Choice::Delegate(_) => None,
        }
    }

    /// The delegate, where the choice names one.
    pub fn delegate(&self) -> (r: Option<Vec<u8>>)
        ensures
            opt_id_view(r) == self@.delegate(),
    {
        match self {
            Choice::Vote(_) => None,
            Choice::Delegate(delegate) => Some(copy_bytes(delegate.as_slice())),
        }
    }
}

impl HandleMsgView {
    /// The choice that the message makes, where it carries exactly one of a
    /// vote and a delegate.
    pub open spec fn choice(self) -> Option<ChoiceView> {
        match (self.vote, self.delegate) {
            (Some(vote), None) => Some(ChoiceView::Vote(vote)),
            (None, Some(delegate)) => Some(ChoiceView::Delegate(delegate)),
            _ => None,
        }
    }
}

impl HandleMsg {
    /// The choice that the message makes. Fails with `InvalidRequest` exactly
    /// when the message does not carry exactly one of a vote and a delegate.
    pub fn choice(self) -> (r: Result<Choice, PollError>)
        ensures
            match r {
                Ok(choice) => self@.choice() == Some(choice@),
                Err(e) => e == PollError::InvalidRequest && self@.choice() is None,
            },
    {
        match (self.vote, self.delegate) {
            (Some(vote), None) => Ok(Choice::Vote(vote)),
            (None, Some(delegate)) => Ok(Choice::Delegate(delegate)),
            _ => Err(PollError::InvalidRequest),
        }
    }
}

/// A question about the poll.
#[derive(Clone, Copy, Debug, PartialEq, Eq)]
pub enum QueryMsg {
    /// What is being voted on?
    GetPoll {  },
    /// What is the count?
    GetTally {  },
}

/// A bare count.
#[derive(Clone, Copy, Debug, PartialEq, Eq, Structural)]
pub struct TallyResponse {
    pub count: i32,
}

/// Whether a submission was recorded.
#[derive(Clone, Copy, Debug, PartialEq, Eq, Structural)]
pub enum ResponseStatus {
    Success,
    Failure,
}

/// The reply to a submission.
#[derive(Clone, Debug, PartialEq, Eq)]
pub enum HandleAnswer {
    /// What became of a ballot, with what is on record for the voter.
    Ballot {
        /// Whether the ballot was recorded.
        status: ResponseStatus,
        /// What happened, in words.
        message: String,
        /// The vote on record for the voter.
        vote: Option<bool>,
        /// The delegate on record for the voter.
        delegate: Option<Vec<u8>>,
    },
    /// A bare status.
    Status {
        status: ResponseStatus,
        message: String,
    },
}

/// A reply as a mathematical value.
pub enum HandleAnswerView {
    Ballot { status: ResponseStatus, message: Seq<char>, vote: Option<bool>, delegate: Option<Seq<u8>> },
    Status { status: ResponseStatus, message: Seq<char> },
}

impl View for HandleAnswer {
    type V = HandleAnswerView;

    open spec fn view(&self) -> HandleAnswerView {
        match *self {
            HandleAnswer::Ballot { status, message, vote, delegate } => HandleAnswerView::Ballot {
                status,
                message: message@,
                vote,
                delegate: opt_id_view(delegate),
            },
            HandleAnswer::Status { status, message } => HandleAnswerView::Status {
                status,
                message: message@,
            },
        }
    }
}

impl HandleAnswerView {
    /// The reply to a ballot that was recorded.
    pub open spec fn cast(vote: Option<bool>, delegate: Option<Seq<u8>>) -> HandleAnswerView {
        HandleAnswerView::Ballot {
            status: ResponseStatus::Success,
            message: "Ballot was cast successfully!"@,
            vote,
            delegate,
        }
    }

    /// The reply to a voter whose ballot is final already: what is on record.
    pub open spec fn already_cast(ballot: BallotView) -> HandleAnswerView {
        HandleAnswerView::Ballot {
            status: ResponseStatus::Failure,
            message: "Ballot was already cast!"@,
            vote: ballot.vote,
            delegate: ballot.delegate,
        }
    }

    /// The reply to a submission that came after the window closed: what is
    /// on record for the voter, if anything is.
    pub open spec fn closed(prior: Option<BallotView>) -> HandleAnswerView {
        match prior {
            Some(ballot) => HandleAnswerView::Ballot {
                status: ResponseStatus::Failure,
                message: "Tally is over. Previous ballot was however recorded."@,
                vote: ballot.vote,
                delegate: ballot.delegate,
            },
            None => HandleAnswerView::Ballot {
                status: ResponseStatus::Failure,
                message: "Tally is over. Ballot was not taken into account."@,
                vote: None,
                delegate: None,
            },
        }
    }
}

impl HandleAnswer {
    /// The reply to a ballot that was recorded.
    pub fn cast(vote: Option<bool>, delegate: Option<Vec<u8>>) -> (r: HandleAnswer)
        ensures
            r@ == HandleAnswerView::cast(vote, opt_id_view(delegate)),
    {
        HandleAnswer::Ballot {
            status: ResponseStatus::Success,
            message: "Ballot was cast successfully!".to_owned(),
            vote,
            delegate,
        }
    }

    /// The reply to a voter whose ballot is final already.
    pub fn already_cast(ballot: Ballot) -> (r: HandleAnswer)
        ensures
            r@ == HandleAnswerView::already_cast(ballot@),
    {
        HandleAnswer::Ballot {
            status: ResponseStatus::Failure,
            message: "Ballot was already cast!".to_owned(),
            vote: ballot.vote,
            delegate: ballot.delegate,
        }
    }

    /// The reply to a submission that came after the window closed.
    pub fn closed(prior: Option<Ballot>) -> (r: HandleAnswer)
        ensures
            r@ == HandleAnswerView::closed(
                match prior {
                    Some(ballot) => Some(ballot@),
                    None => None,
                },
            ),
    {
        match prior {
            Some(ballot) => HandleAnswer::Ballot {
                status: ResponseStatus::Failure,
                message: "Tally is over. Previous ballot was however recorded.".to_owned(),
                vote: ballot.vote,
                delegate: ballot.delegate,
            },
            None => HandleAnswer::Ballot {
                status: ResponseStatus::Failure,
                message: "Tally is over. Ballot was not taken into account.".to_owned(),
                vote: None,
                delegate: None,
            },
        }
    }
}

/// The reply to a question.
#[derive(Clone, Debug, PartialEq, Eq)]
pub enum QueryAnswer {
    /// The question put to the voters.
    Poll(String),
    /// The count.
    Tally(Tally),
}

/// A reply to a question as a mathematical value.
pub enum QueryAnswerView {
    Poll(Seq<char>),
    Tally(TallyView),
}

impl View for QueryAnswer {
    type V = QueryAnswerView;

    open spec fn view(&self) -> QueryAnswerView {
        match *self {
            QueryAnswer::Poll(text) => QueryAnswerView::Poll(text@),
            QueryAnswer::Tally(tally) => QueryAnswerView::Tally(tally@),
        }
    }
}

} // verus!
