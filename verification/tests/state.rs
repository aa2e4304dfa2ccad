use liquid_vote::error::PollError;
use liquid_vote::keys::{reserved, same_bytes, POLL_KEY, TALLY_KEY};
use liquid_vote::msg::{
    Choice, HandleAnswer, HandleMsg, InitMsg, QueryMsg, ResponseStatus, TallyResponse,
};
use liquid_vote::state::{copy_bytes, Ballot, Tally};

fn fresh() -> Tally {
    Tally::new(100, 50, false).unwrap()
}

#[test]
fn keys_are_the_words() {
    assert_eq!(b"poll", &POLL_KEY);
    assert_eq!(b"tally", &TALLY_KEY);
}

#[test]
fn same_bytes_compares_contents() {
    assert!(same_bytes(b"", b""));
    assert!(same_bytes(b"abc", b"abc"));
    assert!(!same_bytes(b"abc", b"abd"));
    assert!(!same_bytes(b"abc", b"ab"));
    assert!(!same_bytes(b"ab", b"abc"));
    assert!(!same_bytes(b"", b"\0"));
    assert!(!same_bytes(b"xbc", b"abc"));
}

#[test]
fn reserved_names_the_two_keys() {
    assert!(reserved(b"poll"));
    assert!(reserved(b"tally"));
    assert!(!reserved(b""));
    assert!(!reserved(b"Poll"));
    assert!(!reserved(b"tall"));
    assert!(!reserved(b"tallyy"));
    assert!(!reserved(b"vote"));
}

#[test]
fn copies_are_equal() {
    assert_eq!(vec![1u8, 2, 3], copy_bytes(&[1, 2, 3]));
    assert_eq!(Vec::<u8>::new(), copy_bytes(&[]));
}

#[test]
fn new_tally_is_empty_and_open() {
    assert_eq!(
        Ok(Tally {
            yes: 0,
            no: 0,
            voters: vec![],
            init_timestamp: 100,
            end_timestamp: 150,
            early_results_allowed: false,
            is_completed: false,
        }),
        Tally::new(100, 50, false)
    );
    assert!(Tally::new(0, 0, true).unwrap().early_results_allowed);
    assert_eq!(Ok(u64::MAX), Tally::new(u64::MAX, 0, true).map(|t| t.end_timestamp));
    assert_eq!(Ok(u64::MAX), Tally::new(1, u64::MAX - 1, true).map(|t| t.end_timestamp));
    assert_eq!(Err(PollError::Overflow), Tally::new(1, u64::MAX, true));
    assert_eq!(Err(PollError::Overflow), Tally::new(u64::MAX, 1, true));
}

#[test]
fn window_closes_after_its_end() {
    let tally = fresh();
    assert!(!tally.over(0));
    assert!(!tally.over(149));
    assert!(!tally.over(150));
    assert!(tally.over(151));
    assert!(tally.over(u64::MAX));
}

#[test]
fn disclosure_needs_permission_or_completion() {
    let mut tally = fresh();
    assert!(!tally.disclosed());
    tally.is_completed = true;
    assert!(tally.disclosed());
    tally.is_completed = false;
    tally.early_results_allowed = true;
    assert!(tally.disclosed());
    tally.is_completed = true;
    assert!(tally.disclosed());
}

#[test]
fn count_adds_to_one_side() {
    let mut tally = fresh();
    assert_eq!(Ok(()), tally.count(true, 3));
    assert_eq!((3, 0), (tally.yes, tally.no));
    assert_eq!(Ok(()), tally.count(false, 4));
    assert_eq!((3, 4), (tally.yes, tally.no));
    assert_eq!(Ok(()), tally.count(true, u64::MAX - 3));
    assert_eq!((u64::MAX, 4), (tally.yes, tally.no));
    assert_eq!(Err(PollError::Overflow), tally.count(true, 1));
    assert_eq!((u64::MAX, 4), (tally.yes, tally.no));
    assert_eq!(Ok(()), tally.count(true, 0));
    assert_eq!(Err(PollError::Overflow), tally.count(false, u64::MAX - 3));
    assert_eq!((u64::MAX, 4), (tally.yes, tally.no));
    assert_eq!(fresh().voters, tally.voters);
}

#[test]
fn voters_join_at_the_end() {
    let mut tally = fresh();
    assert!(!tally.has_voter(b"a"));
    tally.join(b"a".to_vec());
    tally.join(b"b".to_vec());
    assert_eq!(vec![b"a".to_vec(), b"b".to_vec()], tally.voters);
    assert!(tally.has_voter(b"a"));
    assert!(tally.has_voter(b"b"));
    assert!(!tally.has_voter(b"ab"));
    assert!(!tally.has_voter(b""));
    assert_eq!((0, 0), (tally.yes, tally.no));
}

#[test]
fn message_makes_one_choice_or_none() {
    assert_eq!(Ok(Choice::Vote(true)), HandleMsg { vote: Some(true), delegate: None }.choice());
    assert_eq!(Ok(Choice::Vote(false)), HandleMsg { vote: Some(false), delegate: None }.choice());
    assert_eq!(
        Ok(Choice::Delegate(vec![1, 2])),
        HandleMsg { vote: None, delegate: Some(vec![1, 2]) }.choice()
    );
    assert_eq!(
        Err(PollError::InvalidRequest),
        HandleMsg { vote: None, delegate: None }.choice()
    );
    assert_eq!(
        Err(PollError::InvalidRequest),
        HandleMsg { vote: Some(false), delegate: Some(vec![1]) }.choice()
    );
    assert_eq!(
        Ok(Choice::Delegate(vec![])),
        HandleMsg { vote: None, delegate: Some(vec![]) }.choice()
    );
}

#[test]
fn choice_is_a_vote_or_a_delegate() {
    assert_eq!(Some(true), Choice::Vote(true).vote());
    assert_eq!(None, Choice::Vote(true).delegate());
    assert_eq!(None, Choice::Delegate(vec![9]).vote());
    assert_eq!(Some(vec![9u8]), Choice::Delegate(vec![9]).delegate());
}

#[test]
fn answers_say_what_happened() {
    assert_eq!(
        HandleAnswer::Ballot {
            status: ResponseStatus::Success,
            message: String::from("Ballot was cast successfully!"),
            vote: None,
            delegate: Some(vec![1, 2]),
        },
        HandleAnswer::cast(None, Some(vec![1, 2]))
    );
    let ballot = Ballot {
        has_voted: true,
        timestamp: 4,
        vote: Some(false),
        delegate: None,
        vote_value: 6,
    };
    assert_eq!(
        HandleAnswer::Ballot {
            status: ResponseStatus::Failure,
            message: String::from("Ballot was already cast!"),
            vote: Some(false),
            delegate: None,
        },
        HandleAnswer::already_cast(ballot.clone())
    );
    assert_eq!(
        HandleAnswer::Ballot {
            status: ResponseStatus::Failure,
            message: String::from("Tally is over. Previous ballot was however recorded."),
            vote: Some(false),
            delegate: None,
        },
        HandleAnswer::closed(Some(ballot))
    );
    assert_eq!(
        HandleAnswer::Ballot {
            status: ResponseStatus::Failure,
            message: String::from("Tally is over. Ballot was not taken into account."),
            vote: None,
            delegate: None,
        },
        HandleAnswer::closed(None)
    );
}

#[test]
fn plain_messages_hold_their_fields() {
    let msg = InitMsg { poll: String::from("?"), duration: 3, early_results_allowed: true };
    assert_eq!(msg.clone(), msg);
    assert_eq!(3, msg.duration);
    assert_ne!(QueryMsg::GetPoll {}, QueryMsg::GetTally {});
    assert_eq!(TallyResponse { count: -3 }, TallyResponse { count: -3 });
    assert_ne!(ResponseStatus::Success, ResponseStatus::Failure);
}
