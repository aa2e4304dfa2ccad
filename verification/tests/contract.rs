use cosmwasm_std::testing::{mock_dependencies, mock_env};
use cosmwasm_std::{coins, Api, Env, HumanAddr, ReadonlyStorage};
use liquid_vote::contract::{handle, init, query};
use liquid_vote::error::PollError;
use liquid_vote::msg::{HandleAnswer, HandleMsg, InitMsg, QueryAnswer, QueryMsg, ResponseStatus};
use liquid_vote::state::Tally;

pub const STANDARD_DURATION: u64 = 10000000;

fn sky(early_results_allowed: bool) -> InitMsg {
    InitMsg {
        poll: String::from("Is the sky blue?"),
        duration: STANDARD_DURATION,
        early_results_allowed,
    }
}

fn raw<A: Api>(api: &A, env: &Env) -> Vec<u8> {
    api.canonical_address(&env.message.sender).unwrap().as_slice().to_vec()
}

fn raw_name<A: Api>(api: &A, name: &str) -> Vec<u8> {
    api.canonical_address(&HumanAddr::from(name)).unwrap().as_slice().to_vec()
}

fn tally(answer: QueryAnswer) -> Tally {
    match answer {
        QueryAnswer::Tally(tally) => tally,
        QueryAnswer::Poll(_) => panic!("asked for the tally, got the text"),
    }
}

fn text(answer: QueryAnswer) -> String {
    match answer {
        QueryAnswer::Poll(text) => text,
        QueryAnswer::Tally(_) => panic!("asked for the text, got the tally"),
    }
}

#[test]
fn proper_initialization() {
    let mut deps = mock_dependencies(20, &[]); // canonical length, contract balance

    let msg = sky(true);
    let env = mock_env("creator", &coins(1000, "earth"));

    // we can just call .unwrap() to assert this was a success
    let res = init(&mut deps.storage, env.block.time, msg);
    assert_eq!(Ok(()), res);

    // it worked, let's query the state
    let res = query(&deps.storage, QueryMsg::GetTally {}).unwrap();
    let value: Tally = tally(res);

    assert_eq!(0, value.yes);
    assert_eq!(0, value.no);
}

#[test]
fn vote() {
    let mut deps = mock_dependencies(20, &coins(2, "token")); // amount, denom

    let msg = sky(true);
    let env = mock_env("creator", &coins(2, "token"));
    let _res = init(&mut deps.storage, env.block.time, msg).unwrap();

    // anyone can vote
    let env = mock_env("anyone", &coins(2, "token"));
    let msg = HandleMsg { vote: Some(true), delegate: None };
    let _res = handle(&mut deps.storage, &raw(&deps.api, &env), env.block.time, msg).unwrap();

    // should increase yes tally by 1
    let res = query(&deps.storage, QueryMsg::GetTally {}).unwrap();
    let value: Tally = tally(res);
    assert_eq!(1, value.yes);
    assert_eq!(0, value.no);

    // someone else can vote
    let env = mock_env("someone else", &coins(3, "token"));
    let msg = HandleMsg { vote: Some(false), delegate: None };
    let _res = handle(&mut deps.storage, &raw(&deps.api, &env), env.block.time, msg).unwrap();

    // should increase no tally by 1
    let res = query(&deps.storage, QueryMsg::GetTally {}).unwrap();
    let value: Tally = tally(res);
    assert_eq!(1, value.yes);
    assert_eq!(1, value.no);
}

#[test]
fn poll() {
    let mut deps = mock_dependencies(20, &coins(2, "token")); // amount, denom

    // same setup
    let msg = sky(true);
    let env = mock_env("creator", &coins(2, "token"));
    let _res = init(&mut deps.storage, env.block.time, msg).unwrap();

    // anyone can vote
    let env = mock_env("anyone", &coins(2, "token"));
    let msg = HandleMsg { vote: Some(true), delegate: None };
    let _res = handle(&mut deps.storage, &raw(&deps.api, &env), env.block.time, msg).unwrap();

    // lets figure out what the poll is
    let res = query(&deps.storage, QueryMsg::GetPoll {}).unwrap();
    let value: String = text(res);
    assert_eq!(value, String::from("Is the sky blue?"));
}

#[test]
fn vote_only_counts_once() {
    let mut deps = mock_dependencies(20, &coins(2, "token")); // amount, denom

    let msg = sky(true);
    let env = mock_env("creator", &coins(2, "token"));
    let _res = init(&mut deps.storage, env.block.time, msg).unwrap();

    // anyone can vote
    let env = mock_env("anyone", &coins(2, "token"));
    let msg = HandleMsg { vote: Some(true), delegate: None };
    let _res = handle(&mut deps.storage, &raw(&deps.api, &env), env.block.time, msg).unwrap();

    // can vote twice, but should only count once though
    let env = mock_env("anyone", &coins(2, "token"));
    let msg = HandleMsg { vote: Some(true), delegate: None };
    let _res = handle(&mut deps.storage, &raw(&deps.api, &env), env.block.time, msg);

    // should increase yes tally by 1 only
    let res = query(&deps.storage, QueryMsg::GetTally {}).unwrap();
    let value: Tally = tally(res);
    assert_eq!(1, value.yes);
    assert_eq!(0, value.no);
}

#[test]
fn cant_change_mind() {
    let mut deps = mock_dependencies(20, &coins(2, "token")); // amount, denom

    let msg = sky(true);
    let env = mock_env("creator", &coins(2, "token"));
    let _res = init(&mut deps.storage, env.block.time, msg).unwrap();

    // anyone can vote
    let env = mock_env("anyone", &coins(2, "token"));
    let msg = HandleMsg { vote: Some(true), delegate: None };
    let _res = handle(&mut deps.storage, &raw(&deps.api, &env), env.block.time, msg).unwrap();

    // cant change mind
    let env = mock_env("anyone", &coins(2, "token"));
    let msg = HandleMsg { vote: Some(false), delegate: None };
    let _res = handle(&mut deps.storage, &raw(&deps.api, &env), env.block.time, msg);

    // should increase true tally by 1 only
    let res = query(&deps.storage, QueryMsg::GetTally {}).unwrap();
    let value: Tally = tally(res);
    assert_eq!(1, value.yes);
    assert_eq!(0, value.no);
}

#[test]
fn no_more_voting_after_end() {
    let mut deps = mock_dependencies(20, &[]);
    let env = mock_env("creator", &[]);
    let opened = env.block.time;
    init(&mut deps.storage, opened, sky(true)).unwrap();

    let anyone = raw_name(&deps.api, "anyone");
    let late = opened + STANDARD_DURATION + 1;
    let msg = HandleMsg { vote: Some(true), delegate: None };
    let answer = handle(&mut deps.storage, &anyone, late, msg).unwrap();
    assert_eq!(
        answer,
        HandleAnswer::Ballot {
            status: ResponseStatus::Failure,
            message: String::from("Tally is over. Ballot was not taken into account."),
            vote: None,
            delegate: None,
        }
    );

    let value = tally(query(&deps.storage, QueryMsg::GetTally {}).unwrap());
    assert_eq!(0, value.yes);
    assert_eq!(0, value.no);
    assert!(value.is_completed);
    assert!(value.voters.is_empty());
}

#[test]
fn secret_tally_is_revealed_after_end() {
    let mut deps = mock_dependencies(20, &[]);
    let env = mock_env("creator", &[]);
    let opened = env.block.time;
    init(&mut deps.storage, opened, sky(false)).unwrap();

    let anyone = raw_name(&deps.api, "anyone");
    let msg = HandleMsg { vote: Some(false), delegate: None };
    handle(&mut deps.storage, &anyone, opened + 5, msg).unwrap();
    assert_eq!(Err(PollError::Unauthorized), query(&deps.storage, QueryMsg::GetTally {}));

    // the first submission after the window closes the poll
    let msg = HandleMsg { vote: Some(true), delegate: None };
    let late = opened + STANDARD_DURATION + 1;
    let answer = handle(&mut deps.storage, &anyone, late, msg).unwrap();
    assert_eq!(
        answer,
        HandleAnswer::Ballot {
            status: ResponseStatus::Failure,
            message: String::from("Tally is over. Previous ballot was however recorded."),
            vote: Some(false),
            delegate: None,
        }
    );

    let value = tally(query(&deps.storage, QueryMsg::GetTally {}).unwrap());
    assert_eq!(0, value.yes);
    assert_eq!(1, value.no);
    assert!(value.is_completed);
}

#[test]
fn simple_delegation() {
    let mut deps = mock_dependencies(20, &[]);
    let env = mock_env("creator", &[]);
    let now = env.block.time;
    init(&mut deps.storage, now, sky(true)).unwrap();

    let alice = raw_name(&deps.api, "alice");
    let bob = raw_name(&deps.api, "bob");
    let carol = raw_name(&deps.api, "carol");

    // alice hands her weight to bob, bob hands his and hers to carol
    let msg = HandleMsg { vote: None, delegate: Some(bob.clone()) };
    handle(&mut deps.storage, &alice, now, msg).unwrap();
    let msg = HandleMsg { vote: None, delegate: Some(carol.clone()) };
    handle(&mut deps.storage, &bob, now, msg).unwrap();
    let value = tally(query(&deps.storage, QueryMsg::GetTally {}).unwrap());
    assert_eq!((0, 0), (value.yes, value.no));

    // carol votes with three
    let msg = HandleMsg { vote: Some(false), delegate: None };
    handle(&mut deps.storage, &carol, now, msg).unwrap();
    let value = tally(query(&deps.storage, QueryMsg::GetTally {}).unwrap());
    assert_eq!((0, 3), (value.yes, value.no));
    assert_eq!(vec![bob, alice, carol], value.voters);
}

#[test]
fn delegation_to_already_voted() {
    let mut deps = mock_dependencies(20, &[]);
    let env = mock_env("creator", &[]);
    let now = env.block.time;
    init(&mut deps.storage, now, sky(true)).unwrap();

    let carol = raw_name(&deps.api, "carol");
    let dave = raw_name(&deps.api, "dave");

    let msg = HandleMsg { vote: Some(true), delegate: None };
    handle(&mut deps.storage, &carol, now, msg).unwrap();
    let before = deps.storage.get(&carol);

    let msg = HandleMsg { vote: None, delegate: Some(carol.clone()) };
    let answer = handle(&mut deps.storage, &dave, now, msg).unwrap();
    assert_eq!(
        answer,
        HandleAnswer::Ballot {
            status: ResponseStatus::Success,
            message: String::from("Ballot was cast successfully!"),
            vote: None,
            delegate: Some(carol.clone()),
        }
    );

    let value = tally(query(&deps.storage, QueryMsg::GetTally {}).unwrap());
    assert_eq!((2, 0), (value.yes, value.no));
    assert_eq!(before, deps.storage.get(&carol));
}

#[test]
fn delegation_to_new_addr() {
    let mut deps = mock_dependencies(20, &[]);
    let env = mock_env("creator", &[]);
    let now = env.block.time;
    init(&mut deps.storage, now, sky(true)).unwrap();

    let alice = raw_name(&deps.api, "alice");
    let bob = raw_name(&deps.api, "bob");

    let msg = HandleMsg { vote: None, delegate: Some(bob.clone()) };
    handle(&mut deps.storage, &alice, now, msg).unwrap();

    let value = tally(query(&deps.storage, QueryMsg::GetTally {}).unwrap());
    assert_eq!((0, 0), (value.yes, value.no));
    assert_eq!(vec![bob.clone(), alice], value.voters);

    let msg = HandleMsg { vote: Some(true), delegate: None };
    handle(&mut deps.storage, &bob, now + 1, msg).unwrap();
    let value = tally(query(&deps.storage, QueryMsg::GetTally {}).unwrap());
    assert_eq!((2, 0), (value.yes, value.no));
    assert_eq!(2, value.voters.len());
}

#[test]
fn bad_vote_throws_error() {
    let mut deps = mock_dependencies(20, &[]);
    let env = mock_env("creator", &[]);
    let now = env.block.time;
    init(&mut deps.storage, now, sky(true)).unwrap();

    let anyone = raw_name(&deps.api, "anyone");
    let other = raw_name(&deps.api, "other");

    let neither = HandleMsg { vote: None, delegate: None };
    assert_eq!(Err(PollError::InvalidRequest), handle(&mut deps.storage, &anyone, now, neither));
    let both = HandleMsg { vote: Some(true), delegate: Some(other) };
    assert_eq!(Err(PollError::InvalidRequest), handle(&mut deps.storage, &anyone, now, both));

    let value = tally(query(&deps.storage, QueryMsg::GetTally {}).unwrap());
    assert_eq!((0, 0), (value.yes, value.no));
    assert!(value.voters.is_empty());
}
