use cosmwasm_std::{MemoryStorage, ReadonlyStorage};
use liquid_vote::contract::{handle, init};
use liquid_vote::keys::TALLY_KEY;
use liquid_vote::ledger::{load_ballot, load_tally};
use liquid_vote::msg::{HandleMsg, InitMsg};
use liquid_vote::state::Ballot;

const DURATION: u64 = 1000;

fn open() -> MemoryStorage {
    let mut storage = MemoryStorage::new();
    let msg = InitMsg { poll: String::from("Tabs?"), duration: DURATION, early_results_allowed: true };
    init(&mut storage, 0, msg).unwrap();
    storage
}

fn ballots(storage: &MemoryStorage) -> Vec<Ballot> {
    let tally = load_tally(storage).unwrap();
    tally.voters.iter().map(|id| load_ballot(storage, id).unwrap()).collect()
}

/// counted weight, weight of the final ballots, held weight, final ballots
fn measures(storage: &MemoryStorage) -> (u64, u64, u64, u64) {
    let tally = load_tally(storage).unwrap();
    let all = ballots(storage);
    let final_weight = all.iter().filter(|b| b.has_voted).map(|b| b.vote_value).sum();
    let held = all.iter().filter(|b| !b.has_voted).map(|b| b.vote_value - 1).sum();
    let finals = all.iter().filter(|b| b.has_voted).count() as u64;
    (tally.yes + tally.no, final_weight, held, finals)
}

fn sound(storage: &MemoryStorage) -> bool {
    let tally = load_tally(storage).unwrap();
    let distinct = (0..tally.voters.len())
        .all(|i| (0..i).all(|j| tally.voters[i] != tally.voters[j]));
    let listed = |id: &Vec<u8>| tally.voters.contains(id);
    distinct
        && tally.voters.iter().all(|id| id != b"poll" && id != b"tally")
        && ballots(storage).iter().all(|b| {
            b.vote_value >= 1
                && (if b.has_voted {
                    b.vote.is_some() != b.delegate.is_some()
                } else {
                    b.vote.is_none() && b.delegate.is_none()
                })
                && b.delegate.as_ref().map_or(true, listed)
        })
}

fn submit(storage: &mut MemoryStorage, sender: &[u8], now: u64, vote: Option<bool>, to: Option<&[u8]>) {
    let msg = HandleMsg { vote, delegate: to.map(|id| id.to_vec()) };
    let _ = handle(storage, sender, now, msg);
}

#[test]
fn votes_alone_keep_the_count_at_the_final_weight() {
    let mut storage = open();
    assert_eq!((0, 0, 0, 0), measures(&storage));
    for (i, name) in [b"a", b"b", b"c", b"a", b"d", b"b"].iter().enumerate() {
        submit(&mut storage, *name, i as u64, Some(i % 2 == 0), None);
        let (counted, final_weight, held, finals) = measures(&storage);
        assert_eq!(counted, final_weight);
        assert_eq!(0, held);
        assert_eq!(counted, finals);
        assert!(sound(&storage));
    }
    assert_eq!((4, 4, 0, 4), measures(&storage));
}

#[test]
fn delegation_to_voted_keeps_the_count_at_the_final_weight() {
    let mut storage = open();
    submit(&mut storage, b"a", 1, Some(true), None);
    submit(&mut storage, b"b", 2, None, Some(b"a"));
    submit(&mut storage, b"c", 3, None, Some(b"b"));
    assert_eq!((3, 3, 0, 3), measures(&storage));
    assert!(sound(&storage));
}

#[test]
fn deferred_delegation_leaves_the_count_behind() {
    let mut storage = open();
    submit(&mut storage, b"a", 1, None, Some(b"b"));
    assert_eq!((0, 1, 1, 1), measures(&storage));
    submit(&mut storage, b"b", 2, Some(false), None);
    // b's final ballot weighs two, a's one, and two are counted
    assert_eq!((2, 3, 0, 2), measures(&storage));
    assert!(sound(&storage));
}

#[test]
fn weight_is_conserved_through_every_submission() {
    let mut storage = open();
    let steps: Vec<(&[u8], Option<bool>, Option<&[u8]>)> = vec![
        (b"a", None, Some(b"b")),
        (b"c", None, Some(b"b")),
        (b"d", Some(true), None),
        (b"b", None, Some(b"e")),
        (b"f", None, Some(b"a")),
        (b"e", None, Some(b"a")), // a cycle: refused
        (b"g", None, Some(b"g")), // a cycle: refused
        (b"h", None, Some(b"d")),
        (b"e", None, None),       // malformed
        (b"e", Some(false), None),
        (b"i", None, Some(b"c")),
        (b"a", Some(true), None), // final already
        (b"tally", Some(true), None),
        (b"j", None, Some(b"k")),
    ];
    let mut last = 0;
    for (i, (sender, vote, to)) in steps.into_iter().enumerate() {
        let before = load_tally(&storage).unwrap();
        submit(&mut storage, sender, i as u64, vote, to);
        let (counted, _, held, finals) = measures(&storage);
        assert_eq!(finals, counted + held);
        assert!(counted >= last);
        last = counted;
        assert!(sound(&storage));
        let after = load_tally(&storage).unwrap();
        assert_eq!(before.voters[..], after.voters[..before.voters.len()]);
        assert!(before.yes <= after.yes && before.no <= after.no);
    }
    // a, c, d, b, f, h, e, i and j have final ballots; k holds j's weight
    assert_eq!((8, 15, 1, 9), measures(&storage));
    let tally = load_tally(&storage).unwrap();
    assert_eq!((2, 6), (tally.yes, tally.no));
}

#[test]
fn final_ballots_stay_as_they_are() {
    let mut storage = open();
    submit(&mut storage, b"a", 1, Some(true), None);
    submit(&mut storage, b"b", 2, None, Some(b"c"));
    let a = storage.get(b"a");
    let b = storage.get(b"b");
    let steps: Vec<(&[u8], Option<bool>, Option<&[u8]>)> = vec![
        (b"a", Some(false), None),
        (b"a", None, Some(b"b")),
        (b"b", Some(true), None),
        (b"d", None, Some(b"a")),
        (b"e", None, Some(b"b")),
        (b"c", None, Some(b"a")),
        (b"a", Some(false), None),
        (b"b", None, Some(b"z")),
    ];
    for (i, (sender, vote, to)) in steps.into_iter().enumerate() {
        submit(&mut storage, sender, 10 + i as u64, vote, to);
        assert_eq!(a, storage.get(b"a"));
        assert_eq!(b, storage.get(b"b"));
    }
    assert_eq!(None, storage.get(b"z"));
    submit(&mut storage, b"a", DURATION + 1, Some(false), None);
    assert_eq!(a, storage.get(b"a"));
}

#[test]
fn after_the_window_only_completion_changes() {
    let mut storage = open();
    submit(&mut storage, b"a", 1, Some(true), None);
    submit(&mut storage, b"b", 2, None, Some(b"c"));
    let before = load_tally(&storage).unwrap();
    let records = (storage.get(b"a"), storage.get(b"b"), storage.get(b"c"));
    let steps: Vec<(&[u8], Option<bool>, Option<&[u8]>)> = vec![
        (b"c", Some(true), None),
        (b"d", Some(false), None),
        (b"e", None, Some(b"a")),
        (b"c", None, Some(b"a")),
        (b"a", Some(false), None),
    ];
    for (i, (sender, vote, to)) in steps.into_iter().enumerate() {
        submit(&mut storage, sender, DURATION + 1 + i as u64, vote, to);
        let mut after = load_tally(&storage).unwrap();
        assert!(after.is_completed);
        after.is_completed = false;
        assert_eq!(before, after);
        assert_eq!(records, (storage.get(b"a"), storage.get(b"b"), storage.get(b"c")));
        assert_eq!(None, storage.get(b"d"));
        assert_eq!(None, storage.get(b"e"));
    }
    assert!(storage.get(&TALLY_KEY).is_some());
}
