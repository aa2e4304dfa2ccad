//! Chains of delegations: where they end, and how far one has to be followed
//! to find the end.

use crate::delegation::{chain_end, HolderView};
use crate::error::PollError;
use crate::ledger::{ballot_in, Entries};
use vstd::prelude::*;
use vstd::seq_lib::seq_to_set_is_finite;
use vstd::set_lib::lemma_len_subset;

verus! {

/// The end of a chain is a voter without a record who is not listed, or a
/// listed voter whose record names no delegate; and following a chain fails
/// only on an unreadable record or on too many hops.
pub proof fn lemma_chain_end(m: Entries, voters: Seq<Seq<u8>>, id: Seq<u8>, hops: nat)
    ensures
        match chain_end(m, voters, id, hops) {
            Ok(holder) => match holder.ballot {
                None => !voters.contains(holder.id),
                Some(ballot) => voters.contains(holder.id) && ballot_in(m, holder.id) == Some(
                    ballot,
                ) && ballot.delegate is None,
            },
            Err(e) => e == PollError::Storage || e == PollError::DelegationCycle,
        },
    decreases hops,
{
    if voters.contains(id) {
        match ballot_in(m, id) {
            None => {},
            Some(ballot) => match ballot.delegate {
                None => {},
                Some(next) => {
                    if hops > 0 {
                        lemma_chain_end(m, voters, next, (hops - 1) as nat);
                    }
                },
            },
        }
    }
}

/// Chains depend on the records of the listed voters alone.
pub proof fn lemma_same_chain(m: Entries, m2: Entries, voters: Seq<Seq<u8>>, id: Seq<u8>, hops: nat)
    requires
        forall|id: Seq<u8>| #[trigger] voters.contains(id) ==> ballot_in(m2, id) == ballot_in(m, id),
    ensures
        chain_end(m2, voters, id, hops) == chain_end(m, voters, id, hops),
    decreases hops,
{
    if voters.contains(id) {
        match ballot_in(m, id) {
            None => {},
            Some(ballot) => match ballot.delegate {
                None => {},
                Some(next) => {
                    if hops > 0 {
                        lemma_same_chain(m, m2, voters, next, (hops - 1) as nat);
                    }
                },
            },
        }
    }
}

/// The voters from whom a delegation is followed on the chain that starts at
/// `id`, in order, where at most `hops` are followed.
pub open spec fn chain_path(m: Entries, voters: Seq<Seq<u8>>, id: Seq<u8>, hops: nat) -> Seq<
    Seq<u8>,
>
    decreases hops,
{
    if !voters.contains(id) {
        Seq::empty()
    } else {
        match ballot_in(m, id) {
            None => Seq::empty(),
            Some(ballot) => match ballot.delegate {
                None => Seq::empty(),
                Some(next) => if hops == 0 {
                    Seq::empty()
                } else {
                    seq![id] + chain_path(m, voters, next, (hops - 1) as nat)
                },
            },
        }
    }
}

/// Whether `hops` were enough to follow the chain that starts at `id` to its
/// end, be that a voter or a record that cannot be read.
pub open spec fn followed(m: Entries, voters: Seq<Seq<u8>>, id: Seq<u8>, hops: nat) -> bool {
    chain_end(m, voters, id, hops) != Err::<HolderView, PollError>(PollError::DelegationCycle)
}

/// A chain that was followed to its end is the same chain when more hops are
/// allowed.
pub proof fn lemma_more_hops(m: Entries, voters: Seq<Seq<u8>>, id: Seq<u8>, hops: nat, more: nat)
    requires
        followed(m, voters, id, hops),
        hops <= more,
    ensures
        chain_end(m, voters, id, more) == chain_end(m, voters, id, hops),
        chain_path(m, voters, id, more) == chain_path(m, voters, id, hops),
    decreases hops,
{
    if voters.contains(id) {
        match ballot_in(m, id) {
            None => {},
            Some(ballot) => match ballot.delegate {
                None => {},
                Some(next) => {
                    lemma_more_hops(m, voters, next, (hops - 1) as nat, (more - 1) as nat);
                },
            },
        }
    }
}

/// On a chain that was followed to its end, every voter from whom a hop is
/// made is listed, and the chain from that voter is the rest of the chain.
proof fn lemma_path(m: Entries, voters: Seq<Seq<u8>>, id: Seq<u8>, hops: nat)
    requires
        followed(m, voters, id, hops),
    ensures
        chain_path(m, voters, id, hops).len() <= hops,
        chain_end(m, voters, id, chain_path(m, voters, id, hops).len()) == chain_end(
            m,
            voters,
            id,
            hops,
        ),
        forall|i: int|
            0 <= i < chain_path(m, voters, id, hops).len() ==> {
                let on = #[trigger] chain_path(m, voters, id, hops)[i];
                &&& voters.contains(on)
                &&& followed(m, voters, on, (hops - i) as nat)
                &&& chain_path(m, voters, on, (hops - i) as nat).len() == chain_path(
                    m,
                    voters,
                    id,
                    hops,
                ).len() - i
            },
    decreases hops,
{
    let path = chain_path(m, voters, id, hops);
    if voters.contains(id) {
        match ballot_in(m, id) {
            None => {},
            Some(ballot) => match ballot.delegate {
                None => {},
                Some(next) => {
                    let rest = chain_path(m, voters, next, (hops - 1) as nat);
                    lemma_path(m, voters, next, (hops - 1) as nat);
                    assert(path == seq![id] + rest);
                    assert(path.len() == rest.len() + 1);
                    assert forall|i: int| 0 <= i < path.len() implies {
                        let on = #[trigger] path[i];
                        &&& voters.contains(on)
                        &&& followed(m, voters, on, (hops - i) as nat)
                        &&& chain_path(m, voters, on, (hops - i) as nat).len() == path.len() - i
                    } by {
                        if i > 0 {
                            assert(path[i] == rest[i - 1]);
                        }
                    }
                },
            },
        }
    }
}

/// On a chain that was followed to its end no voter comes twice.
proof fn lemma_path_is_simple(m: Entries, voters: Seq<Seq<u8>>, id: Seq<u8>, hops: nat)
    requires
        followed(m, voters, id, hops),
    ensures
        chain_path(m, voters, id, hops).no_duplicates(),
{
    let path = chain_path(m, voters, id, hops);
    lemma_path(m, voters, id, hops);
    assert forall|i: int, j: int| 0 <= i < path.len() && 0 <= j < path.len() && i != j implies path[i]
        != path[j] by {
        if path[i] == path[j] {
            let on = path[i];
            if i < j {
                lemma_more_hops(m, voters, on, (hops - j) as nat, (hops - i) as nat);
            } else {
                lemma_more_hops(m, voters, on, (hops - i) as nat, (hops - j) as nat);
            }
        }
    }
}

/// A chain that ends at all ends within as many hops as there are voters:
/// whatever following it further finds, following it that far finds. So
/// where that far no end is found, the chain has none.
pub proof fn lemma_chain_fits(m: Entries, voters: Seq<Seq<u8>>, id: Seq<u8>, hops: nat)
    requires
        followed(m, voters, id, hops),
    ensures
        chain_end(m, voters, id, voters.len()) == chain_end(m, voters, id, hops),
        chain_path(m, voters, id, hops).len() <= voters.len(),
{
    let path = chain_path(m, voters, id, hops);
    lemma_path(m, voters, id, hops);
    lemma_path_is_simple(m, voters, id, hops);
    path.unique_seq_to_set();
    voters.lemma_cardinality_of_set();
    seq_to_set_is_finite(voters);
    assert(path.to_set().subset_of(voters.to_set())) by {
        assert forall|on: Seq<u8>| path.to_set().contains(on) implies voters.to_set().contains(
            on,
        ) by {
            let i = choose|i: int| 0 <= i < path.len() && path[i] == on;
            assert(voters.contains(path[i]));
        }
    }
    lemma_len_subset(path.to_set(), voters.to_set());
    lemma_more_hops(m, voters, id, path.len(), voters.len());
}

} // verus!
