//! The ways in which an operation on the poll can fail.

use vstd::prelude::*;

verus! {

/// Why an operation was refused. No operation that returns an error has
/// written anything to storage.
#[derive(Clone, Copy, Debug, PartialEq, Eq, Structural)]
pub enum PollError {
    /// The submission does not carry exactly one of a vote and a delegate, or
    /// it names a reserved storage key as a voter.
    InvalidRequest,
    /// The tally was asked for before it may be disclosed.
    Unauthorized,
    /// The delegation would hand the weight back to the voter who delegates
    /// it, or the stored chain of delegations does not end.
    DelegationCycle,
    /// A weight or a timestamp does not fit in 64 bits.
    Overflow,
    /// A record that the state calls for is missing from storage, or cannot
    /// be decoded or encoded.
    Storage,
}

} // verus!
