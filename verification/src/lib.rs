//! A verified ballot-tallying engine for a single poll with liquid-democracy
//! delegation, running on a CosmWasm key-value store.
//!
//! A voter either votes yes or no, or hands the ballot's weight to another
//! voter, who may hand it on. The engine sees to it that nobody is counted
//! twice, that delegated weight reaches the voter at the end of the chain or
//! the count, that no ballot is taken after the window has closed, and that
//! the count is shown only when it may be.
//!
//! # Records
//!
//! The store holds the poll's text under [`keys::POLL_KEY`], the tally under
//! [`keys::TALLY_KEY`], and each voter's ballot under the voter's identifier,
//! a byte string. The two keys are reserved: they name no voter.
//!
//! # Operations
//!
//! [`contract::init`] opens the poll, [`contract::handle`] takes a ballot,
//! [`contract::query`] answers questions, and [`delegation::delegate_vote`]
//! resolves a delegation. Each is stated exactly over the entries of the
//! store, and none writes anything when it fails.
//!
//! # Delegation cycles
//!
//! A chain of delegations is followed for at most as many hops as there are
//! voters; [`chains::lemma_chain_fits`] shows that a chain that ends at all
//! ends within that many. A delegation whose weight would come back to the
//! voter who delegates it is refused as a `DelegationCycle`, so that no
//! circle is ever stored: see [`cycles`].
//!
//! # What is proved, and what is taken on trust
//!
//! [`history`] gathers what a poll keeps to through everything that is
//! submitted to it; [`laws`], [`sound`], [`weight`] and [`cycles`] hold the
//! single laws. Two things are claimed and not proved, in [`storage`] and in
//! [`codec`]: that `cosmwasm_std::MemoryStorage` is a map from keys to
//! values, and that `bincode2` reads back what it wrote.

pub mod chains;
pub mod codec;
pub mod contract;
pub mod cycles;
pub mod delegation;
pub mod error;
pub mod history;
pub mod keys;
pub mod laws;
pub mod ledger;
pub mod msg;
pub mod sound;
pub mod state;
pub mod storage;
pub mod weight;
