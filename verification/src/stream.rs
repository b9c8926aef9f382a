//! Event streaming and indexing, one submodule per source: the
//! bonding-curve contract and the exchange pools.
//!
//! The engines here decide everything that does not touch the network:
//! which query a fetch or subscription needs (as a plain description the
//! caller hands to its transport), and what becomes of every raw record
//! a transport returns — decode, filter, order.

use vstd::prelude::*;
use crate::primitives::{Address, B256};

pub mod curve;
pub mod dex;

verus! {

/// A bounded log query, described in plain values: the caller's
/// transport issues it and feeds the records back.
#[derive(Debug)]
pub struct LogQuery {
    /// First block of the range, inclusive.
    pub from_block: u64,
    /// Last block of the range, inclusive.
    pub to_block: u64,
    /// The emitting contracts to ask for.
    pub addresses: Vec<Address>,
    /// The event-signature hashes to ask for.
    pub signatures: Vec<B256>,
}

/// An unbounded subscription, described in plain values.
#[derive(Debug)]
pub struct SubscriptionQuery {
    /// The emitting contracts to ask for.
    pub addresses: Vec<Address>,
    /// The event-signature hashes to ask for.
    pub signatures: Vec<B256>,
}

} // verus!
