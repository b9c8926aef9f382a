//! The raw log record handed in by the data source, and the ways
//! decoding it can fail.

use vstd::prelude::*;
use crate::primitives::{Address, B256};

verus! {

/// One raw log record: the emitting contract, the indexed topics (the
/// first is the event-signature discriminant), the opaque payload, and
/// the position fields.  Position fields a provider omitted are `None`;
/// the codec resolves them to zero.
#[derive(Debug)]
pub struct RawLogRecord {
    /// The contract that emitted the log.
    pub address: Address,
    /// The indexed topics, in order.
    pub topics: Vec<B256>,
    /// The non-indexed payload bytes.
    pub data: Vec<u8>,
    /// The number of the block holding the emitting transaction.
    pub block_number: Option<u64>,
    /// The hash of the emitting transaction.
    pub transaction_hash: Option<B256>,
    /// The index of the transaction within its block.
    pub transaction_index: Option<u64>,
    /// The index of the log within its block.
    pub log_index: Option<u64>,
}

impl RawLogRecord {
    /// The block number, with the permissive zero fallback.
    pub open spec fn spec_block_number(&self) -> u64 {
        match self.block_number {
            Some(n) => n,
            None => 0,
        }
    }

    /// The transaction index, with the permissive zero fallback.
    pub open spec fn spec_transaction_index(&self) -> u64 {
        match self.transaction_index {
            Some(n) => n,
            None => 0,
        }
    }

    /// The log index, with the permissive zero fallback.
    pub open spec fn spec_log_index(&self) -> u64 {
        match self.log_index {
            Some(n) => n,
            None => 0,
        }
    }

    /// The transaction hash, with the all-zero fallback.
    pub open spec fn spec_transaction_hash(&self) -> Seq<u8> {
        match self.transaction_hash {
            Some(h) => h@,
            None => Seq::<u8>::new(32, |i: int| 0u8),
        }
    }
}

/// Why a single record failed to decode.  Either way the record is
/// dropped and the batch or stream goes on; neither is a batch failure.
#[derive(Debug, Clone, PartialEq, Eq, Structural)]
pub enum DecodeError {
    /// The first topic matches no recognized event signature for the
    /// requested family, or there is no first topic at all.
    UnknownSignature,
    /// The signature matched but the payload does not have the shape the
    /// event's field layout demands.
    MalformedPayload,
}

} // verus!
