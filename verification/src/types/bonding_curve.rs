//! Bonding-curve events: the recognized kinds, their typed forms, and
//! the codec that turns a raw log record into one of them.

use vstd::prelude::*;
use vstd::utf8::{valid_utf8, decode_utf8};
use crate::primitives::{Address, B256};
use crate::u256::U256;
use crate::bytes::{
    be_value, read_be_u256, read_word_as_u64, copy_range, string_from_utf8,
};
use crate::types::log::{RawLogRecord, DecodeError};

verus! {

/// The event kinds a bonding-curve contract emits.
#[derive(Debug, Clone, PartialEq, Eq, Hash, Structural)]
pub enum EventType {
    /// A new token was created on the curve.
    Create,
    /// Someone bought tokens with the base asset.
    Buy,
    /// Someone sold tokens for the base asset.
    Sell,
    /// The curve's reserves were updated.
    Sync,
    /// Trading in the token was locked.
    Lock,
    /// The token graduated to an exchange pool.
    Listed,
}

/// Signature hash of `CurveCreate(address,address,address,string,string,string,uint256,uint256,uint256)`.
pub open spec fn curve_create_signature() -> Seq<u8> {
    seq![0xd3u8, 0x7e, 0x3f, 0x4f, 0x65, 0x1f, 0xe7, 0x42, 0x51, 0x70, 0x16, 0x14, 0xdb, 0xea,
        0xc4, 0x78, 0xf5, 0xa0, 0xd2, 0x90, 0x68, 0xe8, 0x7b, 0xbe, 0x44, 0xe5, 0x02, 0x6d, 0x16,
        0x6a, 0xbc, 0xa9]
}

/// Signature hash of `CurveBuy(address,address,uint256,uint256)`.
pub open spec fn curve_buy_signature() -> Seq<u8> {
    seq![0x00u8, 0xa7, 0xba, 0x87, 0x19, 0x05, 0xcb, 0x95, 0x54, 0x32, 0x58, 0x36, 0x40, 0xb5,
        0xc9, 0xfc, 0x6b, 0xdd, 0x27, 0xd3, 0x68, 0x84, 0xab, 0x2b, 0x54, 0x20, 0x83, 0x92, 0x24,
        0x63, 0x88, 0x62]
}

/// Signature hash of `CurveSell(address,address,uint256,uint256)`.
pub open spec fn curve_sell_signature() -> Seq<u8> {
    seq![0x0eu8, 0xb2, 0x5d, 0xf0, 0xe2, 0x13, 0x7d, 0xe8, 0xce, 0x04, 0x2e, 0xea, 0xf3, 0x90,
        0x80, 0xd2, 0x5f, 0x0c, 0x8d, 0x45, 0x13, 0x72, 0xc9, 0x9d, 0xb6, 0x9a, 0x4c, 0x0a, 0x29,
        0x8d, 0x0f, 0xa1]
}

/// Signature hash of `CurveSync(address,uint256,uint256,uint256,uint256)`.
pub open spec fn curve_sync_signature() -> Seq<u8> {
    seq![0xfdu8, 0x4b, 0xb4, 0x7b, 0xd4, 0x5a, 0xbd, 0xbd, 0xb2, 0xec, 0xd6, 0x10, 0x52, 0xc9,
        0x57, 0x17, 0x73, 0xf9, 0xcd, 0xe8, 0x76, 0xe2, 0xa7, 0x74, 0x5f, 0x48, 0x8c, 0x20, 0xb3,
        0x0a, 0xb1, 0x0a]
}

/// Signature hash of `CurveTokenLocked(address)`.
pub open spec fn curve_lock_signature() -> Seq<u8> {
    seq![0xa9u8, 0xaa, 0xee, 0x0c, 0x81, 0x57, 0x5b, 0xef, 0x30, 0x7b, 0x11, 0x09, 0x9a, 0xf1,
        0xa5, 0x55, 0xba, 0x16, 0x58, 0x8e, 0x3b, 0x35, 0xcf, 0x93, 0x0e, 0xe8, 0xc0, 0x8f, 0x97,
        0x9b, 0x1a, 0x4a]
}

/// Signature hash of `CurveTokenListed(address,address)`.
pub open spec fn curve_listed_signature() -> Seq<u8> {
    seq![0xaau8, 0x09, 0x04, 0x37, 0xef, 0x52, 0x4c, 0xee, 0x1d, 0x4e, 0x08, 0x25, 0xc0, 0xca,
        0xff, 0x22, 0x03, 0xaf, 0x3b, 0x38, 0xab, 0x39, 0x62, 0x4d, 0x8f, 0xf7, 0xfa, 0xb6, 0x7e,
        0x21, 0x97, 0x04]
}

/// The signature hash belonging to an event kind.
pub open spec fn spec_signature(t: EventType) -> Seq<u8> {
    match t {
        EventType::Create => curve_create_signature(),
        EventType::Buy => curve_buy_signature(),
        EventType::Sell => curve_sell_signature(),
        EventType::Sync => curve_sync_signature(),
        EventType::Lock => curve_lock_signature(),
        EventType::Listed => curve_listed_signature(),
    }
}

impl EventType {
    /// The 32-byte signature hash for this event kind.
    pub fn signature(&self) -> (r: B256)
        ensures
            r@ == spec_signature(*self),
    {
        let bytes: Vec<u8> = match self {
            EventType::Create => vec![0xd3u8, 0x7e, 0x3f, 0x4f, 0x65, 0x1f, 0xe7, 0x42, 0x51,
                0x70, 0x16, 0x14, 0xdb, 0xea, 0xc4, 0x78, 0xf5, 0xa0, 0xd2, 0x90, 0x68, 0xe8,
                0x7b, 0xbe, 0x44, 0xe5, 0x02, 0x6d, 0x16, 0x6a, 0xbc, 0xa9],
            EventType::Buy => vec![0x00u8, 0xa7, 0xba, 0x87, 0x19, 0x05, 0xcb, 0x95, 0x54, 0x32,
                0x58, 0x36, 0x40, 0xb5, 0xc9, 0xfc, 0x6b, 0xdd, 0x27, 0xd3, 0x68, 0x84, 0xab,
                0x2b, 0x54, 0x20, 0x83, 0x92, 0x24, 0x63, 0x88, 0x62],
            EventType::Sell => vec![0x0eu8, 0xb2, 0x5d, 0xf0, 0xe2, 0x13, 0x7d, 0xe8, 0xce, 0x04,
                0x2e, 0xea, 0xf3, 0x90, 0x80, 0xd2, 0x5f, 0x0c, 0x8d, 0x45, 0x13, 0x72, 0xc9,
                0x9d, 0xb6, 0x9a, 0x4c, 0x0a, 0x29, 0x8d, 0x0f, 0xa1],
            EventType::Sync => vec![0xfdu8, 0x4b, 0xb4, 0x7b, 0xd4, 0x5a, 0xbd, 0xbd, 0xb2, 0xec,
                0xd6, 0x10, 0x52, 0xc9, 0x57, 0x17, 0x73, 0xf9, 0xcd, 0xe8, 0x76, 0xe2, 0xa7,
                0x74, 0x5f, 0x48, 0x8c, 0x20, 0xb3, 0x0a, 0xb1, 0x0a],
            EventType::Lock => vec![0xa9u8, 0xaa, 0xee, 0x0c, 0x81, 0x57, 0x5b, 0xef, 0x30, 0x7b,
                0x11, 0x09, 0x9a, 0xf1, 0xa5, 0x55, 0xba, 0x16, 0x58, 0x8e, 0x3b, 0x35, 0xcf,
                0x93, 0x0e, 0xe8, 0xc0, 0x8f, 0x97, 0x9b, 0x1a, 0x4a],
            EventType::Listed => vec![0xaau8, 0x09, 0x04, 0x37, 0xef, 0x52, 0x4c, 0xee, 0x1d,
                0x4e, 0x08, 0x25, 0xc0, 0xca, 0xff, 0x22, 0x03, 0xaf, 0x3b, 0x38, 0xab, 0x39,
                0x62, 0x4d, 0x8f, 0xf7, 0xfa, 0xb6, 0x7e, 0x21, 0x97, 0x04],
        };
        proof {
            assert(bytes@ =~= spec_signature(*self));
        }
        B256::from_bytes(bytes).unwrap()
    }
}

/// A new token was created on the curve.
#[derive(Debug, Clone)]
pub struct CreateEvent {
    /// The account that created the token.
    pub creator: Address,
    /// The new token's contract.
    pub token: Address,
    /// The pool reserved for the token's eventual listing.
    pub pool: Address,
    /// The token's name.
    pub name: String,
    /// The token's ticker symbol.
    pub symbol: String,
    /// The token's metadata locator.
    pub token_uri: String,
    /// Initial virtual base-asset reserve.
    pub virtual_mon: U256,
    /// Initial virtual token reserve.
    pub virtual_token: U256,
    /// The supply target at which the token graduates.
    pub target_token_amount: U256,
    /// Block number, copied from the record.
    pub block_number: u64,
    /// Transaction hash, copied from the record.
    pub transaction_hash: B256,
    /// Transaction index, copied from the record.
    pub transaction_index: u64,
    /// Log index, copied from the record.
    pub log_index: u64,
}

/// Someone bought tokens with the base asset.
#[derive(Debug, Clone)]
pub struct BuyEvent {
    /// The buying account.
    pub sender: Address,
    /// The token bought.
    pub token: Address,
    /// Base asset paid in.
    pub amount_in: U256,
    /// Tokens received.
    pub amount_out: U256,
    /// Block number, copied from the record.
    pub block_number: u64,
    /// Transaction hash, copied from the record.
    pub transaction_hash: B256,
    /// Transaction index, copied from the record.
    pub transaction_index: u64,
    /// Log index, copied from the record.
    pub log_index: u64,
}

/// Someone sold tokens for the base asset.
#[derive(Debug, Clone)]
pub struct SellEvent {
    /// The selling account.
    pub sender: Address,
    /// The token sold.
    pub token: Address,
    /// Tokens paid in.
    pub amount_in: U256,
    /// Base asset received.
    pub amount_out: U256,
    /// Block number, copied from the record.
    pub block_number: u64,
    /// Transaction hash, copied from the record.
    pub transaction_hash: B256,
    /// Transaction index, copied from the record.
    pub transaction_index: u64,
    /// Log index, copied from the record.
    pub log_index: u64,
}

/// The curve's reserves were updated.
#[derive(Debug, Clone)]
pub struct SyncEvent {
    /// The token whose curve was updated.
    pub token: Address,
    /// Real base-asset reserve.
    pub real_mon_reserve: U256,
    /// Real token reserve.
    pub real_token_reserve: U256,
    /// Virtual base-asset reserve.
    pub virtual_mon_reserve: U256,
    /// Virtual token reserve.
    pub virtual_token_reserve: U256,
    /// Block number, copied from the record.
    pub block_number: u64,
    /// Transaction hash, copied from the record.
    pub transaction_hash: B256,
    /// Transaction index, copied from the record.
    pub transaction_index: u64,
    /// Log index, copied from the record.
    pub log_index: u64,
}

/// Trading in the token was locked.
#[derive(Debug, Clone)]
pub struct LockEvent {
    /// The locked token.
    pub token: Address,
    /// Block number, copied from the record.
    pub block_number: u64,
    /// Transaction hash, copied from the record.
    pub transaction_hash: B256,
    /// Transaction index, copied from the record.
    pub transaction_index: u64,
    /// Log index, copied from the record.
    pub log_index: u64,
}

/// The token graduated to an exchange pool.
#[derive(Debug, Clone)]
pub struct ListedEvent {
    /// The listed token.
    pub token: Address,
    /// The pool it now trades in.
    pub pool: Address,
    /// Block number, copied from the record.
    pub block_number: u64,
    /// Transaction hash, copied from the record.
    pub transaction_hash: B256,
    /// Transaction index, copied from the record.
    pub transaction_index: u64,
    /// Log index, copied from the record.
    pub log_index: u64,
}

/// One decoded bonding-curve event of any kind.
#[derive(Debug, Clone)]
pub enum BondingCurveEvent {
    /// A creation event.
    Create(CreateEvent),
    /// A buy.
    Buy(BuyEvent),
    /// A sell.
    Sell(SellEvent),
    /// A reserve update.
    Sync(SyncEvent),
    /// A lock.
    Lock(LockEvent),
    /// A listing.
    Listed(ListedEvent),
}

impl BondingCurveEvent {
    /// The subject token's address bytes.
    pub open spec fn spec_token(&self) -> Seq<u8> {
        match self {
            BondingCurveEvent::Create(e) => e.token@,
            BondingCurveEvent::Buy(e) => e.token@,
            BondingCurveEvent::Sell(e) => e.token@,
            BondingCurveEvent::Sync(e) => e.token@,
            BondingCurveEvent::Lock(e) => e.token@,
            BondingCurveEvent::Listed(e) => e.token@,
        }
    }

    /// The kind of the event.
    pub open spec fn spec_event_type(&self) -> EventType {
        match self {
            BondingCurveEvent::Create(_) => EventType::Create,
            BondingCurveEvent::Buy(_) => EventType::Buy,
            BondingCurveEvent::Sell(_) => EventType::Sell,
            BondingCurveEvent::Sync(_) => EventType::Sync,
            BondingCurveEvent::Lock(_) => EventType::Lock,
            BondingCurveEvent::Listed(_) => EventType::Listed,
        }
    }

    /// The block-number sort key.
    pub open spec fn spec_block_number(&self) -> u64 {
        match self {
            BondingCurveEvent::Create(e) => e.block_number,
            BondingCurveEvent::Buy(e) => e.block_number,
            BondingCurveEvent::Sell(e) => e.block_number,
            BondingCurveEvent::Sync(e) => e.block_number,
            BondingCurveEvent::Lock(e) => e.block_number,
            BondingCurveEvent::Listed(e) => e.block_number,
        }
    }

    /// The transaction-index sort key.
    pub open spec fn spec_transaction_index(&self) -> u64 {
        match self {
            BondingCurveEvent::Create(e) => e.transaction_index,
            BondingCurveEvent::Buy(e) => e.transaction_index,
            BondingCurveEvent::Sell(e) => e.transaction_index,
            BondingCurveEvent::Sync(e) => e.transaction_index,
            BondingCurveEvent::Lock(e) => e.transaction_index,
            BondingCurveEvent::Listed(e) => e.transaction_index,
        }
    }

    /// The log-index sort key.
    pub open spec fn spec_log_index(&self) -> u64 {
        match self {
            BondingCurveEvent::Create(e) => e.log_index,
            BondingCurveEvent::Buy(e) => e.log_index,
            BondingCurveEvent::Sell(e) => e.log_index,
            BondingCurveEvent::Sync(e) => e.log_index,
            BondingCurveEvent::Lock(e) => e.log_index,
            BondingCurveEvent::Listed(e) => e.log_index,
        }
    }

    /// The subject token of the event, for filtering.
    pub fn token(&self) -> (r: Address)
        ensures
            r@ == self.spec_token(),
    {
        match self {
            BondingCurveEvent::Create(e) => e.token.clone(),
            BondingCurveEvent::Buy(e) => e.token.clone(),
            BondingCurveEvent::Sell(e) => e.token.clone(),
            BondingCurveEvent::Sync(e) => e.token.clone(),
            BondingCurveEvent::Lock(e) => e.token.clone(),
            BondingCurveEvent::Listed(e) => e.token.clone(),
        }
    }

    /// The kind of the event.
    pub fn event_type(&self) -> (r: EventType)
        ensures
            r == self.spec_event_type(),
    {
        match self {
            BondingCurveEvent::Create(_) => EventType::Create,
            BondingCurveEvent::Buy(_) => EventType::Buy,
            BondingCurveEvent::Sell(_) => EventType::Sell,
            BondingCurveEvent::Sync(_) => EventType::Sync,
            BondingCurveEvent::Lock(_) => EventType::Lock,
            BondingCurveEvent::Listed(_) => EventType::Listed,
        }
    }

    /// The block number the event was mined in.
    pub fn block_number(&self) -> (r: u64)
        ensures
            r == self.spec_block_number(),
    {
        match self {
            BondingCurveEvent::Create(e) => e.block_number,
            BondingCurveEvent::Buy(e) => e.block_number,
            BondingCurveEvent::Sell(e) => e.block_number,
            BondingCurveEvent::Sync(e) => e.block_number,
            BondingCurveEvent::Lock(e) => e.block_number,
            BondingCurveEvent::Listed(e) => e.block_number,
        }
    }

    /// The index of the emitting transaction within its block.
    pub fn transaction_index(&self) -> (r: u64)
        ensures
            r == self.spec_transaction_index(),
    {
        match self {
            BondingCurveEvent::Create(e) => e.transaction_index,
            BondingCurveEvent::Buy(e) => e.transaction_index,
            BondingCurveEvent::Sell(e) => e.transaction_index,
            BondingCurveEvent::Sync(e) => e.transaction_index,
            BondingCurveEvent::Lock(e) => e.transaction_index,
            BondingCurveEvent::Listed(e) => e.transaction_index,
        }
    }

    /// The index of the log within its block.
    pub fn log_index(&self) -> (r: u64)
        ensures
            r == self.spec_log_index(),
    {
        match self {
            BondingCurveEvent::Create(e) => e.log_index,
            BondingCurveEvent::Buy(e) => e.log_index,
            BondingCurveEvent::Sell(e) => e.log_index,
            BondingCurveEvent::Sync(e) => e.log_index,
            BondingCurveEvent::Lock(e) => e.log_index,
            BondingCurveEvent::Listed(e) => e.log_index,
        }
    }
}

/// Which recognized kind, if any, the record's first topic names.
pub open spec fn spec_curve_kind(log: &RawLogRecord) -> Option<EventType> {
    if log.topics@.len() == 0 {
        None
    } else {
        let t0 = log.topics@[0]@;
        if t0 == curve_create_signature() {
            Some(EventType::Create)
        } else if t0 == curve_buy_signature() {
            Some(EventType::Buy)
        } else if t0 == curve_sell_signature() {
            Some(EventType::Sell)
        } else if t0 == curve_sync_signature() {
            Some(EventType::Sync)
        } else if t0 == curve_lock_signature() {
            Some(EventType::Lock)
        } else if t0 == curve_listed_signature() {
            Some(EventType::Listed)
        } else {
            None
        }
    }
}

/// The dynamic tail element at byte offset `off`: its raw bytes, when
/// its length word and contents lie inside the payload.
pub open spec fn spec_bytes_at_offset(data: Seq<u8>, off: nat) -> Option<Seq<u8>> {
    if off + 32 <= data.len() {
        let n = be_value(data.subrange(off as int, off as int + 32));
        if off + 32 + n <= data.len() {
            Some(data.subrange(off as int + 32, off as int + 32 + n as int))
        } else {
            None
        }
    } else {
        None
    }
}

/// The string element whose offset word sits at head position `p`.
pub open spec fn spec_string_bytes(data: Seq<u8>, p: int) -> Option<Seq<u8>> {
    spec_bytes_at_offset(data, be_value(data.subrange(p, p + 32)))
}

/// Whether a creation payload has the expected shape: a six-word head
/// and three in-bounds, valid-UTF-8 string tails.
pub open spec fn spec_create_data_ok(data: Seq<u8>) -> bool {
    &&& data.len() >= 192
    &&& spec_string_bytes(data, 0) matches Some(nb) && valid_utf8(nb)
    &&& spec_string_bytes(data, 32) matches Some(sb) && valid_utf8(sb)
    &&& spec_string_bytes(data, 64) matches Some(ub) && valid_utf8(ub)
}

/// Whether the record has the exact topic count and payload shape the
/// given kind demands.
pub open spec fn spec_curve_shape_ok(kind: EventType, log: &RawLogRecord) -> bool {
    match kind {
        EventType::Create => log.topics@.len() == 4 && spec_create_data_ok(log.data@),
        EventType::Buy => log.topics@.len() == 3 && log.data@.len() >= 64,
        EventType::Sell => log.topics@.len() == 3 && log.data@.len() >= 64,
        EventType::Sync => log.topics@.len() == 2 && log.data@.len() >= 128,
        EventType::Lock => log.topics@.len() == 2,
        EventType::Listed => log.topics@.len() == 3,
    }
}

/// The position fields are copied verbatim, with the zero fallback for
/// fields the provider omitted.
pub open spec fn spec_positions_match(
    block_number: u64,
    transaction_hash: Seq<u8>,
    transaction_index: u64,
    log_index: u64,
    log: &RawLogRecord,
) -> bool {
    &&& block_number == log.spec_block_number()
    &&& transaction_hash == log.spec_transaction_hash()
    &&& transaction_index == log.spec_transaction_index()
    &&& log_index == log.spec_log_index()
}

/// Every field of a creation event, pinned to the record.
pub open spec fn spec_create_matches(e: CreateEvent, log: &RawLogRecord) -> bool {
    &&& e.creator@ == log.topics@[1]@.subrange(12, 32)
    &&& e.token@ == log.topics@[2]@.subrange(12, 32)
    &&& e.pool@ == log.topics@[3]@.subrange(12, 32)
    &&& spec_string_bytes(log.data@, 0) matches Some(nb) && e.name@ == decode_utf8(nb)
    &&& spec_string_bytes(log.data@, 32) matches Some(sb) && e.symbol@ == decode_utf8(sb)
    &&& spec_string_bytes(log.data@, 64) matches Some(ub) && e.token_uri@ == decode_utf8(ub)
    &&& e.virtual_mon@ == be_value(log.data@.subrange(96, 128))
    &&& e.virtual_token@ == be_value(log.data@.subrange(128, 160))
    &&& e.target_token_amount@ == be_value(log.data@.subrange(160, 192))
    &&& spec_positions_match(
        e.block_number,
        e.transaction_hash@,
        e.transaction_index,
        e.log_index,
        log,
    )
}

/// Every field of a buy event, pinned to the record.
pub open spec fn spec_buy_matches(e: BuyEvent, log: &RawLogRecord) -> bool {
    &&& e.sender@ == log.topics@[1]@.subrange(12, 32)
    &&& e.token@ == log.topics@[2]@.subrange(12, 32)
    &&& e.amount_in@ == be_value(log.data@.subrange(0, 32))
    &&& e.amount_out@ == be_value(log.data@.subrange(32, 64))
    &&& spec_positions_match(
        e.block_number,
        e.transaction_hash@,
        e.transaction_index,
        e.log_index,
        log,
    )
}

/// Every field of a sell event, pinned to the record.
pub open spec fn spec_sell_matches(e: SellEvent, log: &RawLogRecord) -> bool {
    &&& e.sender@ == log.topics@[1]@.subrange(12, 32)
    &&& e.token@ == log.topics@[2]@.subrange(12, 32)
    &&& e.amount_in@ == be_value(log.data@.subrange(0, 32))
    &&& e.amount_out@ == be_value(log.data@.subrange(32, 64))
    &&& spec_positions_match(
        e.block_number,
        e.transaction_hash@,
        e.transaction_index,
        e.log_index,
        log,
    )
}

/// Every field of a reserve-update event, pinned to the record.
pub open spec fn spec_sync_matches(e: SyncEvent, log: &RawLogRecord) -> bool {
    &&& e.token@ == log.topics@[1]@.subrange(12, 32)
    &&& e.real_mon_reserve@ == be_value(log.data@.subrange(0, 32))
    &&& e.real_token_reserve@ == be_value(log.data@.subrange(32, 64))
    &&& e.virtual_mon_reserve@ == be_value(log.data@.subrange(64, 96))
    &&& e.virtual_token_reserve@ == be_value(log.data@.subrange(96, 128))
    &&& spec_positions_match(
        e.block_number,
        e.transaction_hash@,
        e.transaction_index,
        e.log_index,
        log,
    )
}

/// Every field of a lock event, pinned to the record.
pub open spec fn spec_lock_matches(e: LockEvent, log: &RawLogRecord) -> bool {
    &&& e.token@ == log.topics@[1]@.subrange(12, 32)
    &&& spec_positions_match(
        e.block_number,
        e.transaction_hash@,
        e.transaction_index,
        e.log_index,
        log,
    )
}

/// Every field of a listing event, pinned to the record.
pub open spec fn spec_listed_matches(e: ListedEvent, log: &RawLogRecord) -> bool {
    &&& e.token@ == log.topics@[1]@.subrange(12, 32)
    &&& e.pool@ == log.topics@[2]@.subrange(12, 32)
    &&& spec_positions_match(
        e.block_number,
        e.transaction_hash@,
        e.transaction_index,
        e.log_index,
        log,
    )
}

/// The decoded event is of the kind its record's first topic names, and
/// each of its fields is the one the record carries.
pub open spec fn spec_curve_event_matches(ev: &BondingCurveEvent, log: &RawLogRecord) -> bool {
    match ev {
        BondingCurveEvent::Create(e) => spec_create_matches(*e, log),
        BondingCurveEvent::Buy(e) => spec_buy_matches(*e, log),
        BondingCurveEvent::Sell(e) => spec_sell_matches(*e, log),
        BondingCurveEvent::Sync(e) => spec_sync_matches(*e, log),
        BondingCurveEvent::Lock(e) => spec_lock_matches(*e, log),
        BondingCurveEvent::Listed(e) => spec_listed_matches(*e, log),
    }
}

/// The subject token's address bytes, read straight from the record's
/// topics: the token is the third topic for creations, buys and sells,
/// and the second for the rest.
pub open spec fn spec_log_token(kind: EventType, log: &RawLogRecord) -> Seq<u8> {
    match kind {
        EventType::Create => log.topics@[2]@.subrange(12, 32),
        EventType::Buy => log.topics@[2]@.subrange(12, 32),
        EventType::Sell => log.topics@[2]@.subrange(12, 32),
        EventType::Sync => log.topics@[1]@.subrange(12, 32),
        EventType::Lock => log.topics@[1]@.subrange(12, 32),
        EventType::Listed => log.topics@[1]@.subrange(12, 32),
    }
}

/// An event that matches its record carries the record's token.
pub proof fn lemma_matched_event_token(ev: &BondingCurveEvent, log: &RawLogRecord, k: EventType)
    requires
        spec_curve_event_matches(ev, log),
        ev.spec_event_type() == k,
    ensures
        ev.spec_token() == spec_log_token(k, log),
{
}

/// The block number, with the zero fallback for a missing field.
fn position_block(log: &RawLogRecord) -> (r: u64)
    ensures
        r == log.spec_block_number(),
{
    match log.block_number {
        Some(n) => n,
        None => 0,
    }
}

/// The transaction index, with the zero fallback.
fn position_transaction_index(log: &RawLogRecord) -> (r: u64)
    ensures
        r == log.spec_transaction_index(),
{
    match log.transaction_index {
        Some(n) => n,
        None => 0,
    }
}

/// The log index, with the zero fallback.
fn position_log_index(log: &RawLogRecord) -> (r: u64)
    ensures
        r == log.spec_log_index(),
{
    match log.log_index {
        Some(n) => n,
        None => 0,
    }
}

/// The transaction hash, with the all-zero fallback.
fn position_transaction_hash(log: &RawLogRecord) -> (r: B256)
    ensures
        r@ == log.spec_transaction_hash(),
{
    match &log.transaction_hash {
        Some(h) => h.clone(),
        None => B256::zero(),
    }
}

/// Read the string element whose offset word sits at head position `p`,
/// decoded as UTF-8.
fn read_string_field(data: &Vec<u8>, p: usize) -> (r: Option<String>)
    requires
        p + 32 <= data@.len(),
    ensures
        match r {
            Some(s) => spec_string_bytes(data@, p as int) matches Some(b) && valid_utf8(b) && s@
                == decode_utf8(b),
            None => !(spec_string_bytes(data@, p as int) matches Some(b) && valid_utf8(b)),
        },
{
    let len: usize = data.len();
    let len64: u64 = len as u64;
    let off64: u64 = match read_word_as_u64(data, p) {
        Some(v) => v,
        None => {
            // The offset word exceeds 64 bits, so it points past any
            // buffer this process can hold.
            return None;
        },
    };
    if off64 > len64 || len64 - off64 < 32 {
        return None;
    }
    let off: usize = off64 as usize;
    let slen64: u64 = match read_word_as_u64(data, off) {
        Some(v) => v,
        None => {
            return None;
        },
    };
    if (slen64 as u128) + (off64 as u128) + 32u128 > (len64 as u128) {
        return None;
    }
    let s_start: usize = off + 32;
    let s_end: usize = s_start + (slen64 as usize);
    let bytes = copy_range(data, s_start, s_end);
    string_from_utf8(bytes)
}

/// Decode a creation record.
fn decode_create(log: &RawLogRecord) -> (r: Result<BondingCurveEvent, DecodeError>)
    ensures
        r is Ok <==> spec_curve_shape_ok(EventType::Create, log),
        r matches Ok(ev) ==> ev is Create && spec_curve_event_matches(&ev, log),
        r matches Err(e) ==> e == DecodeError::MalformedPayload,
{
    if log.topics.len() != 4 {
        return Err(DecodeError::MalformedPayload);
    }
    if log.data.len() < 192 {
        return Err(DecodeError::MalformedPayload);
    }
    let name = match read_string_field(&log.data, 0) {
        Some(s) => s,
        None => {
            return Err(DecodeError::MalformedPayload);
        },
    };
    let symbol = match read_string_field(&log.data, 32) {
        Some(s) => s,
        None => {
            return Err(DecodeError::MalformedPayload);
        },
    };
    let token_uri = match read_string_field(&log.data, 64) {
        Some(s) => s,
        None => {
            return Err(DecodeError::MalformedPayload);
        },
    };
    Ok(
        BondingCurveEvent::Create(
            CreateEvent {
                creator: Address::from_topic(&log.topics[1]),
                token: Address::from_topic(&log.topics[2]),
                pool: Address::from_topic(&log.topics[3]),
                name,
                symbol,
                token_uri,
                virtual_mon: read_be_u256(&log.data, 96),
                virtual_token: read_be_u256(&log.data, 128),
                target_token_amount: read_be_u256(&log.data, 160),
                block_number: position_block(log),
                transaction_hash: position_transaction_hash(log),
                transaction_index: position_transaction_index(log),
                log_index: position_log_index(log),
            },
        ),
    )
}

/// Decode a buy record.
fn decode_buy(log: &RawLogRecord) -> (r: Result<BondingCurveEvent, DecodeError>)
    ensures
        r is Ok <==> spec_curve_shape_ok(EventType::Buy, log),
        r matches Ok(ev) ==> ev is Buy && spec_curve_event_matches(&ev, log),
        r matches Err(e) ==> e == DecodeError::MalformedPayload,
{
    if log.topics.len() != 3 {
        return Err(DecodeError::MalformedPayload);
    }
    if log.data.len() < 64 {
        return Err(DecodeError::MalformedPayload);
    }
    Ok(
        BondingCurveEvent::Buy(
            BuyEvent {
                sender: Address::from_topic(&log.topics[1]),
                token: Address::from_topic(&log.topics[2]),
                amount_in: read_be_u256(&log.data, 0),
                amount_out: read_be_u256(&log.data, 32),
                block_number: position_block(log),
                transaction_hash: position_transaction_hash(log),
                transaction_index: position_transaction_index(log),
                log_index: position_log_index(log),
            },
        ),
    )
}

/// Decode a sell record.
fn decode_sell(log: &RawLogRecord) -> (r: Result<BondingCurveEvent, DecodeError>)
    ensures
        r is Ok <==> spec_curve_shape_ok(EventType::Sell, log),
        r matches Ok(ev) ==> ev is Sell && spec_curve_event_matches(&ev, log),
        r matches Err(e) ==> e == DecodeError::MalformedPayload,
{
    if log.topics.len() != 3 {
        return Err(DecodeError::MalformedPayload);
    }
    if log.data.len() < 64 {
        return Err(DecodeError::MalformedPayload);
    }
    Ok(
        BondingCurveEvent::Sell(
            SellEvent {
                sender: Address::from_topic(&log.topics[1]),
                token: Address::from_topic(&log.topics[2]),
                amount_in: read_be_u256(&log.data, 0),
                amount_out: read_be_u256(&log.data, 32),
                block_number: position_block(log),
                transaction_hash: position_transaction_hash(log),
                transaction_index: position_transaction_index(log),
                log_index: position_log_index(log),
            },
        ),
    )
}

/// Decode a reserve-update record.
fn decode_sync(log: &RawLogRecord) -> (r: Result<BondingCurveEvent, DecodeError>)
    ensures
        r is Ok <==> spec_curve_shape_ok(EventType::Sync, log),
        r matches Ok(ev) ==> ev is Sync && spec_curve_event_matches(&ev, log),
        r matches Err(e) ==> e == DecodeError::MalformedPayload,
{
    if log.topics.len() != 2 {
        return Err(DecodeError::MalformedPayload);
    }
    if log.data.len() < 128 {
        return Err(DecodeError::MalformedPayload);
    }
    Ok(
        BondingCurveEvent::Sync(
            SyncEvent {
                token: Address::from_topic(&log.topics[1]),
                real_mon_reserve: read_be_u256(&log.data, 0),
                real_token_reserve: read_be_u256(&log.data, 32),
                virtual_mon_reserve: read_be_u256(&log.data, 64),
                virtual_token_reserve: read_be_u256(&log.data, 96),
                block_number: position_block(log),
                transaction_hash: position_transaction_hash(log),
                transaction_index: position_transaction_index(log),
                log_index: position_log_index(log),
            },
        ),
    )
}

/// Decode a lock record.
fn decode_lock(log: &RawLogRecord) -> (r: Result<BondingCurveEvent, DecodeError>)
    ensures
        r is Ok <==> spec_curve_shape_ok(EventType::Lock, log),
        r matches Ok(ev) ==> ev is Lock && spec_curve_event_matches(&ev, log),
        r matches Err(e) ==> e == DecodeError::MalformedPayload,
{
    if log.topics.len() != 2 {
        return Err(DecodeError::MalformedPayload);
    }
    Ok(
        BondingCurveEvent::Lock(
            LockEvent {
                token: Address::from_topic(&log.topics[1]),
                block_number: position_block(log),
                transaction_hash: position_transaction_hash(log),
                transaction_index: position_transaction_index(log),
                log_index: position_log_index(log),
            },
        ),
    )
}

/// Decode a listing record.
fn decode_listed(log: &RawLogRecord) -> (r: Result<BondingCurveEvent, DecodeError>)
    ensures
        r is Ok <==> spec_curve_shape_ok(EventType::Listed, log),
        r matches Ok(ev) ==> ev is Listed && spec_curve_event_matches(&ev, log),
        r matches Err(e) ==> e == DecodeError::MalformedPayload,
{
    if log.topics.len() != 3 {
        return Err(DecodeError::MalformedPayload);
    }
    Ok(
        BondingCurveEvent::Listed(
            ListedEvent {
                token: Address::from_topic(&log.topics[1]),
                pool: Address::from_topic(&log.topics[2]),
                block_number: position_block(log),
                transaction_hash: position_transaction_hash(log),
                transaction_index: position_transaction_index(log),
                log_index: position_log_index(log),
            },
        ),
    )
}

/// The six recognized signatures differ pairwise in their first byte.
proof fn lemma_signatures_distinct()
    ensures
        curve_create_signature()[0] == 0xd3,
        curve_buy_signature()[0] == 0x00,
        curve_sell_signature()[0] == 0x0e,
        curve_sync_signature()[0] == 0xfd,
        curve_lock_signature()[0] == 0xa9,
        curve_listed_signature()[0] == 0xaa,
{
}

/// Decode one raw log record into a typed bonding-curve event.
///
/// The first topic picks the kind; no match is `UnknownSignature`.  With
/// the kind fixed, a record whose topic count or payload does not fit
/// that kind's layout is `MalformedPayload`.  On success every event
/// field is the record's, and the position fields are copied verbatim
/// (missing ones resolve to zero).
pub fn decode_bonding_curve_event(log: RawLogRecord) -> (r: Result<
    BondingCurveEvent,
    DecodeError,
>)
    ensures
        r is Ok <==> (spec_curve_kind(&log) matches Some(k) && spec_curve_shape_ok(k, &log)),
        r == Err::<BondingCurveEvent, DecodeError>(DecodeError::UnknownSignature) <==> spec_curve_kind(
            &log,
        ) is None,
        (r == Err::<BondingCurveEvent, DecodeError>(DecodeError::MalformedPayload)) <==> (
        spec_curve_kind(&log) matches Some(k) && !spec_curve_shape_ok(k, &log)),
        r matches Ok(ev) ==> spec_curve_kind(&log) matches Some(k) && spec_curve_shape_ok(k, &log)
            && ev.spec_event_type() == k && spec_curve_event_matches(&ev, &log),
{
    proof {
        lemma_signatures_distinct();
    }
    if log.topics.len() == 0 {
        return Err(DecodeError::UnknownSignature);
    }
    let t0 = &log.topics[0];
    if *t0 == EventType::Create.signature() {
        decode_create(&log)
    } else if *t0 == EventType::Buy.signature() {
        decode_buy(&log)
    } else if *t0 == EventType::Sell.signature() {
        decode_sell(&log)
    } else if *t0 == EventType::Sync.signature() {
        decode_sync(&log)
    } else if *t0 == EventType::Lock.signature() {
        decode_lock(&log)
    } else if *t0 == EventType::Listed.signature() {
        decode_listed(&log)
    } else {
        Err(DecodeError::UnknownSignature)
    }
}

} // verus!
