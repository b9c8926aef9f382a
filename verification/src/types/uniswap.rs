//! Exchange-pool swap events: the typed form, its codec, and the
//! direction helpers that read a swap's signed amounts.

use vstd::prelude::*;
use crate::primitives::{Address, B256};
use crate::u256::{U256, I256};
use crate::bytes::{be_value, read_be_u256, read_be_u160, read_be_u128, read_be_u24};
use crate::types::log::{RawLogRecord, DecodeError};

verus! {

/// Signature hash of `Swap(address,address,int256,int256,uint160,uint128,int24)`.
pub open spec fn swap_signature() -> Seq<u8> {
    seq![0xc4u8, 0x20, 0x79, 0xf9, 0x4a, 0x63, 0x50, 0xd7, 0xe6, 0x23, 0x5f, 0x29, 0x17, 0x49,
        0x24, 0xf9, 0x28, 0xcc, 0x2a, 0xc8, 0x18, 0xeb, 0x64, 0xfe, 0xd8, 0x00, 0x4e, 0x11, 0x5f,
        0xbc, 0xca, 0x67]
}

/// The 32-byte signature hash of the pool swap event.
pub fn swap_signature_hash() -> (r: B256)
    ensures
        r@ == swap_signature(),
{
    let bytes: Vec<u8> = vec![0xc4u8, 0x20, 0x79, 0xf9, 0x4a, 0x63, 0x50, 0xd7, 0xe6, 0x23, 0x5f,
        0x29, 0x17, 0x49, 0x24, 0xf9, 0x28, 0xcc, 0x2a, 0xc8, 0x18, 0xeb, 0x64, 0xfe, 0xd8, 0x00,
        0x4e, 0x11, 0x5f, 0xbc, 0xca, 0x67];
    proof {
        assert(bytes@ =~= swap_signature());
    }
    B256::from_bytes(bytes).unwrap()
}

/// The signed 24-bit reading of a three-byte big-endian value.
pub open spec fn spec_i24(v: nat) -> int {
    if v < 0x80_0000 {
        v as int
    } else {
        v - 0x100_0000
    }
}

/// One swap in an exchange pool between its two assets.
#[derive(Debug, Clone)]
pub struct SwapEvent {
    /// The account that initiated the swap.
    pub sender: Address,
    /// The account that received the output.
    pub recipient: Address,
    /// Signed flow of the pool's first asset; positive into the pool.
    pub amount0: I256,
    /// Signed flow of the pool's second asset; positive into the pool.
    pub amount1: I256,
    /// The pool's square-root price after the swap, in 96-bit fixed point.
    pub sqrt_price_x96: U256,
    /// The pool's active liquidity after the swap.
    pub liquidity: u128,
    /// The pool's tick after the swap.
    pub tick: i32,
    /// The pool that emitted the swap.
    pub pool_address: Address,
    /// Block number, copied from the record.
    pub block_number: u64,
    /// Transaction hash, copied from the record.
    pub transaction_hash: B256,
    /// Transaction index, copied from the record.
    pub transaction_index: u64,
    /// Log index, copied from the record.
    pub log_index: u64,
}

impl SwapEvent {
    /// The base-asset flow of the swap.
    pub open spec fn spec_wmon_amount(&self, wmon_is_token0: bool) -> int {
        if wmon_is_token0 {
            self.amount0@
        } else {
            self.amount1@
        }
    }

    /// The token flow of the swap.
    pub open spec fn spec_token_amount(&self, wmon_is_token0: bool) -> int {
        if wmon_is_token0 {
            self.amount1@
        } else {
            self.amount0@
        }
    }

    /// Base-asset flow: positive for base asset received by the pool,
    /// negative for base asset paid out.
    pub fn wmon_amount(&self, wmon_is_token0: bool) -> (r: I256)
        ensures
            r@ == self.spec_wmon_amount(wmon_is_token0),
    {
        if wmon_is_token0 {
            self.amount0
        } else {
            self.amount1
        }
    }

    /// Token flow: positive for tokens received by the pool, negative
    /// for tokens paid out.
    pub fn token_amount(&self, wmon_is_token0: bool) -> (r: I256)
        ensures
            r@ == self.spec_token_amount(wmon_is_token0),
    {
        if wmon_is_token0 {
            self.amount1
        } else {
            self.amount0
        }
    }

    /// Absolute base-asset volume of the swap.
    pub fn abs_wmon_amount(&self, wmon_is_token0: bool) -> (r: U256)
        ensures
            r@ == if self.spec_wmon_amount(wmon_is_token0) >= 0 {
                self.spec_wmon_amount(wmon_is_token0)
            } else {
                -self.spec_wmon_amount(wmon_is_token0)
            },
    {
        self.wmon_amount(wmon_is_token0).abs()
    }

    /// Absolute token volume of the swap.
    pub fn abs_token_amount(&self, wmon_is_token0: bool) -> (r: U256)
        ensures
            r@ == if self.spec_token_amount(wmon_is_token0) >= 0 {
                self.spec_token_amount(wmon_is_token0)
            } else {
                -self.spec_token_amount(wmon_is_token0)
            },
    {
        self.token_amount(wmon_is_token0).abs()
    }

    /// A token buy: base asset flowed in, tokens flowed out.
    pub fn is_token_buy(&self, wmon_is_token0: bool) -> (r: bool)
        ensures
            r == (self.spec_wmon_amount(wmon_is_token0) < 0 && self.spec_token_amount(
                wmon_is_token0,
            ) > 0),
    {
        let wmon = self.wmon_amount(wmon_is_token0);
        let token = self.token_amount(wmon_is_token0);
        wmon.is_negative() && token.is_positive()
    }

    /// A token sell: tokens flowed in, base asset flowed out.
    pub fn is_token_sell(&self, wmon_is_token0: bool) -> (r: bool)
        ensures
            r == (self.spec_wmon_amount(wmon_is_token0) > 0 && self.spec_token_amount(
                wmon_is_token0,
            ) < 0),
    {
        let wmon = self.wmon_amount(wmon_is_token0);
        let token = self.token_amount(wmon_is_token0);
        wmon.is_positive() && token.is_negative()
    }

    /// The trade direction, by the signs of the two flows.
    pub fn trade_direction(&self, wmon_is_token0: bool) -> (r: &'static str)
        ensures
            (self.spec_wmon_amount(wmon_is_token0) < 0 && self.spec_token_amount(wmon_is_token0)
                > 0) ==> r@ == "BUY"@,
            (self.spec_wmon_amount(wmon_is_token0) > 0 && self.spec_token_amount(wmon_is_token0)
                < 0) ==> r@ == "SELL"@,
            !(self.spec_wmon_amount(wmon_is_token0) < 0 && self.spec_token_amount(wmon_is_token0)
                > 0) && !(self.spec_wmon_amount(wmon_is_token0) > 0 && self.spec_token_amount(
                wmon_is_token0,
            ) < 0) ==> r@ == "UNKNOWN"@,
    {
        if self.is_token_buy(wmon_is_token0) {
            "BUY"
        } else if self.is_token_sell(wmon_is_token0) {
            "SELL"
        } else {
            "UNKNOWN"
        }
    }
}

/// Whether a pool's first asset is the wrapped base asset, judged from
/// the pool's reported first token: the question every swap-direction
/// reading starts from.
pub fn wmon_is_token0(token0: &Address) -> (r: bool)
    ensures
        r == (token0@ == crate::constants::wmon_address_bytes()),
{
    let wmon = crate::constants::wmon_address();
    *token0 == wmon
}

/// Whether the record's first topic is the swap signature.
pub open spec fn spec_is_swap(log: &RawLogRecord) -> bool {
    log.topics@.len() > 0 && log.topics@[0]@ == swap_signature()
}

/// Whether the record has the swap event's exact topic count and a
/// payload long enough for its five fields.
pub open spec fn spec_swap_shape_ok(log: &RawLogRecord) -> bool {
    log.topics@.len() == 3 && log.data@.len() >= 160
}

/// Every field of a swap event, pinned to the record.
pub open spec fn spec_swap_matches(e: SwapEvent, log: &RawLogRecord) -> bool {
    &&& e.sender@ == log.topics@[1]@.subrange(12, 32)
    &&& e.recipient@ == log.topics@[2]@.subrange(12, 32)
    &&& e.amount0.raw@ == be_value(log.data@.subrange(0, 32))
    &&& e.amount1.raw@ == be_value(log.data@.subrange(32, 64))
    &&& e.sqrt_price_x96@ == be_value(log.data@.subrange(76, 96))
    &&& e.liquidity == be_value(log.data@.subrange(112, 128))
    &&& e.tick == spec_i24(be_value(log.data@.subrange(157, 160)))
    &&& e.pool_address@ == log.address@
    &&& e.block_number == log.spec_block_number()
    &&& e.transaction_hash@ == log.spec_transaction_hash()
    &&& e.transaction_index == log.spec_transaction_index()
    &&& e.log_index == log.spec_log_index()
}

/// Decode one raw log record into a typed swap event.
///
/// A record whose first topic is not the swap signature is
/// `UnknownSignature`; one with the wrong topic count or a payload too
/// short for the five swap fields is `MalformedPayload`.  On success
/// every field is the record's, the narrow fields (price, liquidity,
/// tick) read from the range their width occupies in the word, and the
/// position fields are copied verbatim (missing ones resolve to zero).
pub fn decode_swap_event(log: RawLogRecord) -> (r: Result<SwapEvent, DecodeError>)
    ensures
        r is Ok <==> (spec_is_swap(&log) && spec_swap_shape_ok(&log)),
        r == Err::<SwapEvent, DecodeError>(DecodeError::UnknownSignature) <==> !spec_is_swap(&log),
        r == Err::<SwapEvent, DecodeError>(DecodeError::MalformedPayload) <==> (spec_is_swap(&log)
            && !spec_swap_shape_ok(&log)),
        r matches Ok(e) ==> spec_is_swap(&log) && spec_swap_shape_ok(&log) && spec_swap_matches(
            e,
            &log,
        ),
{
    if log.topics.len() == 0 {
        return Err(DecodeError::UnknownSignature);
    }
    if !(log.topics[0] == swap_signature_hash()) {
        return Err(DecodeError::UnknownSignature);
    }
    if log.topics.len() != 3 {
        return Err(DecodeError::MalformedPayload);
    }
    if log.data.len() < 160 {
        return Err(DecodeError::MalformedPayload);
    }
    let tick_raw = read_be_u24(&log.data, 157);
    let tick: i32 = if tick_raw >= 0x80_0000 {
        (tick_raw as i64 - 0x100_0000i64) as i32
    } else {
        tick_raw as i32
    };
    Ok(
        SwapEvent {
            sender: Address::from_topic(&log.topics[1]),
            recipient: Address::from_topic(&log.topics[2]),
            amount0: I256::from_raw(read_be_u256(&log.data, 0)),
            amount1: I256::from_raw(read_be_u256(&log.data, 32)),
            sqrt_price_x96: read_be_u160(&log.data, 64),
            liquidity: read_be_u128(&log.data, 112),
            tick,
            pool_address: log.address.clone(),
            block_number: match log.block_number {
                Some(n) => n,
                None => 0,
            },
            transaction_hash: match &log.transaction_hash {
                Some(h) => h.clone(),
                None => B256::zero(),
            },
            transaction_index: match log.transaction_index {
                Some(n) => n,
                None => 0,
            },
            log_index: match log.log_index {
                Some(n) => n,
                None => 0,
            },
        },
    )
}

} // verus!
