//! Typed access to the event log of a bonding-curve contract and its
//! associated exchange pools.
//!
//! The crate turns raw, unordered log records into typed domain events:
//! it classifies each record by its leading topic, decodes the payload
//! according to the fixed layout of that event kind, filters by token or
//! pool address, orders batches chronologically, and plans the bounded
//! block-range queries needed to cover a historical span without gaps.
//!
//! All of that logic is verified.  The surrounding transport — issuing the
//! planned queries and feeding the answers back — is left to the caller.

pub mod bytes;
pub mod constants;
pub mod contracts;
pub mod filter;
pub mod pagination;
pub mod primitives;
pub mod sequencer;
pub mod stream;
pub mod trading;
pub mod types;
pub mod u256;

pub use contracts::{CallSpec, PoolDiscovery};
pub use filter::AddressFilterSet;
pub use pagination::{BlockRange, plan_batches};
pub use primitives::{Address, B256};
pub use stream::{LogQuery, SubscriptionQuery};
pub use stream::curve::{CurveIndexer, CurveStream};
pub use stream::dex::{UniswapSwapIndexer, UniswapSwapStream};
pub use trading::SlippageUtils;
pub use types::{
    AllowanceStatus, BondingCurveEvent, BuyEvent, BuyParams, CreateEvent, CurveState, DecodeError,
    EventType, ListedEvent, LockEvent, RawLogRecord, Router, SellEvent, SellParams,
    SellPermitParams, SwapEvent, SyncEvent, TokenInfo, TokenMetadata, TransactionResult,
    classify_router, decode_bonding_curve_event, decode_swap_event, wmon_is_token0,
};
pub use u256::{I256, U256};
