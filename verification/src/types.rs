//! The data model: raw records, typed events, and trade parameters.

pub mod bonding_curve;
pub mod log;
pub mod trade;
pub mod uniswap;

pub use bonding_curve::{
    BondingCurveEvent, BuyEvent, CreateEvent, EventType, ListedEvent, LockEvent, SellEvent,
    SyncEvent, decode_bonding_curve_event,
};
pub use log::{DecodeError, RawLogRecord};
pub use trade::{
    AllowanceStatus, BuyParams, CurveState, Router, SellParams, SellPermitParams, TokenInfo,
    TokenMetadata, TransactionResult, classify_router,
};
pub use uniswap::{SwapEvent, decode_swap_event, wmon_is_token0};
