//! Plain data types around trading: routing targets, order parameters,
//! curve state, token metadata, and transaction outcomes.

use vstd::prelude::*;
use crate::primitives::{Address, B256};
use crate::u256::U256;
use crate::types::log::RawLogRecord;

verus! {

/// Which venue a trade is routed through.
#[derive(Debug, Clone)]
pub enum Router {
    /// The exchange router, at its address.
    Dex(Address),
    /// The bonding-curve router, at its address.
    BondingCurve(Address),
}

impl Router {
    /// The routed contract's address, whichever venue it is.
    pub fn address(&self) -> (r: Address)
        ensures
            match self {
                Router::Dex(a) => r@ == a@,
                Router::BondingCurve(a) => r@ == a@,
            },
    {
        match self {
            Router::Dex(addr) => addr.clone(),
            Router::BondingCurve(addr) => addr.clone(),
        }
    }
}

/// Classify the router a quote named: the exchange router, the
/// bonding-curve router, or — for any other address — no venue at all,
/// which callers surface as an error.  The exchange router is checked
/// first, as the quoting contract's answer is routed in that order.
pub fn classify_router(
    router_address: &Address,
    dex_router: &Address,
    bonding_curve_router: &Address,
) -> (r: Option<Router>)
    ensures
        r is Some <==> (router_address@ == dex_router@ || router_address@
            == bonding_curve_router@),
        router_address@ == dex_router@ ==> (r matches Some(v) && v matches Router::Dex(a) && a@
            == router_address@),
        (router_address@ != dex_router@ && router_address@ == bonding_curve_router@) ==> (
        r matches Some(v) && v matches Router::BondingCurve(a) && a@ == router_address@),
{
    if router_address == dex_router {
        Some(Router::Dex(router_address.clone()))
    } else if router_address == bonding_curve_router {
        Some(Router::BondingCurve(router_address.clone()))
    } else {
        None
    }
}

/// Parameters of a buy order.
#[derive(Debug, Clone)]
pub struct BuyParams {
    /// The token to buy.
    pub token: Address,
    /// Base asset paid in.
    pub amount_in: U256,
    /// Least acceptable amount of tokens out.
    pub amount_out_min: U256,
    /// The recipient of the tokens.
    pub to: Address,
    /// Timestamp after which the order reverts.
    pub deadline: U256,
    /// Optional gas limit override.
    pub gas_limit: Option<u64>,
    /// Optional gas price override.
    pub gas_price: Option<u128>,
    /// Optional nonce override.
    pub nonce: Option<u64>,
}

/// Parameters of a sell order.
#[derive(Debug, Clone)]
pub struct SellParams {
    /// Tokens paid in.
    pub amount_in: U256,
    /// Least acceptable amount of base asset out.
    pub amount_out_min: U256,
    /// The token to sell.
    pub token: Address,
    /// The recipient of the base asset.
    pub to: Address,
    /// Timestamp after which the order reverts.
    pub deadline: U256,
    /// Optional gas limit override.
    pub gas_limit: Option<u64>,
    /// Optional gas price override.
    pub gas_price: Option<u128>,
    /// Optional nonce override.
    pub nonce: Option<u64>,
}

/// Parameters of a sell order authorized by an off-chain permit
/// signature instead of a prior approval.
#[derive(Debug, Clone)]
pub struct SellPermitParams {
    /// Tokens paid in.
    pub amount_in: U256,
    /// Least acceptable amount of base asset out.
    pub amount_out_min: U256,
    /// The allowance the permit grants.
    pub amount_allowance: U256,
    /// The token to sell.
    pub token: Address,
    /// The recipient of the base asset.
    pub to: Address,
    /// Timestamp after which the order reverts.
    pub deadline: U256,
    /// Recovery byte of the permit signature.
    pub v: u8,
    /// First half of the permit signature.
    pub r: B256,
    /// Second half of the permit signature.
    pub s: B256,
    /// Optional gas limit override.
    pub gas_limit: Option<u64>,
    /// Optional gas price override.
    pub gas_price: Option<u128>,
    /// Optional nonce override.
    pub nonce: Option<u64>,
}

/// A snapshot of one token's bonding-curve state.
#[derive(Debug, Clone)]
pub struct CurveState {
    /// Real base-asset reserve.
    pub real_mon_reserve: U256,
    /// Real token reserve.
    pub real_token_reserve: U256,
    /// Virtual base-asset reserve.
    pub virtual_mon_reserve: U256,
    /// Virtual token reserve.
    pub virtual_token_reserve: U256,
    /// The curve's constant product.
    pub k: U256,
    /// The supply target at which the token graduates.
    pub target_token_amount: U256,
    /// The virtual base-asset reserve at creation.
    pub init_virtual_mon_reserve: U256,
    /// The virtual token reserve at creation.
    pub init_virtual_token_reserve: U256,
}

/// A token's descriptive metadata.
#[derive(Debug, Clone)]
pub struct TokenMetadata {
    /// The token's contract.
    pub address: Address,
    /// The token's name.
    pub name: String,
    /// The token's ticker symbol.
    pub symbol: String,
    /// Decimal places of the token's unit.
    pub decimals: u8,
    /// Total minted supply.
    pub total_supply: U256,
}

/// A token's metadata together with one holder's view of it.
#[derive(Debug, Clone)]
pub struct TokenInfo {
    /// The token's descriptive metadata.
    pub metadata: TokenMetadata,
    /// The holder's balance.
    pub balance: U256,
    /// The holder's permit nonce.
    pub nonce: U256,
}

/// The standing of an allowance against a planned spend.
#[derive(Debug, Clone)]
pub struct AllowanceStatus {
    /// The approved amount.
    pub allowance: U256,
    /// The holder's balance.
    pub balance: U256,
    /// Whether the allowance covers the planned spend.
    pub is_sufficient: bool,
    /// Whether the allowance is effectively unlimited.
    pub is_unlimited: bool,
}

/// The outcome of a submitted transaction.
#[derive(Debug)]
pub struct TransactionResult {
    /// The transaction's hash.
    pub transaction_hash: B256,
    /// The block it was mined in, when known.
    pub block_number: Option<u64>,
    /// The gas it consumed, when known.
    pub gas_used: Option<U256>,
    /// Whether it succeeded.
    pub status: bool,
    /// The log records it emitted.
    pub logs: Vec<RawLogRecord>,
}

} // verus!
