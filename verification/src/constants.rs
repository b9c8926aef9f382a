//! The fixed contract addresses and fee tier of the ecosystem, as raw
//! 20-byte values, plus their conventional hexadecimal spellings.

use vstd::prelude::*;
use crate::primitives::Address;

verus! {

/// The pool factory contract, spelled in hexadecimal.
pub const UNISWAP_V3_FACTORY: &'static str = "0x961235a9020B05C44DF1026D956D1F4D78014276";

/// The wrapped base asset all tokens trade against, spelled in
/// hexadecimal.
pub const WMON: &'static str = "0x760AfE86e5de5fa0Ee542fc7B7B713e1c5425701";

/// The bonding-curve contract, spelled in hexadecimal.
pub const BONDING_CURVE: &'static str = "0x52D34d8536350Cd997bCBD0b9E9d722452f341F5";

/// The fee tier, in hundredths of a basis point, used for every pool of
/// the ecosystem.
pub const DEFAULT_FEE_TIER: u32 = 10000;

/// The pool factory's address bytes.
pub open spec fn factory_address_bytes() -> Seq<u8> {
    seq![0x96u8, 0x12, 0x35, 0xa9, 0x02, 0x0b, 0x05, 0xc4, 0x4d, 0xf1, 0x02, 0x6d, 0x95, 0x6d,
        0x1f, 0x4d, 0x78, 0x01, 0x42, 0x76]
}

/// The wrapped base asset's address bytes.
pub open spec fn wmon_address_bytes() -> Seq<u8> {
    seq![0x76u8, 0x0a, 0xfe, 0x86, 0xe5, 0xde, 0x5f, 0xa0, 0xee, 0x54, 0x2f, 0xc7, 0xb7, 0xb7,
        0x13, 0xe1, 0xc5, 0x42, 0x57, 0x01]
}

/// The bonding-curve contract's address bytes.
pub open spec fn bonding_curve_address_bytes() -> Seq<u8> {
    seq![0x52u8, 0xd3, 0x4d, 0x85, 0x36, 0x35, 0x0c, 0xd9, 0x97, 0xbc, 0xbd, 0x0b, 0x9e, 0x9d,
        0x72, 0x24, 0x52, 0xf3, 0x41, 0xf5]
}

/// The pool factory's address, as a value.
pub fn factory_address() -> (r: Address)
    ensures
        r@ == factory_address_bytes(),
{
    let bytes: Vec<u8> = vec![0x96u8, 0x12, 0x35, 0xa9, 0x02, 0x0b, 0x05, 0xc4, 0x4d, 0xf1, 0x02,
        0x6d, 0x95, 0x6d, 0x1f, 0x4d, 0x78, 0x01, 0x42, 0x76];
    proof {
        assert(bytes@ =~= factory_address_bytes());
    }
    Address::from_bytes(bytes).unwrap()
}

/// The wrapped base asset's address, as a value.
pub fn wmon_address() -> (r: Address)
    ensures
        r@ == wmon_address_bytes(),
{
    let bytes: Vec<u8> = vec![0x76u8, 0x0a, 0xfe, 0x86, 0xe5, 0xde, 0x5f, 0xa0, 0xee, 0x54, 0x2f,
        0xc7, 0xb7, 0xb7, 0x13, 0xe1, 0xc5, 0x42, 0x57, 0x01];
    proof {
        assert(bytes@ =~= wmon_address_bytes());
    }
    Address::from_bytes(bytes).unwrap()
}

/// The bonding-curve contract's address, as a value.
pub fn bonding_curve_contract_address() -> (r: Address)
    ensures
        r@ == bonding_curve_address_bytes(),
{
    let bytes: Vec<u8> = vec![0x52u8, 0xd3, 0x4d, 0x85, 0x36, 0x35, 0x0c, 0xd9, 0x97, 0xbc, 0xbd,
        0x0b, 0x9e, 0x9d, 0x72, 0x24, 0x52, 0xf3, 0x41, 0xf5];
    proof {
        assert(bytes@ =~= bonding_curve_address_bytes());
    }
    Address::from_bytes(bytes).unwrap()
}

} // verus!
