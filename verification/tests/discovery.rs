use nadfun_sdk::{Address, CurveIndexer, PoolDiscovery, wmon_is_token0};
use nadfun_sdk::constants::{BONDING_CURVE, DEFAULT_FEE_TIER, UNISWAP_V3_FACTORY, WMON};

fn addr(byte: u8) -> Address {
    Address::from_bytes(vec![byte; 20]).unwrap()
}

fn address_of_hex(text: &str) -> Address {
    Address::from_hex(text).unwrap()
}

#[test]
fn test_get_pool_call_encodes_selector_and_arguments() {
    let discovery = PoolDiscovery::new();
    let token_a = addr(0x11);
    let token_b = addr(0x22);
    let call = discovery.get_pool_call(&token_a, &token_b, DEFAULT_FEE_TIER);

    assert_eq!(call.to, discovery.factory_address);
    assert_eq!(call.calldata.len(), 4 + 32 * 3);
    // keccak("getPool(address,address,uint24)") starts with 1698ee82.
    assert_eq!(
        &call.calldata[0..4],
        &alloy::primitives::keccak256(b"getPool(address,address,uint24)")[0..4]
    );
    assert_eq!(&call.calldata[4..16], &[0u8; 12]);
    assert_eq!(&call.calldata[16..36], token_a.as_bytes().as_slice());
    assert_eq!(&call.calldata[36..48], &[0u8; 12]);
    assert_eq!(&call.calldata[48..68], token_b.as_bytes().as_slice());
    assert_eq!(&call.calldata[68..97], &[0u8; 29]);
    // 10000 = 0x002710 as a big-endian 24-bit fee.
    assert_eq!(&call.calldata[97..100], &[0x00, 0x27, 0x10]);
}

#[test]
fn test_get_pool_for_token_pairs_with_wmon() {
    let discovery = PoolDiscovery::new();
    let token = addr(0x11);
    let call = discovery.get_pool_for_token_call(&token);
    let wmon = address_of_hex(WMON);
    assert_eq!(&call.calldata[48..68], wmon.as_bytes().as_slice());
}

#[test]
fn test_parse_pool_result_reads_address_word() {
    let discovery = PoolDiscovery::new();

    let mut ret = vec![0u8; 12];
    ret.extend_from_slice(addr(0x77).as_bytes());
    assert_eq!(discovery.parse_pool_result(&ret).unwrap(), Some(addr(0x77)));

    // The zero address encodes "no pool exists".
    let zero_word = vec![0u8; 32];
    assert_eq!(discovery.parse_pool_result(&zero_word).unwrap(), None);

    // Anything but one word is malformed.
    assert!(discovery.parse_pool_result(&vec![0u8; 31]).is_err());
}

#[test]
fn test_collect_pools_keeps_order_and_omits_gaps() {
    let discovery = PoolDiscovery::new();
    let collected = discovery.collect_pools(vec![
        Some(addr(0x01)),
        None,
        Some(addr(0x02)),
        None,
        Some(addr(0x03)),
    ]);
    assert_eq!(collected, vec![addr(0x01), addr(0x02), addr(0x03)]);

    let empty = discovery.collect_pools(vec![None, None]);
    assert_eq!(empty, Vec::<Address>::new());
}

#[test]
fn test_from_hex_matches_wire_parse() {
    let text = "0x961235a9020B05C44DF1026D956D1F4D78014276";
    let ours = Address::from_hex(text).unwrap();
    let theirs: alloy::primitives::Address = text.parse().unwrap();
    assert_eq!(ours.as_bytes().as_slice(), theirs.as_slice());
    // Lower case and a missing prefix both parse to the same address.
    assert_eq!(Address::from_hex("0x961235a9020b05c44df1026d956d1f4d78014276").unwrap(), ours);
    assert_eq!(Address::from_hex("961235a9020B05C44DF1026D956D1F4D78014276").unwrap(), ours);
}

#[test]
fn test_from_hex_rejects_bad_spellings() {
    assert!(Address::from_hex("0x12345").is_none());
    assert!(Address::from_hex("").is_none());
    assert!(Address::from_hex("0xZZ1235a9020B05C44DF1026D956D1F4D78014276").is_none());
    assert!(Address::from_hex("0x961235a9020B05C44DF1026D956D1F4D780142761").is_none());
}

#[test]
fn test_hex_constants_spell_the_contract_addresses() {
    let indexer = CurveIndexer::new();
    assert_eq!(Address::from_hex(BONDING_CURVE).unwrap(), indexer.bonding_curve_address());
    let discovery = PoolDiscovery::new();
    assert_eq!(Address::from_hex(UNISWAP_V3_FACTORY).unwrap(), discovery.factory_address);
    assert!(wmon_is_token0(&Address::from_hex(WMON).unwrap()));
}

#[test]
fn test_wmon_is_token0_compares_against_wmon() {
    let wmon = address_of_hex(WMON);
    assert!(wmon_is_token0(&wmon));
    assert!(!wmon_is_token0(&addr(0x05)));
}
