use nadfun_sdk::{
    Address, B256, BuyParams, CurveState, I256, Router, SellParams, SellPermitParams,
    SlippageUtils, TransactionResult, U256, classify_router,
};

fn address_of_hex(text: &str) -> Address {
    Address::from_hex(text).unwrap()
}

#[test]
fn test_calculate_amount_out_min() {
    let amount_out = U256::from(1000000000000000000u64); // 1 token

    // 1% slippage
    let min_out = SlippageUtils::calculate_amount_out_min(amount_out, 100);
    assert_eq!(min_out, U256::from(990000000000000000u64)); // 0.99 tokens

    // 5% slippage
    let min_out = SlippageUtils::calculate_amount_out_min(amount_out, 500);
    assert_eq!(min_out, U256::from(950000000000000000u64)); // 0.95 tokens

    // 0.5% slippage
    let min_out = SlippageUtils::calculate_amount_out_min(amount_out, 50);
    assert_eq!(min_out, U256::from(995000000000000000u64)); // 0.995 tokens

    // 30% slippage
    let min_out = SlippageUtils::calculate_amount_out_min(amount_out, 3000);
    assert_eq!(min_out, U256::from(700000000000000000u64)); // 0.7 tokens
}

#[test]
fn test_calculate_amount_in_max() {
    let amount_in = U256::from(1000000000000000000u64);

    // 1% slippage
    let max_in = SlippageUtils::calculate_amount_in_max(amount_in, 100);
    assert_eq!(max_in, U256::from(1010000000000000000u64));

    // 5% slippage
    let max_in = SlippageUtils::calculate_amount_in_max(amount_in, 500);
    assert_eq!(max_in, U256::from(1050000000000000000u64));

    // 0.5% slippage
    let max_in = SlippageUtils::calculate_amount_in_max(amount_in, 50);
    assert_eq!(max_in, U256::from(1005000000000000000u64));
}

#[test]
fn test_invalid_slippage_bounds() {
    let amount = U256::from(12345u64);
    // A full hundred percent or more is invalid.
    assert_eq!(SlippageUtils::calculate_amount_out_min(amount, 10000), U256::zero());
    let max = SlippageUtils::calculate_amount_in_max(amount, 10000);
    assert_eq!(
        max,
        U256::from_limbs(u64::MAX, u64::MAX, u64::MAX, u64::MAX)
    );
}

#[test]
fn test_buy_params_creation() {
    let token = address_of_hex("0x1234567890123456789012345678901234567890");
    let to = address_of_hex("0x9876543210987654321098765432109876543210");

    let params = BuyParams {
        token: token.clone(),
        amount_in: U256::from(1000000000000000000u64), // 1 unit of the base asset
        amount_out_min: U256::from(1000u64),
        to: to.clone(),
        deadline: U256::from(1000000000u64),
        gas_limit: Some(21000), // Standard gas for transfer
        gas_price: Some(20000000000), // 20 gwei
        nonce: Some(42),
    };

    assert_eq!(params.token, token);
    assert_eq!(params.amount_in, U256::from(1000000000000000000u64));
    assert_eq!(params.to, to);
    assert_eq!(params.gas_limit, Some(21000));
    assert_eq!(params.gas_price, Some(20000000000));
    assert_eq!(params.nonce, Some(42));
}

#[test]
fn test_sell_params_creation() {
    let token = address_of_hex("0x1234567890123456789012345678901234567890");
    let to = address_of_hex("0x9876543210987654321098765432109876543210");

    let params = SellParams {
        amount_in: U256::from(1000000000000000000u64),
        amount_out_min: U256::from(0u64),
        token: token.clone(),
        to: to.clone(),
        deadline: U256::from(1000000000u64),
        gas_limit: Some(25000), // Slightly higher gas for sell
        gas_price: Some(15000000000), // 15 gwei
        nonce: None,
    };

    assert_eq!(params.token, token);
    assert_eq!(params.amount_in, U256::from(1000000000000000000u64));
    assert_eq!(params.amount_out_min, U256::from(0u64));
    assert_eq!(params.gas_limit, Some(25000));
    assert_eq!(params.gas_price, Some(15000000000));
    assert_eq!(params.nonce, None);
}

#[test]
fn test_sell_permit_params_creation() {
    let token = address_of_hex("0x1234567890123456789012345678901234567890");
    let to = address_of_hex("0x9876543210987654321098765432109876543210");

    let params = SellPermitParams {
        amount_in: U256::from(1000000000000000000u64),
        amount_out_min: U256::from(0u64),
        amount_allowance: U256::from(1000000000000000000u64),
        token: token.clone(),
        to: to.clone(),
        deadline: U256::from(1000000000u64),
        v: 27,
        r: B256::zero(),
        s: B256::zero(),
        gas_limit: Some(30000), // Test gas amount
        gas_price: Some(25000000000), // 25 gwei
        nonce: Some(100),
    };

    assert_eq!(params.token, token);
    assert_eq!(params.v, 27);
    assert_eq!(params.r, B256::zero());
    assert_eq!(params.gas_limit, Some(30000));
    assert_eq!(params.gas_price, Some(25000000000));
    assert_eq!(params.nonce, Some(100));
}

#[test]
fn test_curve_state_creation() {
    let curve_state = CurveState {
        real_mon_reserve: U256::from(1000000u64),
        real_token_reserve: U256::from(2000000u64),
        virtual_mon_reserve: U256::from(3000000u64),
        virtual_token_reserve: U256::from(4000000u64),
        k: U256::from(5000000u64),
        target_token_amount: U256::from(6000000u64),
        init_virtual_mon_reserve: U256::from(7000000u64),
        init_virtual_token_reserve: U256::from(8000000u64),
    };

    assert_eq!(curve_state.real_mon_reserve, U256::from(1000000u64));
    assert_eq!(curve_state.k, U256::from(5000000u64));
}

#[test]
fn test_transaction_result_creation() {
    let tx_result = TransactionResult {
        transaction_hash: B256::zero(),
        block_number: Some(12345),
        gas_used: Some(U256::from(21000u64)),
        status: true,
        logs: vec![],
    };

    assert_eq!(tx_result.block_number, Some(12345));
    assert_eq!(tx_result.status, true);
    assert_eq!(tx_result.gas_used, Some(U256::from(21000u64)));
}

#[test]
fn test_classify_router_picks_the_known_venues() {
    let dex = address_of_hex("0x1234567890123456789012345678901234567890");
    let curve = address_of_hex("0x9876543210987654321098765432109876543210");
    let other = address_of_hex("0x1111111111111111111111111111111111111111");

    match classify_router(&dex, &dex, &curve) {
        Some(Router::Dex(a)) => assert_eq!(a, dex),
        other => panic!("expected the exchange router, got {:?}", other),
    }
    match classify_router(&curve, &dex, &curve) {
        Some(Router::BondingCurve(a)) => assert_eq!(a, curve),
        other => panic!("expected the curve router, got {:?}", other),
    }
    assert!(classify_router(&other, &dex, &curve).is_none());
}

#[test]
fn test_slippage_wraps_like_256_bit_arithmetic() {
    // A huge amount whose scaling overflows 256 bits: the library wraps
    // exactly as the wire's own 256-bit arithmetic does.
    let ours = U256::from_limbs(0, 0, 0, 0x8000_0000_0000_0000u64); // 2^255
    let theirs = alloy::primitives::U256::from_limbs([0, 0, 0, 0x8000_0000_0000_0000u64]);
    let min_out = SlippageUtils::calculate_amount_out_min(ours, 100);
    let expected = theirs * alloy::primitives::U256::from(9900u64)
        / alloy::primitives::U256::from(10000u64);
    assert_eq!(
        [min_out.limb0, min_out.limb1, min_out.limb2, min_out.limb3],
        *expected.as_limbs()
    );
}

#[test]
fn test_i256_extremes() {
    // The most negative 256-bit value: its absolute value is 2^255,
    // which the unsigned form represents exactly.
    let min = I256::from_raw(U256::from_limbs(0, 0, 0, 0x8000_0000_0000_0000u64));
    assert!(min.is_negative());
    assert_eq!(min.abs(), U256::from_limbs(0, 0, 0, 0x8000_0000_0000_0000u64));

    let minus_one = I256::from_raw(U256::from_limbs(u64::MAX, u64::MAX, u64::MAX, u64::MAX));
    assert!(minus_one.is_negative());
    assert_eq!(minus_one.abs(), U256::from(1u64));

    let zero = I256::zero();
    assert!(!zero.is_negative());
    assert!(!zero.is_positive());
    assert_eq!(zero.abs(), U256::zero());
}
