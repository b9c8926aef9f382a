use nadfun_sdk::{
    Address, B256, BondingCurveEvent, CreateEvent, DecodeError, EventType, RawLogRecord, U256,
    decode_bonding_curve_event, decode_swap_event,
};

fn addr(byte: u8) -> Address {
    Address::from_bytes(vec![byte; 20]).unwrap()
}

fn topic_of_address(a: &Address) -> B256 {
    let mut bytes = vec![0u8; 12];
    bytes.extend_from_slice(a.as_bytes());
    B256::from_bytes(bytes).unwrap()
}

fn word_of_u64(v: u64) -> Vec<u8> {
    let mut w = vec![0u8; 24];
    w.extend_from_slice(&v.to_be_bytes());
    w
}

fn sig_topic(signature_text: &str) -> B256 {
    let hash = alloy::primitives::keccak256(signature_text.as_bytes());
    B256::from_bytes(hash.as_slice().to_vec()).unwrap()
}

fn record(topics: Vec<B256>, data: Vec<u8>, block: u64, tx_index: u64, log_index: u64)
    -> RawLogRecord {
    RawLogRecord {
        address: addr(0xEE),
        topics,
        data,
        block_number: Some(block),
        transaction_hash: Some(B256::from_bytes(vec![0xAB; 32]).unwrap()),
        transaction_index: Some(tx_index),
        log_index: Some(log_index),
    }
}

#[test]
fn test_event_type_signatures() {
    assert_eq!(
        EventType::Create.signature().as_bytes().as_slice(),
        alloy::primitives::keccak256(
            b"CurveCreate(address,address,address,string,string,string,uint256,uint256,uint256)"
        )
        .as_slice()
    );
    assert_eq!(
        EventType::Buy.signature().as_bytes().as_slice(),
        alloy::primitives::keccak256(b"CurveBuy(address,address,uint256,uint256)").as_slice()
    );
    assert_eq!(
        EventType::Sell.signature().as_bytes().as_slice(),
        alloy::primitives::keccak256(b"CurveSell(address,address,uint256,uint256)").as_slice()
    );
}

#[test]
fn test_remaining_signatures_match_their_event_text() {
    assert_eq!(
        EventType::Sync.signature().as_bytes().as_slice(),
        alloy::primitives::keccak256(b"CurveSync(address,uint256,uint256,uint256,uint256)")
            .as_slice()
    );
    assert_eq!(
        EventType::Lock.signature().as_bytes().as_slice(),
        alloy::primitives::keccak256(b"CurveTokenLocked(address)").as_slice()
    );
    assert_eq!(
        EventType::Listed.signature().as_bytes().as_slice(),
        alloy::primitives::keccak256(b"CurveTokenListed(address,address)").as_slice()
    );
}

#[test]
fn test_bonding_curve_event_methods() {
    let create_event = CreateEvent {
        creator: Address::zero(),
        token: Address::zero(),
        pool: Address::zero(),
        name: "Test".to_string(),
        symbol: "TEST".to_string(),
        token_uri: "".to_string(),
        virtual_mon: U256::from(1000000u64),
        virtual_token: U256::from(1000000u64),
        target_token_amount: U256::from(1000000u64),
        block_number: 100,
        transaction_hash: B256::zero(),
        transaction_index: 0,
        log_index: 0,
    };

    let event = BondingCurveEvent::Create(create_event);
    assert_eq!(event.block_number(), 100);
    assert_eq!(event.token(), Address::zero());
    assert_eq!(event.event_type(), EventType::Create);
}

#[test]
fn test_decode_buy_event_exact_fields() {
    let sender = addr(0x11);
    let token = addr(0x22);
    let mut data = word_of_u64(5000);
    data.extend_from_slice(&word_of_u64(777));
    let log = record(
        vec![sig_topic("CurveBuy(address,address,uint256,uint256)"), topic_of_address(&sender),
            topic_of_address(&token)],
        data,
        42,
        3,
        7,
    );
    let event = decode_bonding_curve_event(log).unwrap();
    match event {
        BondingCurveEvent::Buy(e) => {
            assert_eq!(e.sender, sender);
            assert_eq!(e.token, token);
            assert_eq!(e.amount_in, U256::from(5000u64));
            assert_eq!(e.amount_out, U256::from(777u64));
            assert_eq!(e.block_number, 42);
            assert_eq!(e.transaction_index, 3);
            assert_eq!(e.log_index, 7);
        },
        other => panic!("expected a buy event, got {:?}", other),
    }
}

#[test]
fn test_decode_sell_event_exact_fields() {
    let sender = addr(0x31);
    let token = addr(0x32);
    let mut data = word_of_u64(123456789);
    data.extend_from_slice(&word_of_u64(42));
    let log = record(
        vec![sig_topic("CurveSell(address,address,uint256,uint256)"), topic_of_address(&sender),
            topic_of_address(&token)],
        data,
        9,
        0,
        1,
    );
    let event = decode_bonding_curve_event(log).unwrap();
    match event {
        BondingCurveEvent::Sell(e) => {
            assert_eq!(e.sender, sender);
            assert_eq!(e.token, token);
            assert_eq!(e.amount_in, U256::from(123456789u64));
            assert_eq!(e.amount_out, U256::from(42u64));
        },
        other => panic!("expected a sell event, got {:?}", other),
    }
}

#[test]
fn test_decode_sync_event_exact_fields() {
    let token = addr(0x44);
    let mut data = word_of_u64(1);
    data.extend_from_slice(&word_of_u64(2));
    data.extend_from_slice(&word_of_u64(3));
    data.extend_from_slice(&word_of_u64(4));
    let log = record(
        vec![sig_topic("CurveSync(address,uint256,uint256,uint256,uint256)"),
            topic_of_address(&token)],
        data,
        10,
        1,
        2,
    );
    let event = decode_bonding_curve_event(log).unwrap();
    match event {
        BondingCurveEvent::Sync(e) => {
            assert_eq!(e.token, token);
            assert_eq!(e.real_mon_reserve, U256::from(1u64));
            assert_eq!(e.real_token_reserve, U256::from(2u64));
            assert_eq!(e.virtual_mon_reserve, U256::from(3u64));
            assert_eq!(e.virtual_token_reserve, U256::from(4u64));
        },
        other => panic!("expected a sync event, got {:?}", other),
    }
}

#[test]
fn test_decode_lock_and_listed_events() {
    let token = addr(0x55);
    let pool = addr(0x66);
    let lock_log = record(
        vec![sig_topic("CurveTokenLocked(address)"), topic_of_address(&token)],
        Vec::new(),
        11,
        0,
        0,
    );
    match decode_bonding_curve_event(lock_log).unwrap() {
        BondingCurveEvent::Lock(e) => assert_eq!(e.token, token),
        other => panic!("expected a lock event, got {:?}", other),
    }

    let listed_log = record(
        vec![sig_topic("CurveTokenListed(address,address)"), topic_of_address(&token),
            topic_of_address(&pool)],
        Vec::new(),
        12,
        0,
        0,
    );
    match decode_bonding_curve_event(listed_log).unwrap() {
        BondingCurveEvent::Listed(e) => {
            assert_eq!(e.token, token);
            assert_eq!(e.pool, pool);
        },
        other => panic!("expected a listed event, got {:?}", other),
    }
}

#[test]
fn test_decode_create_event_exact_fields() {
    let creator = addr(0x71);
    let token = addr(0x72);
    let pool = addr(0x73);
    // Head: three offsets and three amounts, then the string tails.
    let mut data = Vec::new();
    data.extend_from_slice(&word_of_u64(192)); // name offset
    data.extend_from_slice(&word_of_u64(256)); // symbol offset
    data.extend_from_slice(&word_of_u64(320)); // uri offset
    data.extend_from_slice(&word_of_u64(1000));
    data.extend_from_slice(&word_of_u64(2000));
    data.extend_from_slice(&word_of_u64(3000));
    // name tail: length 4, "Mint", padded to a word
    data.extend_from_slice(&word_of_u64(4));
    data.extend_from_slice(b"Mint");
    data.extend_from_slice(&[0u8; 28]);
    // symbol tail: length 3, "MNT"
    data.extend_from_slice(&word_of_u64(3));
    data.extend_from_slice(b"MNT");
    data.extend_from_slice(&[0u8; 29]);
    // uri tail: length 8, "ipfs://x"
    data.extend_from_slice(&word_of_u64(8));
    data.extend_from_slice(b"ipfs://x");
    data.extend_from_slice(&[0u8; 24]);
    let log = record(
        vec![
            sig_topic(
                "CurveCreate(address,address,address,string,string,string,uint256,uint256,uint256)",
            ),
            topic_of_address(&creator),
            topic_of_address(&token),
            topic_of_address(&pool),
        ],
        data,
        77,
        5,
        6,
    );
    let event = decode_bonding_curve_event(log).unwrap();
    match event {
        BondingCurveEvent::Create(e) => {
            assert_eq!(e.creator, creator);
            assert_eq!(e.token, token);
            assert_eq!(e.pool, pool);
            assert_eq!(e.name, "Mint");
            assert_eq!(e.symbol, "MNT");
            assert_eq!(e.token_uri, "ipfs://x");
            assert_eq!(e.virtual_mon, U256::from(1000u64));
            assert_eq!(e.virtual_token, U256::from(2000u64));
            assert_eq!(e.target_token_amount, U256::from(3000u64));
            assert_eq!(e.block_number, 77);
        },
        other => panic!("expected a create event, got {:?}", other),
    }
}

#[test]
fn test_unknown_signature_is_reported_not_panicked() {
    let log = record(vec![B256::from_bytes(vec![0x99; 32]).unwrap()], Vec::new(), 1, 0, 0);
    assert_eq!(decode_bonding_curve_event(log).unwrap_err(), DecodeError::UnknownSignature);

    let no_topics = record(Vec::new(), Vec::new(), 1, 0, 0);
    assert_eq!(decode_bonding_curve_event(no_topics).unwrap_err(), DecodeError::UnknownSignature);
}

#[test]
fn test_malformed_payload_is_reported() {
    let sender = addr(0x11);
    let token = addr(0x22);
    // Right signature and topics, but only one payload word of two.
    let log = record(
        vec![sig_topic("CurveBuy(address,address,uint256,uint256)"), topic_of_address(&sender),
            topic_of_address(&token)],
        word_of_u64(5000),
        1,
        0,
        0,
    );
    assert_eq!(decode_bonding_curve_event(log).unwrap_err(), DecodeError::MalformedPayload);

    // Right signature but a missing indexed topic.
    let log = record(
        vec![sig_topic("CurveBuy(address,address,uint256,uint256)"), topic_of_address(&sender)],
        Vec::new(),
        1,
        0,
        0,
    );
    assert_eq!(decode_bonding_curve_event(log).unwrap_err(), DecodeError::MalformedPayload);
}

#[test]
fn test_missing_position_fields_default_to_zero() {
    let token = addr(0x55);
    let log = RawLogRecord {
        address: addr(0xEE),
        topics: vec![sig_topic("CurveTokenLocked(address)"), topic_of_address(&token)],
        data: Vec::new(),
        block_number: None,
        transaction_hash: None,
        transaction_index: None,
        log_index: None,
    };
    match decode_bonding_curve_event(log).unwrap() {
        BondingCurveEvent::Lock(e) => {
            assert_eq!(e.block_number, 0);
            assert_eq!(e.transaction_index, 0);
            assert_eq!(e.log_index, 0);
            assert_eq!(e.transaction_hash, B256::zero());
        },
        other => panic!("expected a lock event, got {:?}", other),
    }
}

#[test]
fn test_decode_swap_event_exact_fields() {
    let sender = addr(0x81);
    let recipient = addr(0x82);
    let pool = addr(0x83);
    let mut data = Vec::new();
    // amount0 = -5 in two's complement
    let minus_five = {
        let mut w = vec![0xFFu8; 32];
        w[31] = 0xFB;
        w
    };
    data.extend_from_slice(&minus_five);
    data.extend_from_slice(&word_of_u64(900)); // amount1 = +900
    data.extend_from_slice(&word_of_u64(1234)); // sqrtPriceX96
    data.extend_from_slice(&word_of_u64(555)); // liquidity
    // tick = -2 as int24, right-aligned in the word
    let mut tick_word = vec![0u8; 29];
    tick_word.extend_from_slice(&[0xFF, 0xFF, 0xFE]);
    data.extend_from_slice(&tick_word);
    let log = RawLogRecord {
        address: pool.clone(),
        topics: vec![
            sig_topic("Swap(address,address,int256,int256,uint160,uint128,int24)"),
            topic_of_address(&sender),
            topic_of_address(&recipient),
        ],
        data,
        block_number: Some(99),
        transaction_hash: Some(B256::zero()),
        transaction_index: Some(2),
        log_index: Some(4),
    };
    let e = decode_swap_event(log).unwrap();
    assert_eq!(e.sender, sender);
    assert_eq!(e.recipient, recipient);
    assert_eq!(e.pool_address, pool);
    assert!(e.amount0.is_negative());
    assert_eq!(e.amount0.abs(), U256::from(5u64));
    assert!(e.amount1.is_positive());
    assert_eq!(e.amount1.abs(), U256::from(900u64));
    assert_eq!(e.sqrt_price_x96, U256::from(1234u64));
    assert_eq!(e.liquidity, 555u128);
    assert_eq!(e.tick, -2);
    assert_eq!(e.block_number, 99);

    // With the base asset as the pool's first token, this swap bought
    // the other token: base asset out, tokens in.
    assert!(e.is_token_buy(true));
    assert!(!e.is_token_sell(true));
    assert_eq!(e.trade_direction(true), "BUY");
    assert!(e.is_token_sell(false));
    assert_eq!(e.trade_direction(false), "SELL");
    assert_eq!(e.wmon_amount(true), e.amount0);
    assert_eq!(e.token_amount(true), e.amount1);
}

#[test]
fn test_swap_decode_rejects_other_events() {
    let token = addr(0x55);
    let lock = RawLogRecord {
        address: addr(0xEE),
        topics: vec![sig_topic("CurveTokenLocked(address)"), topic_of_address(&token)],
        data: Vec::new(),
        block_number: Some(1),
        transaction_hash: None,
        transaction_index: Some(0),
        log_index: Some(0),
    };
    assert_eq!(decode_swap_event(lock).unwrap_err(), DecodeError::UnknownSignature);
}

#[test]
fn test_create_name_decodes_as_utf8() {
    let creator = addr(0x71);
    let token = addr(0x72);
    let pool = addr(0x73);
    let name_bytes = "Tok\u{e9}n".as_bytes(); // six bytes, five characters
    let mut data = Vec::new();
    data.extend_from_slice(&word_of_u64(192));
    data.extend_from_slice(&word_of_u64(256));
    data.extend_from_slice(&word_of_u64(320));
    data.extend_from_slice(&word_of_u64(1));
    data.extend_from_slice(&word_of_u64(2));
    data.extend_from_slice(&word_of_u64(3));
    data.extend_from_slice(&word_of_u64(name_bytes.len() as u64));
    data.extend_from_slice(name_bytes);
    data.extend_from_slice(&vec![0u8; 32 - name_bytes.len()]);
    data.extend_from_slice(&word_of_u64(0));
    data.extend_from_slice(&[0u8; 32]);
    data.extend_from_slice(&word_of_u64(0));
    data.extend_from_slice(&[0u8; 32]);
    let log = record(
        vec![
            sig_topic(
                "CurveCreate(address,address,address,string,string,string,uint256,uint256,uint256)",
            ),
            topic_of_address(&creator),
            topic_of_address(&token),
            topic_of_address(&pool),
        ],
        data,
        1,
        0,
        0,
    );
    match decode_bonding_curve_event(log).unwrap() {
        BondingCurveEvent::Create(e) => {
            assert_eq!(e.name, "Tok\u{e9}n");
            assert_eq!(e.name.chars().count(), 5);
            assert_eq!(e.symbol, "");
            assert_eq!(e.token_uri, "");
        },
        other => panic!("expected a create event, got {:?}", other),
    }
}

#[test]
fn test_create_rejects_invalid_utf8_name() {
    let creator = addr(0x71);
    let token = addr(0x72);
    let pool = addr(0x73);
    let mut data = Vec::new();
    data.extend_from_slice(&word_of_u64(192));
    data.extend_from_slice(&word_of_u64(256));
    data.extend_from_slice(&word_of_u64(320));
    data.extend_from_slice(&word_of_u64(1));
    data.extend_from_slice(&word_of_u64(2));
    data.extend_from_slice(&word_of_u64(3));
    // A lone continuation byte is not valid UTF-8.
    data.extend_from_slice(&word_of_u64(1));
    data.push(0x80);
    data.extend_from_slice(&[0u8; 31]);
    data.extend_from_slice(&word_of_u64(0));
    data.extend_from_slice(&[0u8; 32]);
    data.extend_from_slice(&word_of_u64(0));
    data.extend_from_slice(&[0u8; 32]);
    let log = record(
        vec![
            sig_topic(
                "CurveCreate(address,address,address,string,string,string,uint256,uint256,uint256)",
            ),
            topic_of_address(&creator),
            topic_of_address(&token),
            topic_of_address(&pool),
        ],
        data,
        1,
        0,
        0,
    );
    assert_eq!(decode_bonding_curve_event(log).unwrap_err(), DecodeError::MalformedPayload);
}
