use nadfun_sdk::{
    Address, AddressFilterSet, B256, BlockRange, BondingCurveEvent, CurveIndexer, CurveStream,
    EventType, RawLogRecord, UniswapSwapIndexer, UniswapSwapStream, plan_batches,
};

fn addr(byte: u8) -> Address {
    Address::from_bytes(vec![byte; 20]).unwrap()
}

fn topic_of_address(a: &Address) -> B256 {
    let mut bytes = vec![0u8; 12];
    bytes.extend_from_slice(a.as_bytes());
    B256::from_bytes(bytes).unwrap()
}

fn word_of_u64(v: u64) -> Vec<u8> {
    let mut w = vec![0u8; 24];
    w.extend_from_slice(&v.to_be_bytes());
    w
}

fn sig_topic(signature_text: &str) -> B256 {
    let hash = alloy::primitives::keccak256(signature_text.as_bytes());
    B256::from_bytes(hash.as_slice().to_vec()).unwrap()
}

fn buy_record(token: &Address, block: u64, tx_index: u64, log_index: u64) -> RawLogRecord {
    let mut data = word_of_u64(10);
    data.extend_from_slice(&word_of_u64(20));
    RawLogRecord {
        address: addr(0xEE),
        topics: vec![sig_topic("CurveBuy(address,address,uint256,uint256)"),
            topic_of_address(&addr(0x01)), topic_of_address(token)],
        data,
        block_number: Some(block),
        transaction_hash: Some(B256::zero()),
        transaction_index: Some(tx_index),
        log_index: Some(log_index),
    }
}

fn lock_record(token: &Address, block: u64) -> RawLogRecord {
    RawLogRecord {
        address: addr(0xEE),
        topics: vec![sig_topic("CurveTokenLocked(address)"), topic_of_address(token)],
        data: Vec::new(),
        block_number: Some(block),
        transaction_hash: Some(B256::zero()),
        transaction_index: Some(0),
        log_index: Some(0),
    }
}

#[test]
fn test_three_buy_records_sort_to_block_order() {
    let token = addr(0x22);
    let logs = vec![
        buy_record(&token, 105, 0, 0),
        buy_record(&token, 100, 0, 0),
        buy_record(&token, 102, 0, 0),
    ];
    let indexer = CurveIndexer::new();
    let (events, _) = indexer.process_logs(logs, &None);
    let blocks: Vec<u64> = events.iter().map(|e| e.block_number()).collect();
    assert_eq!(blocks, vec![100, 102, 105]);
}

#[test]
fn test_sort_is_stable_for_equal_keys() {
    let token_a = addr(0x2A);
    let token_b = addr(0x2B);
    // Same (block, tx, log) triple on both; input order must survive.
    let logs = vec![buy_record(&token_a, 50, 1, 1), buy_record(&token_b, 50, 1, 1)];
    let indexer = CurveIndexer::new();
    let (events, _) = indexer.process_logs(logs, &None);
    assert_eq!(events.len(), 2);
    assert_eq!(events[0].token(), token_a);
    assert_eq!(events[1].token(), token_b);
}

#[test]
fn test_sort_key_uses_all_three_positions() {
    let token = addr(0x22);
    let logs = vec![
        buy_record(&token, 7, 2, 0),
        buy_record(&token, 7, 1, 5),
        buy_record(&token, 7, 1, 2),
        buy_record(&token, 6, 9, 9),
    ];
    let indexer = CurveIndexer::new();
    let (events, _) = indexer.process_logs(logs, &None);
    let keys: Vec<(u64, u64, u64)> = events
        .iter()
        .map(|e| (e.block_number(), e.transaction_index(), e.log_index()))
        .collect();
    assert_eq!(keys, vec![(6, 9, 9), (7, 1, 2), (7, 1, 5), (7, 2, 0)]);
}

#[test]
fn test_filter_passthrough_keeps_every_decodable_record() {
    let token_a = addr(0x2A);
    let token_b = addr(0x2B);
    let logs = vec![buy_record(&token_a, 3, 0, 0), buy_record(&token_b, 1, 0, 0)];
    let indexer = CurveIndexer::new();
    // No filter configured: the result is exactly the decode of every
    // record, sorted — nothing is dropped.
    let (unfiltered, _) = indexer.process_logs(logs, &None);
    let seen: Vec<(u64, Address)> = unfiltered.iter().map(|e| (e.block_number(), e.token())).collect();
    assert_eq!(seen, vec![(1, token_b), (3, token_a)]);
}

#[test]
fn test_filter_excludes_other_tokens() {
    let token_t = addr(0x77);
    let token_u = addr(0x88);
    let logs = vec![buy_record(&token_t, 1, 0, 0), buy_record(&token_u, 2, 0, 0)];
    let filter = Some(AddressFilterSet::from_addresses(vec![token_t.clone()]));
    let indexer = CurveIndexer::new();
    let (events, _) = indexer.process_logs(logs, &filter);
    assert_eq!(events.len(), 1);
    assert_eq!(events[0].token(), token_t);
}

#[test]
fn test_locked_record_retained_or_dropped_by_filter() {
    let token_t = addr(0x77);
    let token_u = addr(0x88);
    let indexer = CurveIndexer::new();

    let with_t = Some(AddressFilterSet::from_addresses(vec![token_t.clone()]));
    let (events, _) = indexer.process_logs(vec![lock_record(&token_t, 5)], &with_t);
    assert_eq!(events.len(), 1);
    assert_eq!(events[0].event_type(), EventType::Lock);
    assert_eq!(events[0].token(), token_t);

    let with_u = Some(AddressFilterSet::from_addresses(vec![token_u.clone()]));
    let (events, _) = indexer.process_logs(vec![lock_record(&token_t, 5)], &with_u);
    assert_eq!(events.len(), 0);
}

#[test]
fn test_malformed_records_are_skipped_not_fatal() {
    let token = addr(0x22);
    let mut bad = buy_record(&token, 4, 0, 0);
    bad.data = vec![0u8; 3];
    let logs = vec![bad, buy_record(&token, 2, 0, 0)];
    let indexer = CurveIndexer::new();
    let (events, _) = indexer.process_logs(logs, &None);
    assert_eq!(events.len(), 1);
    assert_eq!(events[0].block_number(), 2);
}

#[test]
fn test_pagination_covers_range_with_overlapping_stride() {
    let ranges = plan_batches(1000, 100, 1250);
    assert_eq!(
        ranges,
        vec![
            BlockRange { from_block: 1000, to_block: 1100 },
            BlockRange { from_block: 1101, to_block: 1201 },
            BlockRange { from_block: 1202, to_block: 1250 },
        ]
    );
}

#[test]
fn test_pagination_beyond_head_plans_nothing() {
    assert_eq!(plan_batches(1000, 100, 250), Vec::new());
    assert_eq!(plan_batches(251, 100, 250), Vec::new());
}

#[test]
fn test_pagination_edges() {
    // Start at the head: one degenerate-width range.
    assert_eq!(plan_batches(250, 100, 250), vec![BlockRange { from_block: 250, to_block: 250 }]);
    // Zero batch size: one block per query.
    assert_eq!(
        plan_batches(5, 0, 7),
        vec![
            BlockRange { from_block: 5, to_block: 5 },
            BlockRange { from_block: 6, to_block: 6 },
            BlockRange { from_block: 7, to_block: 7 },
        ]
    );
    // The whole span fits one batch.
    assert_eq!(plan_batches(10, 100, 50), vec![BlockRange { from_block: 10, to_block: 50 }]);
}

#[test]
fn test_curve_fetch_query_names_contract_and_signatures() {
    let indexer = CurveIndexer::new();
    let q = indexer.fetch_query(5, 10, &vec![EventType::Buy, EventType::Sell]);
    assert_eq!(q.from_block, 5);
    assert_eq!(q.to_block, 10);
    assert_eq!(q.addresses.len(), 1);
    assert_eq!(q.addresses[0], indexer.bonding_curve_address());
    assert_eq!(q.signatures.len(), 2);
    assert_eq!(q.signatures[0], EventType::Buy.signature());
    assert_eq!(q.signatures[1], EventType::Sell.signature());
}

#[test]
fn test_curve_stream_defaults_to_all_kinds() {
    let stream = CurveStream::new();
    let q = stream.subscription_query();
    assert_eq!(q.signatures.len(), 6);
    let narrowed = CurveStream::new().subscribe_events(vec![EventType::Create]);
    let q = narrowed.subscription_query();
    assert_eq!(q.signatures.len(), 1);
    assert_eq!(q.signatures[0], EventType::Create.signature());
}

#[test]
fn test_curve_stream_step_filters_silently() {
    let token_t = addr(0x77);
    let token_u = addr(0x88);
    let stream = CurveStream::new().filter_tokens(vec![token_t.clone()]);
    assert!(stream.get_token_filter().is_some());

    let kept = stream.stream_step(buy_record(&token_t, 1, 0, 0));
    assert_eq!(kept.unwrap().token(), token_t);

    let dropped = stream.stream_step(buy_record(&token_u, 1, 0, 0));
    assert!(dropped.is_none());

    let mut malformed = buy_record(&token_t, 1, 0, 0);
    malformed.data = Vec::new();
    assert!(stream.stream_step(malformed).is_none());
}

fn swap_record(pool: &Address, block: u64, log_index: u64) -> RawLogRecord {
    let mut data = word_of_u64(1);
    data.extend_from_slice(&word_of_u64(2));
    data.extend_from_slice(&word_of_u64(3));
    data.extend_from_slice(&word_of_u64(4));
    data.extend_from_slice(&word_of_u64(5));
    RawLogRecord {
        address: pool.clone(),
        topics: vec![
            sig_topic("Swap(address,address,int256,int256,uint160,uint128,int24)"),
            topic_of_address(&addr(0x01)),
            topic_of_address(&addr(0x02)),
        ],
        data,
        block_number: Some(block),
        transaction_hash: Some(B256::zero()),
        transaction_index: Some(0),
        log_index: Some(log_index),
    }
}

#[test]
fn test_swap_indexer_sorts_and_skips() {
    let pool = addr(0x99);
    let mut bad = swap_record(&pool, 1, 0);
    bad.data = vec![0u8; 10];
    let logs = vec![swap_record(&pool, 8, 1), bad, swap_record(&pool, 3, 0)];
    let indexer = UniswapSwapIndexer::new(vec![pool.clone()]);
    let (events, _) = indexer.process_logs(logs);
    let blocks: Vec<u64> = events.iter().map(|e| e.block_number).collect();
    assert_eq!(blocks, vec![3, 8]);
    assert_eq!(indexer.pool_addresses().len(), 1);
}

#[test]
fn test_swap_queries_name_pools_and_signature() {
    let pool_a = addr(0x99);
    let pool_b = addr(0x9A);
    let indexer = UniswapSwapIndexer::new(vec![pool_a.clone(), pool_b.clone()]);
    let q = indexer.fetch_query(1, 2);
    assert_eq!(q.addresses.len(), 2);
    assert_eq!(q.signatures.len(), 1);
    assert_eq!(
        q.signatures[0].as_bytes().as_slice(),
        alloy::primitives::keccak256(b"Swap(address,address,int256,int256,uint160,uint128,int24)")
            .as_slice()
    );

    let stream = UniswapSwapStream::new(vec![pool_a.clone()]);
    let sq = stream.subscription_query();
    assert_eq!(sq.addresses.len(), 1);
    let stepped = stream.stream_step(swap_record(&pool_a, 4, 0));
    assert_eq!(stepped.unwrap().block_number, 4);
}

#[test]
fn test_swap_indexer_over_zero_pools_is_valid() {
    // An indexer over no pools is legitimate: its queries name no
    // emitting contract, so nothing can ever match.
    let indexer = UniswapSwapIndexer::new(Vec::new());
    assert_eq!(indexer.pool_addresses().len(), 0);
    let q = indexer.fetch_query(1, 2);
    assert_eq!(q.addresses.len(), 0);
    let (events, _) = indexer.process_logs(Vec::new());
    assert_eq!(events.len(), 0);
}
