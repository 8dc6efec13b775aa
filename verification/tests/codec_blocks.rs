use firehose::canon;
use firehose::codec::{block_from_raw, header_from_raw, trace_to_call};
use firehose::data::{
    Block, BlockHeader, CallType, Log, Trace, TraceAction, TraceResult, TraceType, Transaction,
};
use firehose::errors::FirehoseError;
use firehose::stream::single_block_response;

fn header(number: u64) -> BlockHeader {
    BlockHeader {
        number,
        hash: "0xaa11".to_string(),
        parent_hash: "0xbb22".to_string(),
        size: 500,
        sha3_uncles: "0xcc".to_string(),
        miner: "0x0102030405060708090a0b0c0d0e0f1011121314".to_string(),
        state_root: "0xdd".to_string(),
        transactions_root: "0xee".to_string(),
        receipts_root: "0xff".to_string(),
        logs_bloom: "0x00".to_string(),
        difficulty: "0x1".to_string(),
        total_difficulty: "0x20".to_string(),
        gas_limit: "0x1c9c380".to_string(),
        gas_used: "0x5208".to_string(),
        timestamp: 1_650_000_000,
        extra_data: "0x".to_string(),
        mix_hash: "0x99".to_string(),
        nonce: "0x42".to_string(),
        base_fee_per_gas: Some("0x7".to_string()),
    }
}

fn transaction(index: u32) -> Transaction {
    Transaction {
        transaction_index: index,
        hash: "0xabcd".to_string(),
        from: "0x1111".to_string(),
        to: Some("0x2222".to_string()),
        nonce: 9,
        gas: "0x5208".to_string(),
        gas_price: "0x3b9aca00".to_string(),
        gas_used: "0x5208".to_string(),
        cumulative_gas_used: "0xa410".to_string(),
        input: "0x".to_string(),
        value: "0xde0b6b3a7640000".to_string(),
        v: "0x1b".to_string(),
        r: "0x12".to_string(),
        s: "0x34".to_string(),
        tx_type: 2,
        status: 1,
        max_fee_per_gas: None,
        max_priority_fee_per_gas: Some("0x1".to_string()),
    }
}

fn log(tx_index: u32, log_index: u32, data: &str) -> Log {
    Log {
        address: "0x4444".to_string(),
        data: data.to_string(),
        log_index,
        transaction_index: tx_index,
        topics: vec!["0x5555".to_string(), "0x6666".to_string()],
    }
}

fn call_trace(tx_index: u32) -> Trace {
    Trace {
        transaction_index: tx_index,
        trace_type: TraceType::Call,
        action: Some(TraceAction {
            from: Some("0x1111".to_string()),
            to: Some("0x2222".to_string()),
            value: Some("0x5".to_string()),
            gas: Some("0x100".to_string()),
            input: Some("0xbeef".to_string()),
            call_type: Some(CallType::Call),
        }),
        result: Some(TraceResult {
            gas_used: Some("0x80".to_string()),
            address: None,
            output: Some("0x99".to_string()),
        }),
        error: None,
        revert_reason: None,
    }
}

fn create_trace(tx_index: u32) -> Trace {
    Trace {
        transaction_index: tx_index,
        trace_type: TraceType::Create,
        action: Some(TraceAction {
            from: Some("0x1111".to_string()),
            to: None,
            value: Some("0x0".to_string()),
            gas: Some("0x200".to_string()),
            input: None,
            call_type: None,
        }),
        result: Some(TraceResult {
            gas_used: Some("0x180".to_string()),
            address: Some("0x3333".to_string()),
            output: None,
        }),
        error: None,
        revert_reason: None,
    }
}

fn bare_trace(tx_index: u32, kind: TraceType) -> Trace {
    Trace {
        transaction_index: tx_index,
        trace_type: kind,
        action: None,
        result: None,
        error: None,
        revert_reason: None,
    }
}

fn block(number: u64) -> Block {
    Block {
        header: header(number),
        transactions: vec![transaction(0)],
        logs: vec![],
        traces: vec![],
    }
}

#[test]
fn header_fields_are_normalized() {
    let ch = header_from_raw(&header(7)).unwrap();
    assert_eq!(ch.number, 7);
    assert_eq!(ch.hash, vec![0xaa, 0x11]);
    assert_eq!(ch.parent_hash, vec![0xbb, 0x22]);
    assert_eq!(ch.gas_limit, 30_000_000);
    assert_eq!(ch.gas_used, 21_000);
    assert_eq!(ch.nonce, 0x42);
    assert_eq!(ch.timestamp.seconds, 1_650_000_000);
    assert_eq!(ch.timestamp.nanos, 0);
    assert_eq!(ch.difficulty.bytes, vec![0x01]);
    assert_eq!(ch.total_difficulty.bytes, vec![0x20]);
    assert_eq!(ch.extra_data, Vec::<u8>::new());
    assert_eq!(ch.base_fee_per_gas.unwrap().bytes, vec![0x07]);
}

#[test]
fn header_without_base_fee_stays_without() {
    let mut h = header(7);
    h.base_fee_per_gas = None;
    assert!(header_from_raw(&h).unwrap().base_fee_per_gas.is_none());
}

#[test]
fn header_bad_hex_is_malformed() {
    let mut h = header(7);
    h.state_root = "0xqq".to_string();
    assert!(matches!(header_from_raw(&h), Err(FirehoseError::MalformedHex)));
}

#[test]
fn header_huge_gas_overflows() {
    let mut h = header(7);
    h.gas_limit = "0xffffffffffffffffffff".to_string();
    assert!(matches!(header_from_raw(&h), Err(FirehoseError::IntegerOverflow)));
}

#[test]
fn header_timestamp_beyond_i64_overflows() {
    let mut h = header(7);
    h.timestamp = u64::MAX;
    assert!(matches!(header_from_raw(&h), Err(FirehoseError::IntegerOverflow)));
}

#[test]
fn suicide_and_reward_traces_yield_no_calls() {
    let mut b = block(3);
    b.traces = vec![
        bare_trace(0, TraceType::Suicide),
        create_trace(0),
        bare_trace(0, TraceType::Reward),
        call_trace(0),
    ];
    let cb = block_from_raw(&b).unwrap();
    let calls = &cb.transaction_traces[0].calls;
    assert_eq!(calls.len(), 2);
    assert_eq!(calls[0].call_type, canon::CallType::Create);
    assert_eq!(calls[1].call_type, canon::CallType::Call);
}

#[test]
fn only_suicide_and_reward_means_zero_calls() {
    let mut b = block(3);
    b.traces = vec![bare_trace(0, TraceType::Suicide), bare_trace(0, TraceType::Reward)];
    let cb = block_from_raw(&b).unwrap();
    assert_eq!(cb.transaction_traces[0].calls.len(), 0);
}

#[test]
fn call_without_result_defaults_to_zero_gas_and_empty_output() {
    let mut t = call_trace(0);
    t.result = None;
    t.error = Some("Reverted".to_string());
    let c = trace_to_call(&t).unwrap().unwrap();
    assert_eq!(c.gas_consumed, 0);
    assert_eq!(c.return_data, Vec::<u8>::new());
    assert!(c.status_failed);
    assert!(!c.status_reverted);
    assert_eq!(c.failure_reason, "Reverted");
}

#[test]
fn revert_reason_sets_both_flags() {
    let mut t = call_trace(0);
    t.revert_reason = Some("out of gas".to_string());
    let c = trace_to_call(&t).unwrap().unwrap();
    assert!(c.status_failed);
    assert!(c.status_reverted);
    assert_eq!(c.failure_reason, "out of gas");
}

#[test]
fn clean_call_fields() {
    let c = trace_to_call(&call_trace(0)).unwrap().unwrap();
    assert_eq!(c.index, 0);
    assert_eq!(c.parent_index, 0);
    assert_eq!(c.depth, 0);
    assert_eq!(c.call_type, canon::CallType::Call);
    assert_eq!(c.caller, vec![0x11, 0x11]);
    assert_eq!(c.address, vec![0x22, 0x22]);
    assert_eq!(c.value.bytes, vec![0x05]);
    assert_eq!(c.gas_limit, 0x100);
    assert_eq!(c.gas_consumed, 0x80);
    assert_eq!(c.input, vec![0xbe, 0xef]);
    assert_eq!(c.return_data, vec![0x99]);
    assert!(!c.status_failed);
    assert!(!c.status_reverted);
    assert_eq!(c.failure_reason, "");
}

#[test]
fn create_call_fields() {
    let c = trace_to_call(&create_trace(0)).unwrap().unwrap();
    assert_eq!(c.call_type, canon::CallType::Create);
    assert_eq!(c.address, vec![0x33, 0x33]);
    assert_eq!(c.gas_limit, 0x200);
    assert_eq!(c.gas_consumed, 0x180);
    assert_eq!(c.input, Vec::<u8>::new());
    assert_eq!(c.return_data, Vec::<u8>::new());
}

#[test]
fn call_missing_action_is_missing_required_field() {
    let mut t = call_trace(0);
    t.action = None;
    assert!(matches!(trace_to_call(&t), Err(FirehoseError::MissingRequiredField)));
}

#[test]
fn create_missing_result_is_missing_required_field() {
    let mut t = create_trace(0);
    t.result = None;
    assert!(matches!(trace_to_call(&t), Err(FirehoseError::MissingRequiredField)));
}

#[test]
fn block_with_missing_trace_field_fails_whole_block() {
    let mut b = block(3);
    let mut t = call_trace(0);
    t.action = None;
    b.traces = vec![t];
    assert!(matches!(block_from_raw(&b), Err(FirehoseError::MissingRequiredField)));
}

#[test]
fn logs_group_by_transaction_in_order() {
    let mut b = block(3);
    b.transactions = vec![transaction(0), transaction(1)];
    b.logs = vec![
        log(0, 10, "0x01"),
        log(1, 11, "0x02"),
        log(0, 12, "0x03"),
        log(1, 13, "0x04"),
        log(0, 14, "0x05"),
    ];
    let cb = block_from_raw(&b).unwrap();
    let l0 = &cb.transaction_traces[0].receipt.logs;
    let l1 = &cb.transaction_traces[1].receipt.logs;
    assert_eq!(l0.len(), 3);
    assert_eq!(l1.len(), 2);
    assert_eq!(
        l0.iter().map(|l| l.block_index).collect::<Vec<_>>(),
        vec![10, 12, 14]
    );
    assert_eq!(
        l1.iter().map(|l| l.block_index).collect::<Vec<_>>(),
        vec![11, 13]
    );
    assert_eq!(l0[0].data, vec![0x01]);
    assert_eq!(l0[1].data, vec![0x03]);
    assert_eq!(l0[2].data, vec![0x05]);
    assert_eq!(l1[0].data, vec![0x02]);
    assert_eq!(l1[1].data, vec![0x04]);
    assert_eq!(l0[0].topics, vec![vec![0x55, 0x55], vec![0x66, 0x66]]);
    assert_eq!(l0[0].index, 0);
    assert_eq!(l1[0].index, 1);
}

#[test]
fn transaction_without_logs_gets_empty_receipt_logs() {
    let mut b = block(3);
    b.transactions = vec![transaction(0), transaction(1)];
    b.logs = vec![log(1, 0, "0x01")];
    let cb = block_from_raw(&b).unwrap();
    assert_eq!(cb.transaction_traces[0].receipt.logs.len(), 0);
    assert_eq!(cb.transaction_traces[1].receipt.logs.len(), 1);
}

#[test]
fn receipt_carries_cumulative_gas_and_zero_bloom() {
    let cb = block_from_raw(&block(3)).unwrap();
    let receipt = &cb.transaction_traces[0].receipt;
    assert_eq!(receipt.cumulative_gas_used, 0xa410);
    assert_eq!(receipt.logs_bloom, vec![0u8; 256]);
    assert_eq!(receipt.state_root, Vec::<u8>::new());
}

#[test]
fn transaction_fields_are_normalized() {
    let cb = block_from_raw(&block(3)).unwrap();
    let tt = &cb.transaction_traces[0];
    assert_eq!(tt.to, vec![0x22, 0x22]);
    assert_eq!(tt.nonce, 9);
    assert_eq!(tt.gas_limit, 21_000);
    assert_eq!(tt.gas_used, 21_000);
    assert_eq!(tt.value.bytes, vec![0x0d, 0xe0, 0xb6, 0xb3, 0xa7, 0x64, 0x00, 0x00]);
    assert_eq!(tt.tx_type, 2);
    assert_eq!(tt.status, 1);
    assert_eq!(tt.index, 0);
    assert!(tt.max_fee_per_gas.is_none());
    assert_eq!(tt.max_priority_fee_per_gas.as_ref().unwrap().bytes, vec![0x01]);
    assert_eq!(tt.access_list.len(), 0);
    assert_eq!(tt.calls.len(), 0);
}

#[test]
fn missing_to_becomes_zero_address() {
    let mut b = block(3);
    b.transactions[0].to = None;
    let cb = block_from_raw(&b).unwrap();
    assert_eq!(cb.transaction_traces[0].to, vec![0u8; 20]);
}

#[test]
fn block_top_level_fields() {
    let cb = block_from_raw(&block(3)).unwrap();
    assert_eq!(cb.ver, 2);
    assert_eq!(cb.number, 3);
    assert_eq!(cb.size, 500);
    assert_eq!(cb.hash, vec![0xaa, 0x11]);
    assert_eq!(cb.header.number, 3);
}

#[test]
fn single_block_lookup_finds_first_block() {
    let cb = single_block_response(&vec![block(5)]).unwrap();
    assert_eq!(cb.number, 5);
}

#[test]
fn single_block_lookup_on_empty_answer_is_not_found() {
    assert!(matches!(
        single_block_response(&vec![]),
        Err(FirehoseError::NotFound)
    ));
}
