use firehose::data::{Block, BlockHeader};
use firehose::errors::FirehoseError;
use firehose::stream::{
    apply_hot_update, build_log_requests, resolve_block_ref, resolve_negative_start, BlockRef,
    Firehose, ForkStep, HashAndHeight, HotUpdate, LogFilterClause, Response,
};

fn hash_text(number: u64) -> String {
    format!("0x{:04x}", 0x1000 + number)
}

fn header(number: u64) -> BlockHeader {
    BlockHeader {
        number,
        hash: hash_text(number),
        parent_hash: if number == 0 { "0x".to_string() } else { hash_text(number - 1) },
        size: 100 + number,
        sha3_uncles: "0xcc".to_string(),
        miner: "0x0102".to_string(),
        state_root: "0xdd".to_string(),
        transactions_root: "0xee".to_string(),
        receipts_root: "0xff".to_string(),
        logs_bloom: "0x00".to_string(),
        difficulty: "0x1".to_string(),
        total_difficulty: "0x20".to_string(),
        gas_limit: "0x1c9c380".to_string(),
        gas_used: "0x5208".to_string(),
        timestamp: 1_650_000_000 + number,
        extra_data: "0x".to_string(),
        mix_hash: "0x99".to_string(),
        nonce: "0x42".to_string(),
        base_fee_per_gas: None,
    }
}

fn block(number: u64) -> Block {
    Block { header: header(number), transactions: vec![], logs: vec![], traces: vec![] }
}

fn blocks(range: std::ops::RangeInclusive<u64>) -> Vec<Block> {
    range.map(block).collect()
}

fn heights(responses: &[Response]) -> Vec<u64> {
    responses.iter().map(|r| r.block.number).collect()
}

#[test]
fn negative_start_resolves_against_head() {
    assert_eq!(resolve_negative_start(-10, 100), Ok(90));
}

#[test]
fn negative_start_clamps_at_zero() {
    assert_eq!(resolve_negative_start(-200, 100), Ok(0));
    assert_eq!(resolve_negative_start(-1, 0), Ok(0));
}

#[test]
fn non_negative_start_is_used_as_is() {
    assert_eq!(resolve_negative_start(0, 100), Ok(0));
    assert_eq!(resolve_negative_start(42, 100), Ok(42));
}

#[test]
fn start_magnitude_overflow_is_invalid_range() {
    assert_eq!(resolve_negative_start(i64::MIN, 100), Err(FirehoseError::InvalidRange));
}

#[test]
fn filter_clauses_become_prefixed_hex_requests() {
    let clauses = vec![LogFilterClause {
        addresses: vec![vec![0xde, 0xad], vec![0xbe, 0xef]],
        event_signatures: vec![vec![0x01, 0x02]],
    }];
    let reqs = build_log_requests(&clauses);
    assert_eq!(reqs.len(), 1);
    assert_eq!(reqs[0].address, vec!["0xdead".to_string(), "0xbeef".to_string()]);
    assert_eq!(reqs[0].topic0, vec!["0x0102".to_string()]);
}

#[test]
fn session_phases_plan_their_ranges() {
    let fh = Firehose::new(5, 20, vec![]);
    assert_eq!(fh.from_block, 5);
    assert_eq!(fh.to_block, Some(20));
    let req = fh.plan_archive_phase(10).unwrap();
    assert_eq!(req.from, 5);
    assert_eq!(req.to, Some(20));
    assert!(req.transactions.is_empty());
    assert!(fh.plan_archive_phase(5).is_none());
    assert!(fh.plan_archive_phase(4).is_none());
    let (live_req, to_eff) = fh.plan_live_phase(12).unwrap();
    assert_eq!(live_req.from, 5);
    assert_eq!(live_req.to, Some(12));
    assert_eq!(to_eff, 12);
    let (_, to_eff2) = fh.plan_live_phase(50).unwrap();
    assert_eq!(to_eff2, 20);
}

#[test]
fn unbounded_session_has_no_ceiling() {
    let fh = Firehose::new(5, 0, vec![]);
    assert_eq!(fh.to_block, None);
    let (req, to_eff) = fh.plan_live_phase(12).unwrap();
    assert_eq!(req.to, Some(12));
    assert_eq!(to_eff, 12);
}

#[test]
fn hot_phase_without_head_marker_is_invariant_violation() {
    let fh = Firehose::new(5, 0, vec![]);
    assert!(matches!(fh.begin_hot(), Err(FirehoseError::InvariantViolation)));
}

#[test]
fn archive_batch_advances_cursor_and_head() {
    let mut fh = Firehose::new(0, 0, vec![]);
    let batch = blocks(0..=2);
    let rs = fh.process_archive_batch(&batch).unwrap();
    assert_eq!(heights(&rs), vec![0, 1, 2]);
    assert!(rs.iter().all(|r| r.step == ForkStep::New));
    assert_eq!(rs[2].cursor, "2");
    assert_eq!(fh.from_block, 3);
    let head = fh.head.as_ref().unwrap();
    assert_eq!(head.height, 2);
    assert_eq!(head.hash, hash_text(2));
}

#[test]
fn reached_stop_only_on_exact_stop_height() {
    let mut fh = Firehose::new(0, 2, vec![]);
    fh.process_archive_batch(&blocks(0..=1)).unwrap();
    assert!(!fh.reached_stop());
    fh.process_archive_batch(&blocks(2..=2)).unwrap();
    assert!(fh.reached_stop());
}

#[test]
fn reorg_emits_undo_before_new_blocks() {
    let last_head = HashAndHeight { hash: hash_text(7), height: 7 };
    let upd = HotUpdate {
        base_head: HashAndHeight { hash: "0xabcd".to_string(), height: 6 },
        blocks: blocks(7..=8),
    };
    let (rs, new_head) = apply_hot_update(&last_head, &upd).unwrap();
    assert_eq!(rs.len(), 3);
    assert_eq!(rs[0].step, ForkStep::Undo);
    assert_eq!(rs[0].cursor, "7");
    assert_eq!(rs[0].block.header.number, 7);
    assert_eq!(rs[0].block.header.parent_hash, vec![0xab, 0xcd]);
    assert_eq!(rs[0].block.transaction_traces.len(), 0);
    assert_eq!(rs[1].step, ForkStep::New);
    assert_eq!(heights(&rs[1..]), vec![7, 8]);
    assert_eq!(new_head.height, 8);
    assert_eq!(new_head.hash, hash_text(8));
}

#[test]
fn matching_base_head_emits_no_undo() {
    let last_head = HashAndHeight { hash: hash_text(7), height: 7 };
    let upd = HotUpdate {
        base_head: HashAndHeight { hash: hash_text(7), height: 7 },
        blocks: blocks(8..=8),
    };
    let (rs, new_head) = apply_hot_update(&last_head, &upd).unwrap();
    assert_eq!(rs.len(), 1);
    assert_eq!(rs[0].step, ForkStep::New);
    assert_eq!(new_head.height, 8);
}

#[test]
fn empty_update_moves_head_to_base() {
    let last_head = HashAndHeight { hash: hash_text(7), height: 7 };
    let upd = HotUpdate {
        base_head: HashAndHeight { hash: hash_text(5), height: 5 },
        blocks: vec![],
    };
    let (rs, new_head) = apply_hot_update(&last_head, &upd).unwrap();
    assert_eq!(rs.len(), 1);
    assert_eq!(rs[0].step, ForkStep::Undo);
    assert_eq!(new_head.height, 5);
    assert_eq!(new_head.hash, hash_text(5));
}

#[test]
fn two_updates_where_second_diverges() {
    let mut head_marker = HashAndHeight { hash: hash_text(9), height: 9 };
    let upd1 = HotUpdate {
        base_head: HashAndHeight { hash: hash_text(9), height: 9 },
        blocks: blocks(10..=11),
    };
    let (rs1, head1) = apply_hot_update(&head_marker, &upd1).unwrap();
    assert!(rs1.iter().all(|r| r.step == ForkStep::New));
    head_marker = head1;
    assert_eq!(head_marker.height, 11);
    let upd2 = HotUpdate {
        base_head: HashAndHeight { hash: "0x7777".to_string(), height: 10 },
        blocks: blocks(11..=11),
    };
    let (rs2, head2) = apply_hot_update(&head_marker, &upd2).unwrap();
    assert_eq!(rs2[0].step, ForkStep::Undo);
    assert_eq!(rs2[0].cursor, "11");
    assert_eq!(rs2[0].block.header.number, 11);
    assert_eq!(rs2[0].block.header.parent_hash, vec![0x77, 0x77]);
    assert_eq!(rs2[1].step, ForkStep::New);
    assert_eq!(rs2[1].block.number, 11);
    assert_eq!(head2.height, 11);
}

#[test]
fn full_range_is_streamed_without_gaps_or_undo() {
    let archive_height = 3u64;
    let rpc_height = 6u64;
    let mut all: Vec<Response> = Vec::new();
    let mut fh = Firehose::new(0, 0, vec![]);
    if let Some(req) = fh.plan_archive_phase(archive_height) {
        let batch = blocks(req.from..=archive_height - 1);
        all.extend(fh.process_archive_batch(&batch).unwrap());
    }
    assert!(!fh.reached_stop());
    if let Some((req, to_eff)) = fh.plan_live_phase(rpc_height) {
        let batch = blocks(req.from..=to_eff);
        all.extend(fh.convert_batch(&batch).unwrap());
        fh.finish_live_phase(hash_text(to_eff), to_eff);
    }
    assert!(!fh.reached_stop());
    let (req, mut head_marker) = fh.begin_hot().unwrap();
    assert_eq!(req.from, rpc_height + 1);
    let upd = HotUpdate {
        base_head: HashAndHeight { hash: head_marker.hash.clone(), height: head_marker.height },
        blocks: blocks(7..=8),
    };
    let (rs, new_head) = apply_hot_update(&head_marker, &upd).unwrap();
    all.extend(rs);
    head_marker = new_head;
    assert_eq!(head_marker.height, 8);
    assert!(all.iter().all(|r| r.step == ForkStep::New));
    assert_eq!(heights(&all), (0..=8).collect::<Vec<_>>());
    for (k, r) in all.iter().enumerate() {
        assert_eq!(r.cursor, k.to_string());
    }
}

#[test]
fn relative_request_streams_from_resolved_start() {
    let live_finalized = 10u64;
    let archive_height = 10u64;
    let start = resolve_negative_start(-5, live_finalized).unwrap();
    assert_eq!(start, 5);
    let mut all: Vec<Response> = Vec::new();
    let mut fh = Firehose::new(start, 0, vec![]);
    if let Some(req) = fh.plan_archive_phase(archive_height) {
        let batch = blocks(req.from..=archive_height - 1);
        all.extend(fh.process_archive_batch(&batch).unwrap());
    }
    assert_eq!(heights(&all), vec![5, 6, 7, 8, 9]);
    assert!(fh.plan_live_phase(live_finalized).is_none());
    let (req, head_marker) = fh.begin_hot().unwrap();
    assert_eq!(req.from, 10);
    assert_eq!(head_marker.height, 9);
    let upd = HotUpdate {
        base_head: HashAndHeight { hash: head_marker.hash.clone(), height: head_marker.height },
        blocks: blocks(10..=12),
    };
    let (rs, _) = apply_hot_update(&head_marker, &upd).unwrap();
    all.extend(rs);
    assert!(all.iter().all(|r| r.step == ForkStep::New));
    assert_eq!(heights(&all), (5..=12).collect::<Vec<_>>());
}

#[test]
fn block_reference_resolution() {
    assert_eq!(resolve_block_ref(&BlockRef::Number(12)), Ok(12));
    assert_eq!(
        resolve_block_ref(&BlockRef::HashAndNumber("0xaa".to_string(), 9)),
        Ok(9)
    );
    assert_eq!(resolve_block_ref(&BlockRef::Cursor("33".to_string())), Ok(33));
    assert_eq!(
        resolve_block_ref(&BlockRef::Cursor("nope".to_string())),
        Err(FirehoseError::InvalidCursor)
    );
}

#[test]
fn single_block_request_is_one_height() {
    let req = firehose::stream::single_block_request(12);
    assert_eq!(req.from, 12);
    assert_eq!(req.to, Some(12));
    assert!(req.logs.is_empty());
    assert!(req.transactions.is_empty());
}

#[test]
fn batch_with_malformed_block_aborts() {
    let mut fh = Firehose::new(0, 0, vec![]);
    let mut batch = blocks(0..=1);
    batch[1].header.state_root = "0xzz".to_string();
    assert!(matches!(
        fh.process_archive_batch(&batch),
        Err(FirehoseError::MalformedHex)
    ));
}
