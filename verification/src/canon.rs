use vstd::prelude::*;

verus! {

/// Arbitrary-precision unsigned integer: raw big-endian magnitude bytes, no
/// sign bit.
pub struct BigInt {
    pub bytes: Vec<u8>,
}

/// Canonical timestamp: seconds since the epoch, with a nanosecond part that
/// block timestamps never use.
pub struct Timestamp {
    pub seconds: i64,
    pub nanos: i32,
}

/// Canonical block header with normalized hashes, big integers and
/// quantities.
pub struct BlockHeader {
    pub parent_hash: Vec<u8>,
    pub uncle_hash: Vec<u8>,
    pub coinbase: Vec<u8>,
    pub state_root: Vec<u8>,
    pub transactions_root: Vec<u8>,
    pub receipt_root: Vec<u8>,
    pub logs_bloom: Vec<u8>,
    pub difficulty: BigInt,
    pub total_difficulty: BigInt,
    pub number: u64,
    pub gas_limit: u64,
    pub gas_used: u64,
    pub timestamp: Timestamp,
    pub extra_data: Vec<u8>,
    pub mix_hash: Vec<u8>,
    pub nonce: u64,
    pub hash: Vec<u8>,
    pub base_fee_per_gas: Option<BigInt>,
}

/// Canonical log entry inside a receipt.
pub struct Log {
    pub address: Vec<u8>,
    pub data: Vec<u8>,
    pub block_index: u32,
    pub topics: Vec<Vec<u8>>,
    pub index: u32,
}

/// Kind of a flattened call entry.
#[derive(Clone, Copy, Debug, PartialEq, Eq, Structural)]
pub enum CallType {
    Call,
    CallCode,
    DelegateCall,
    StaticCall,
    Create,
}

/// One flattened trace entry. Call ordering, parent index and depth are not
/// reconstructed: they are always zero.
pub struct Call {
    pub index: u32,
    pub parent_index: u32,
    pub depth: u32,
    pub call_type: CallType,
    pub caller: Vec<u8>,
    pub address: Vec<u8>,
    pub value: BigInt,
    pub gas_limit: u64,
    pub gas_consumed: u64,
    pub input: Vec<u8>,
    pub return_data: Vec<u8>,
    pub status_failed: bool,
    pub status_reverted: bool,
    pub failure_reason: String,
}

/// Per-transaction receipt: the grouped logs, the cumulative gas, and a bloom
/// filter fixed to the canonical all-zero value.
pub struct TransactionReceipt {
    pub state_root: Vec<u8>,
    pub cumulative_gas_used: u64,
    pub logs_bloom: Vec<u8>,
    pub logs: Vec<Log>,
}

/// Access-list entry; upstream access-list data is not propagated, so the
/// list is always empty.
pub struct AccessListItem {
    pub address: Vec<u8>,
    pub storage_keys: Vec<Vec<u8>>,
}

/// Canonical per-transaction trace: the converted transaction fields, exactly
/// one receipt, and the flattened call list.
pub struct TransactionTrace {
    pub to: Vec<u8>,
    pub nonce: u64,
    pub gas_price: BigInt,
    pub gas_limit: u64,
    pub gas_used: u64,
    pub value: BigInt,
    pub input: Vec<u8>,
    pub v: Vec<u8>,
    pub r: Vec<u8>,
    pub s: Vec<u8>,
    pub tx_type: i32,
    pub access_list: Vec<AccessListItem>,
    pub max_fee_per_gas: Option<BigInt>,
    pub max_priority_fee_per_gas: Option<BigInt>,
    pub index: u32,
    pub hash: Vec<u8>,
    pub from: Vec<u8>,
    pub status: i32,
    pub receipt: TransactionReceipt,
    pub calls: Vec<Call>,
}

/// Canonical block.
pub struct Block {
    pub ver: i32,
    pub hash: Vec<u8>,
    pub number: u64,
    pub size: u64,
    pub header: BlockHeader,
    pub transaction_traces: Vec<TransactionTrace>,
}

impl BlockHeader {
    /// All-zero header, the base of the minimal synthetic block that an undo
    /// step carries.
    pub fn zeroed() -> (r: BlockHeader)
        ensures
            r.parent_hash@ == Seq::<u8>::empty(),
            r.uncle_hash@ == Seq::<u8>::empty(),
            r.coinbase@ == Seq::<u8>::empty(),
            r.state_root@ == Seq::<u8>::empty(),
            r.transactions_root@ == Seq::<u8>::empty(),
            r.receipt_root@ == Seq::<u8>::empty(),
            r.logs_bloom@ == Seq::<u8>::empty(),
            r.difficulty.bytes@ == Seq::<u8>::empty(),
            r.total_difficulty.bytes@ == Seq::<u8>::empty(),
            r.number == 0,
            r.gas_limit == 0,
            r.gas_used == 0,
            r.timestamp.seconds == 0,
            r.timestamp.nanos == 0,
            r.extra_data@ == Seq::<u8>::empty(),
            r.mix_hash@ == Seq::<u8>::empty(),
            r.nonce == 0,
            r.hash@ == Seq::<u8>::empty(),
            r.base_fee_per_gas is None,
    {
        BlockHeader {
            parent_hash: Vec::new(),
            uncle_hash: Vec::new(),
            coinbase: Vec::new(),
            state_root: Vec::new(),
            transactions_root: Vec::new(),
            receipt_root: Vec::new(),
            logs_bloom: Vec::new(),
            difficulty: BigInt { bytes: Vec::new() },
            total_difficulty: BigInt { bytes: Vec::new() },
            number: 0,
            gas_limit: 0,
            gas_used: 0,
            timestamp: Timestamp { seconds: 0, nanos: 0 },
            extra_data: Vec::new(),
            mix_hash: Vec::new(),
            nonce: 0,
            hash: Vec::new(),
            base_fee_per_gas: None,
        }
    }
}

} // verus!
