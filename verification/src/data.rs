use vstd::prelude::*;

verus! {

/// Raw block header as an upstream source delivers it: hashes, big integers
/// and quantities as "0x"-prefixed hex text, optional fields absent where the
/// chain did not carry them (a block before the base-fee era has none).
pub struct BlockHeader {
    pub number: u64,
    pub hash: String,
    pub parent_hash: String,
    pub size: u64,
    pub sha3_uncles: String,
    pub miner: String,
    pub state_root: String,
    pub transactions_root: String,
    pub receipts_root: String,
    pub logs_bloom: String,
    pub difficulty: String,
    pub total_difficulty: String,
    pub gas_limit: String,
    pub gas_used: String,
    pub timestamp: u64,
    pub extra_data: String,
    pub mix_hash: String,
    pub nonce: String,
    pub base_fee_per_gas: Option<String>,
}

/// Raw transaction record. A missing `to` denotes contract creation.
pub struct Transaction {
    pub transaction_index: u32,
    pub hash: String,
    pub from: String,
    pub to: Option<String>,
    pub nonce: u64,
    pub gas: String,
    pub gas_price: String,
    pub gas_used: String,
    pub cumulative_gas_used: String,
    pub input: String,
    pub value: String,
    pub v: String,
    pub r: String,
    pub s: String,
    pub tx_type: i32,
    pub status: i32,
    pub max_fee_per_gas: Option<String>,
    pub max_priority_fee_per_gas: Option<String>,
}

/// Raw log record, owned by the transaction at `transaction_index`.
pub struct Log {
    pub address: String,
    pub data: String,
    pub log_index: u32,
    pub transaction_index: u32,
    pub topics: Vec<String>,
}

/// Kind of a raw trace record.
#[derive(Clone, Copy, Debug, PartialEq, Eq, Structural)]
pub enum TraceType {
    Create,
    Call,
    Suicide,
    Reward,
}

/// Call kind carried by the action of a `Call` trace.
#[derive(Clone, Copy, Debug, PartialEq, Eq, Structural)]
pub enum CallType {
    Call,
    Callcode,
    Delegatecall,
    Staticcall,
}

/// The action half of a trace; every field is optional in the raw form.
pub struct TraceAction {
    pub from: Option<String>,
    pub to: Option<String>,
    pub value: Option<String>,
    pub gas: Option<String>,
    pub input: Option<String>,
    pub call_type: Option<CallType>,
}

/// The result half of a trace; absent when the call reverted before
/// completion.
pub struct TraceResult {
    pub gas_used: Option<String>,
    pub address: Option<String>,
    pub output: Option<String>,
}

/// One raw trace record, owned by the transaction at `transaction_index`.
pub struct Trace {
    pub transaction_index: u32,
    pub trace_type: TraceType,
    pub action: Option<TraceAction>,
    pub result: Option<TraceResult>,
    pub error: Option<String>,
    pub revert_reason: Option<String>,
}

/// One raw block: header plus the transactions, logs and traces that the
/// upstream source attached to it.
pub struct Block {
    pub header: BlockHeader,
    pub transactions: Vec<Transaction>,
    pub logs: Vec<Log>,
    pub traces: Vec<Trace>,
}

} // verus!
