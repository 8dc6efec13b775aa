use crate::canon;
use crate::data;
use crate::errors::FirehoseError;
use crate::hex::{
    check_qty_digits, hex_bytes, hex_uint, qty2int, qty_digits_ok, strip_hex_prefix,
    valid_prefix_hex, vec_from_hex,
};
use vstd::prelude::*;

verus! {

/// A run of `n` zero bytes: the canonical empty address, bloom filter and the
/// like.
pub open spec fn zero_bytes(n: nat) -> Seq<u8> {
    Seq::new(n, |i: int| 0u8)
}

fn zeroed_vec(n: usize) -> (r: Vec<u8>)
    ensures
        r@ == zero_bytes(n as nat),
{
    let mut v: Vec<u8> = Vec::new();
    let mut i: usize = 0;
    while i < n
        invariant
            0 <= i <= n,
            v@.len() == i,
            forall|k: int| 0 <= k < i ==> v@[k] == 0u8,
        decreases n - i,
    {
        v.push(0u8);
        i = i + 1;
    }
    proof {
        assert(v@ =~= zero_bytes(n as nat));
    }
    v
}

/// Every hex-text field of the raw header is well formed.
pub open spec fn header_hex_ok(h: data::BlockHeader) -> bool {
    &&& valid_prefix_hex(h.parent_hash@)
    &&& valid_prefix_hex(h.sha3_uncles@)
    &&& valid_prefix_hex(h.miner@)
    &&& valid_prefix_hex(h.state_root@)
    &&& valid_prefix_hex(h.transactions_root@)
    &&& valid_prefix_hex(h.receipts_root@)
    &&& valid_prefix_hex(h.logs_bloom@)
    &&& valid_prefix_hex(h.difficulty@)
    &&& valid_prefix_hex(h.total_difficulty@)
    &&& valid_prefix_hex(h.extra_data@)
    &&& valid_prefix_hex(h.mix_hash@)
    &&& valid_prefix_hex(h.hash@)
    &&& (h.base_fee_per_gas matches Some(v) ==> valid_prefix_hex(v@))
    &&& qty_digits_ok(h.gas_limit@)
    &&& qty_digits_ok(h.gas_used@)
    &&& qty_digits_ok(h.nonce@)
}

/// Every quantity of the raw header fits its canonical 64-bit field.
pub open spec fn header_fits(h: data::BlockHeader) -> bool {
    &&& hex_uint(strip_hex_prefix(h.gas_limit@)) <= u64::MAX
    &&& hex_uint(strip_hex_prefix(h.gas_used@)) <= u64::MAX
    &&& hex_uint(strip_hex_prefix(h.nonce@)) <= u64::MAX
    &&& h.timestamp <= i64::MAX
}

pub open spec fn header_valid(h: data::BlockHeader) -> bool {
    header_hex_ok(h) && header_fits(h)
}

/// Field-by-field correspondence of a canonical header to its raw source.
pub open spec fn header_matches(h: data::BlockHeader, ch: canon::BlockHeader) -> bool {
    &&& ch.parent_hash@ == hex_bytes(h.parent_hash@)
    &&& ch.uncle_hash@ == hex_bytes(h.sha3_uncles@)
    &&& ch.coinbase@ == hex_bytes(h.miner@)
    &&& ch.state_root@ == hex_bytes(h.state_root@)
    &&& ch.transactions_root@ == hex_bytes(h.transactions_root@)
    &&& ch.receipt_root@ == hex_bytes(h.receipts_root@)
    &&& ch.logs_bloom@ == hex_bytes(h.logs_bloom@)
    &&& ch.difficulty.bytes@ == hex_bytes(h.difficulty@)
    &&& ch.total_difficulty.bytes@ == hex_bytes(h.total_difficulty@)
    &&& ch.number == h.number
    &&& ch.gas_limit as int == hex_uint(strip_hex_prefix(h.gas_limit@))
    &&& ch.gas_used as int == hex_uint(strip_hex_prefix(h.gas_used@))
    &&& ch.timestamp.seconds as int == h.timestamp as int
    &&& ch.timestamp.nanos == 0
    &&& ch.extra_data@ == hex_bytes(h.extra_data@)
    &&& ch.mix_hash@ == hex_bytes(h.mix_hash@)
    &&& ch.nonce as int == hex_uint(strip_hex_prefix(h.nonce@))
    &&& ch.hash@ == hex_bytes(h.hash@)
    &&& match h.base_fee_per_gas {
        Some(v) => ch.base_fee_per_gas matches Some(b) && b.bytes@ == hex_bytes(v@),
        None => ch.base_fee_per_gas is None,
    }
}

/// Convert a raw header into the canonical one: hex fields decoded to bytes,
/// quantities to 64-bit integers, the timestamp to seconds.
pub fn header_from_raw(h: &data::BlockHeader) -> (r: Result<canon::BlockHeader, FirehoseError>)
    ensures
        r is Ok <==> header_valid(*h),
        r matches Ok(ch) ==> header_matches(*h, ch),
        r == Err::<canon::BlockHeader, FirehoseError>(FirehoseError::MalformedHex)
            <==> !header_hex_ok(*h),
        r == Err::<canon::BlockHeader, FirehoseError>(FirehoseError::IntegerOverflow)
            <==> header_hex_ok(*h) && !header_fits(*h),
{
    let parent_hash = match vec_from_hex(h.parent_hash.as_str()) {
        Ok(v) => v,
        Err(e) => return Err(e),
    };
    let uncle_hash = match vec_from_hex(h.sha3_uncles.as_str()) {
        Ok(v) => v,
        Err(e) => return Err(e),
    };
    let coinbase = match vec_from_hex(h.miner.as_str()) {
        Ok(v) => v,
        Err(e) => return Err(e),
    };
    let state_root = match vec_from_hex(h.state_root.as_str()) {
        Ok(v) => v,
        Err(e) => return Err(e),
    };
    let transactions_root = match vec_from_hex(h.transactions_root.as_str()) {
        Ok(v) => v,
        Err(e) => return Err(e),
    };
    let receipt_root = match vec_from_hex(h.receipts_root.as_str()) {
        Ok(v) => v,
        Err(e) => return Err(e),
    };
    let logs_bloom = match vec_from_hex(h.logs_bloom.as_str()) {
        Ok(v) => v,
        Err(e) => return Err(e),
    };
    let difficulty = match vec_from_hex(h.difficulty.as_str()) {
        Ok(v) => v,
        Err(e) => return Err(e),
    };
    let total_difficulty = match vec_from_hex(h.total_difficulty.as_str()) {
        Ok(v) => v,
        Err(e) => return Err(e),
    };
    let extra_data = match vec_from_hex(h.extra_data.as_str()) {
        Ok(v) => v,
        Err(e) => return Err(e),
    };
    let mix_hash = match vec_from_hex(h.mix_hash.as_str()) {
        Ok(v) => v,
        Err(e) => return Err(e),
    };
    let hash = match vec_from_hex(h.hash.as_str()) {
        Ok(v) => v,
        Err(e) => return Err(e),
    };
    let base_fee_per_gas = match &h.base_fee_per_gas {
        Some(v) => match vec_from_hex(v.as_str()) {
            Ok(b) => Some(canon::BigInt { bytes: b }),
            Err(e) => return Err(e),
        },
        None => None,
    };
    if !check_qty_digits(&h.gas_limit) {
        return Err(FirehoseError::MalformedHex);
    }
    if !check_qty_digits(&h.gas_used) {
        return Err(FirehoseError::MalformedHex);
    }
    if !check_qty_digits(&h.nonce) {
        return Err(FirehoseError::MalformedHex);
    }
    let gas_limit = match qty2int(&h.gas_limit) {
        Ok(v) => v,
        Err(e) => return Err(e),
    };
    let gas_used = match qty2int(&h.gas_used) {
        Ok(v) => v,
        Err(e) => return Err(e),
    };
    let nonce = match qty2int(&h.nonce) {
        Ok(v) => v,
        Err(e) => return Err(e),
    };
    if h.timestamp > i64::MAX as u64 {
        return Err(FirehoseError::IntegerOverflow);
    }
    Ok(
        canon::BlockHeader {
            parent_hash,
            uncle_hash,
            coinbase,
            state_root,
            transactions_root,
            receipt_root,
            logs_bloom,
            difficulty: canon::BigInt { bytes: difficulty },
            total_difficulty: canon::BigInt { bytes: total_difficulty },
            number: h.number,
            gas_limit,
            gas_used,
            timestamp: canon::Timestamp { seconds: h.timestamp as i64, nanos: 0 },
            extra_data,
            mix_hash,
            nonce,
            hash,
            base_fee_per_gas,
        },
    )
}

/// Every hex-text field of a raw log is well formed.
pub open spec fn log_hex_ok(l: data::Log) -> bool {
    &&& valid_prefix_hex(l.address@)
    &&& valid_prefix_hex(l.data@)
    &&& forall|i: int| 0 <= i < l.topics@.len() ==> valid_prefix_hex((#[trigger] l.topics@[i])@)
}

/// Field-by-field correspondence of a canonical log to its raw source.
pub open spec fn log_matches(l: data::Log, cl: canon::Log) -> bool {
    &&& cl.address@ == hex_bytes(l.address@)
    &&& cl.data@ == hex_bytes(l.data@)
    &&& cl.block_index == l.log_index
    &&& cl.index == l.transaction_index
    &&& cl.topics@.len() == l.topics@.len()
    &&& forall|i: int|
        0 <= i < l.topics@.len() ==> (#[trigger] cl.topics@[i])@ == hex_bytes(l.topics@[i]@)
}

/// Convert one raw log entry.
pub fn log_from_raw(l: &data::Log) -> (r: Result<canon::Log, FirehoseError>)
    ensures
        r is Ok <==> log_hex_ok(*l),
        r matches Ok(cl) ==> log_matches(*l, cl),
        r is Err ==> r == Err::<canon::Log, FirehoseError>(FirehoseError::MalformedHex),
{
    let address = match vec_from_hex(l.address.as_str()) {
        Ok(v) => v,
        Err(e) => return Err(e),
    };
    let data = match vec_from_hex(l.data.as_str()) {
        Ok(v) => v,
        Err(e) => return Err(e),
    };
    let mut topics: Vec<Vec<u8>> = Vec::new();
    let mut i: usize = 0;
    while i < l.topics.len()
        invariant
            0 <= i <= l.topics@.len(),
            topics@.len() == i,
            forall|k: int| 0 <= k < i ==> valid_prefix_hex((#[trigger] l.topics@[k])@),
            forall|k: int| 0 <= k < i ==> (#[trigger] topics@[k])@ == hex_bytes(l.topics@[k]@),
        decreases l.topics@.len() - i,
    {
        match vec_from_hex(l.topics[i].as_str()) {
            Ok(t) => topics.push(t),
            Err(e) => return Err(e),
        }
        i = i + 1;
    }
    Ok(
        canon::Log {
            address,
            data,
            block_index: l.log_index,
            topics,
            index: l.transaction_index,
        },
    )
}

/// A trace of kind `Create` or `Call` yields one call entry; `Suicide` and
/// `Reward` traces yield none.
pub open spec fn trace_emits(t: data::Trace) -> bool {
    t.trace_type == data::TraceType::Create || t.trace_type == data::TraceType::Call
}

/// Every field that the trace's kind mandates is present.
pub open spec fn trace_present(t: data::Trace) -> bool {
    match t.trace_type {
        data::TraceType::Create => {
            &&& t.action matches Some(a) && a.from is Some && a.value is Some && a.gas is Some
            &&& t.result matches Some(res) && res.address is Some && res.gas_used is Some
        },
        data::TraceType::Call => {
            &&& t.action matches Some(a) && a.from is Some && a.to is Some && a.value is Some
                && a.gas is Some && a.input is Some && a.call_type is Some
            &&& (t.result matches Some(res) ==> res.gas_used is Some && res.output is Some)
        },
        _ => true,
    }
}

pub open spec fn caller_text(t: data::Trace) -> Seq<char> {
    t.action->Some_0.from->Some_0@
}

pub open spec fn address_text(t: data::Trace) -> Seq<char> {
    if t.trace_type == data::TraceType::Create {
        t.result->Some_0.address->Some_0@
    } else {
        t.action->Some_0.to->Some_0@
    }
}

pub open spec fn value_text(t: data::Trace) -> Seq<char> {
    t.action->Some_0.value->Some_0@
}

pub open spec fn gas_text(t: data::Trace) -> Seq<char> {
    t.action->Some_0.gas->Some_0@
}

pub open spec fn gas_used_text(t: data::Trace) -> Seq<char> {
    t.result->Some_0.gas_used->Some_0@
}

/// Gas consumed by a call: the result's figure, or zero when a `Call` trace
/// carries no result.
pub open spec fn gas_consumed_val(t: data::Trace) -> int {
    if t.trace_type == data::TraceType::Call && t.result is None {
        0
    } else {
        hex_uint(strip_hex_prefix(gas_used_text(t)))
    }
}

/// Input bytes of a call: empty for `Create`, the action's input for `Call`.
pub open spec fn input_bytes_of(t: data::Trace) -> Seq<u8> {
    if t.trace_type == data::TraceType::Create {
        Seq::empty()
    } else {
        hex_bytes(t.action->Some_0.input->Some_0@)
    }
}

/// Return data of a call: empty for `Create` and for a `Call` without a
/// result, else the result's output.
pub open spec fn return_bytes_of(t: data::Trace) -> Seq<u8> {
    if t.trace_type == data::TraceType::Call && t.result is Some {
        hex_bytes(t.result->Some_0.output->Some_0@)
    } else {
        Seq::empty()
    }
}

/// The reported failure text: the error message, else the revert reason, else
/// empty.
pub open spec fn failure_reason_of(t: data::Trace) -> Seq<char> {
    if t.error is Some {
        t.error->Some_0@
    } else if t.revert_reason is Some {
        t.revert_reason->Some_0@
    } else {
        Seq::empty()
    }
}

pub open spec fn call_type_of(t: data::Trace) -> canon::CallType {
    if t.trace_type == data::TraceType::Create {
        canon::CallType::Create
    } else {
        match t.action->Some_0.call_type->Some_0 {
            data::CallType::Call => canon::CallType::Call,
            data::CallType::Callcode => canon::CallType::CallCode,
            data::CallType::Delegatecall => canon::CallType::DelegateCall,
            data::CallType::Staticcall => canon::CallType::StaticCall,
        }
    }
}

/// Every hex-text field that the trace's kind reads is well formed.
pub open spec fn call_hex_ok(t: data::Trace) -> bool {
    &&& valid_prefix_hex(caller_text(t))
    &&& valid_prefix_hex(address_text(t))
    &&& valid_prefix_hex(value_text(t))
    &&& qty_digits_ok(gas_text(t))
    &&& (t.trace_type == data::TraceType::Call ==> valid_prefix_hex(
        t.action->Some_0.input->Some_0@,
    ))
    &&& (t.trace_type == data::TraceType::Create ==> qty_digits_ok(gas_used_text(t)))
    &&& (t.trace_type == data::TraceType::Call && t.result is Some ==> qty_digits_ok(
        gas_used_text(t),
    ) && valid_prefix_hex(t.result->Some_0.output->Some_0@))
}

/// The trace's quantities fit their canonical 64-bit fields.
pub open spec fn call_fits(t: data::Trace) -> bool {
    &&& hex_uint(strip_hex_prefix(gas_text(t))) <= u64::MAX
    &&& gas_consumed_val(t) <= u64::MAX
}

/// An emitting trace converts cleanly.
pub open spec fn trace_ok(t: data::Trace) -> bool {
    trace_emits(t) ==> trace_present(t) && call_hex_ok(t) && call_fits(t)
}

/// Field-by-field correspondence of a flattened call entry to its raw trace.
/// Index, parent index and depth are always zero: call nesting is not
/// reconstructed.
pub open spec fn call_matches(t: data::Trace, c: canon::Call) -> bool {
    &&& c.index == 0
    &&& c.parent_index == 0
    &&& c.depth == 0
    &&& c.call_type == call_type_of(t)
    &&& c.caller@ == hex_bytes(caller_text(t))
    &&& c.address@ == hex_bytes(address_text(t))
    &&& c.value.bytes@ == hex_bytes(value_text(t))
    &&& c.gas_limit as int == hex_uint(strip_hex_prefix(gas_text(t)))
    &&& c.gas_consumed as int == gas_consumed_val(t)
    &&& c.input@ == input_bytes_of(t)
    &&& c.return_data@ == return_bytes_of(t)
    &&& c.status_failed == (t.error is Some || t.revert_reason is Some)
    &&& c.status_reverted == (t.revert_reason is Some)
    &&& c.failure_reason@ == failure_reason_of(t)
}

fn failure_fields(t: &data::Trace) -> (r: (bool, bool, String))
    ensures
        r.0 == (t.error is Some || t.revert_reason is Some),
        r.1 == (t.revert_reason is Some),
        r.2@ == failure_reason_of(*t),
{
    let status_failed = t.error.is_some() || t.revert_reason.is_some();
    let status_reverted = t.revert_reason.is_some();
    let failure_reason = match &t.error {
        Some(e) => e.clone(),
        None => match &t.revert_reason {
            Some(rr) => rr.clone(),
            None => String::new(),
        },
    };
    (status_failed, status_reverted, failure_reason)
}

/// Flatten one raw trace into at most one canonical call entry. `Suicide` and
/// `Reward` traces produce none; a mandated field that is absent is
/// `MissingRequiredField`.
pub fn trace_to_call(t: &data::Trace) -> (r: Result<Option<canon::Call>, FirehoseError>)
    ensures
        !trace_emits(*t) ==> r == Ok::<Option<canon::Call>, FirehoseError>(None),
        trace_emits(*t) ==> (r is Ok <==> trace_ok(*t)),
        r matches Ok(Some(c)) ==> trace_emits(*t) && call_matches(*t, c),
        trace_emits(*t) && r is Ok ==> (r matches Ok(o) && o is Some),
        r == Err::<Option<canon::Call>, FirehoseError>(FirehoseError::MissingRequiredField)
            <==> trace_emits(*t) && !trace_present(*t),
        r == Err::<Option<canon::Call>, FirehoseError>(FirehoseError::MalformedHex)
            <==> trace_emits(*t) && trace_present(*t) && !call_hex_ok(*t),
        r == Err::<Option<canon::Call>, FirehoseError>(FirehoseError::IntegerOverflow)
            <==> trace_emits(*t) && trace_present(*t) && call_hex_ok(*t) && !call_fits(*t),
{
    let is_create = match t.trace_type {
        data::TraceType::Create => true,
        data::TraceType::Call => false,
        data::TraceType::Suicide => return Ok(None),
        data::TraceType::Reward => return Ok(None),
    };
    let action = match &t.action {
        Some(a) => a,
        None => return Err(FirehoseError::MissingRequiredField),
    };
    let from_text = match &action.from {
        Some(s) => s,
        None => return Err(FirehoseError::MissingRequiredField),
    };
    let val_text = match &action.value {
        Some(s) => s,
        None => return Err(FirehoseError::MissingRequiredField),
    };
    let gas_qty = match &action.gas {
        Some(s) => s,
        None => return Err(FirehoseError::MissingRequiredField),
    };
    let call_type: canon::CallType;
    let addr_text: &String;
    let input_text: Option<&String>;
    let gas_used_qty: Option<&String>;
    let output_text: Option<&String>;
    if is_create {
        let result = match &t.result {
            Some(res) => res,
            None => return Err(FirehoseError::MissingRequiredField),
        };
        addr_text = match &result.address {
            Some(s) => s,
            None => return Err(FirehoseError::MissingRequiredField),
        };
        gas_used_qty = match &result.gas_used {
            Some(s) => Some(s),
            None => return Err(FirehoseError::MissingRequiredField),
        };
        call_type = canon::CallType::Create;
        input_text = None;
        output_text = None;
    } else {
        addr_text = match &action.to {
            Some(s) => s,
            None => return Err(FirehoseError::MissingRequiredField),
        };
        input_text = match &action.input {
            Some(s) => Some(s),
            None => return Err(FirehoseError::MissingRequiredField),
        };
        call_type = match &action.call_type {
            Some(data::CallType::Call) => canon::CallType::Call,
            Some(data::CallType::Callcode) => canon::CallType::CallCode,
            Some(data::CallType::Delegatecall) => canon::CallType::DelegateCall,
            Some(data::CallType::Staticcall) => canon::CallType::StaticCall,
            None => return Err(FirehoseError::MissingRequiredField),
        };
        match &t.result {
            Some(res) => {
                gas_used_qty = match &res.gas_used {
                    Some(s) => Some(s),
                    None => return Err(FirehoseError::MissingRequiredField),
                };
                output_text = match &res.output {
                    Some(s) => Some(s),
                    None => return Err(FirehoseError::MissingRequiredField),
                };
            },
            None => {
                gas_used_qty = None;
                output_text = None;
            },
        }
    }
    let caller = match vec_from_hex(from_text.as_str()) {
        Ok(v) => v,
        Err(e) => return Err(e),
    };
    let address = match vec_from_hex(addr_text.as_str()) {
        Ok(v) => v,
        Err(e) => return Err(e),
    };
    let value = match vec_from_hex(val_text.as_str()) {
        Ok(v) => v,
        Err(e) => return Err(e),
    };
    let input: Vec<u8> = match input_text {
        Some(s) => match vec_from_hex(s.as_str()) {
            Ok(v) => v,
            Err(e) => return Err(e),
        },
        None => Vec::new(),
    };
    let return_data: Vec<u8> = match output_text {
        Some(s) => match vec_from_hex(s.as_str()) {
            Ok(v) => v,
            Err(e) => return Err(e),
        },
        None => Vec::new(),
    };
    if !check_qty_digits(gas_qty) {
        return Err(FirehoseError::MalformedHex);
    }
    match gas_used_qty {
        Some(s) => {
            if !check_qty_digits(s) {
                return Err(FirehoseError::MalformedHex);
            }
        },
        None => {},
    }
    let gas_limit = match qty2int(gas_qty) {
        Ok(v) => v,
        Err(e) => return Err(e),
    };
    let gas_consumed: u64 = match gas_used_qty {
        Some(s) => match qty2int(s) {
            Ok(v) => v,
            Err(e) => return Err(e),
        },
        None => 0,
    };
    let (status_failed, status_reverted, failure_reason) = failure_fields(t);
    Ok(
        Some(
            canon::Call {
                index: 0,
                parent_index: 0,
                depth: 0,
                call_type,
                caller,
                address,
                value: canon::BigInt { bytes: value },
                gas_limit,
                gas_consumed,
                input,
                return_data,
                status_failed,
                status_reverted,
                failure_reason,
            },
        ),
    )
}

/// Every hex-text field of the raw transaction is well formed.
pub open spec fn tx_hex_ok(tx: data::Transaction) -> bool {
    &&& (tx.to matches Some(s) ==> valid_prefix_hex(s@))
    &&& valid_prefix_hex(tx.gas_price@)
    &&& valid_prefix_hex(tx.value@)
    &&& valid_prefix_hex(tx.input@)
    &&& valid_prefix_hex(tx.v@)
    &&& valid_prefix_hex(tx.r@)
    &&& valid_prefix_hex(tx.s@)
    &&& valid_prefix_hex(tx.hash@)
    &&& valid_prefix_hex(tx.from@)
    &&& (tx.max_fee_per_gas matches Some(s) ==> valid_prefix_hex(s@))
    &&& (tx.max_priority_fee_per_gas matches Some(s) ==> valid_prefix_hex(s@))
    &&& qty_digits_ok(tx.gas@)
    &&& qty_digits_ok(tx.gas_used@)
    &&& qty_digits_ok(tx.cumulative_gas_used@)
}

/// Every quantity of the raw transaction fits its canonical 64-bit field.
pub open spec fn tx_fits(tx: data::Transaction) -> bool {
    &&& hex_uint(strip_hex_prefix(tx.gas@)) <= u64::MAX
    &&& hex_uint(strip_hex_prefix(tx.gas_used@)) <= u64::MAX
    &&& hex_uint(strip_hex_prefix(tx.cumulative_gas_used@)) <= u64::MAX
}

pub open spec fn tx_valid(tx: data::Transaction) -> bool {
    tx_hex_ok(tx) && tx_fits(tx)
}

/// Field-by-field correspondence of a canonical transaction trace to its raw
/// source: a missing `to` becomes the zero address, the access list is always
/// empty, the receipt carries the cumulative gas, an all-zero bloom filter
/// and an empty state root.
pub open spec fn tx_matches(tx: data::Transaction, ct: canon::TransactionTrace) -> bool {
    &&& ct.to@ == match tx.to {
        Some(s) => hex_bytes(s@),
        None => zero_bytes(20),
    }
    &&& ct.nonce == tx.nonce
    &&& ct.gas_price.bytes@ == hex_bytes(tx.gas_price@)
    &&& ct.gas_limit as int == hex_uint(strip_hex_prefix(tx.gas@))
    &&& ct.gas_used as int == hex_uint(strip_hex_prefix(tx.gas_used@))
    &&& ct.value.bytes@ == hex_bytes(tx.value@)
    &&& ct.input@ == hex_bytes(tx.input@)
    &&& ct.v@ == hex_bytes(tx.v@)
    &&& ct.r@ == hex_bytes(tx.r@)
    &&& ct.s@ == hex_bytes(tx.s@)
    &&& ct.tx_type == tx.tx_type
    &&& ct.access_list@.len() == 0
    &&& match tx.max_fee_per_gas {
        Some(s) => ct.max_fee_per_gas matches Some(b) && b.bytes@ == hex_bytes(s@),
        None => ct.max_fee_per_gas is None,
    }
    &&& match tx.max_priority_fee_per_gas {
        Some(s) => ct.max_priority_fee_per_gas matches Some(b) && b.bytes@ == hex_bytes(s@),
        None => ct.max_priority_fee_per_gas is None,
    }
    &&& ct.index == tx.transaction_index
    &&& ct.hash@ == hex_bytes(tx.hash@)
    &&& ct.from@ == hex_bytes(tx.from@)
    &&& ct.status == tx.status
    &&& ct.receipt.state_root@.len() == 0
    &&& ct.receipt.cumulative_gas_used as int == hex_uint(strip_hex_prefix(
        tx.cumulative_gas_used@,
    ))
    &&& ct.receipt.logs_bloom@ == zero_bytes(256)
}

/// Convert a raw transaction into its canonical trace, attaching the already
/// converted log group and call group of the same transaction index.
pub fn transaction_from_raw(
    tx: &data::Transaction,
    logs: Vec<canon::Log>,
    calls: Vec<canon::Call>,
) -> (r: Result<canon::TransactionTrace, FirehoseError>)
    ensures
        r is Ok <==> tx_valid(*tx),
        r matches Ok(ct) ==> tx_matches(*tx, ct) && ct.receipt.logs == logs && ct.calls == calls,
        r == Err::<canon::TransactionTrace, FirehoseError>(FirehoseError::MalformedHex)
            <==> !tx_hex_ok(*tx),
        r == Err::<canon::TransactionTrace, FirehoseError>(FirehoseError::IntegerOverflow)
            <==> tx_hex_ok(*tx) && !tx_fits(*tx),
{
    let to: Vec<u8> = match &tx.to {
        Some(s) => match vec_from_hex(s.as_str()) {
            Ok(v) => v,
            Err(e) => return Err(e),
        },
        None => zeroed_vec(20),
    };
    let gas_price = match vec_from_hex(tx.gas_price.as_str()) {
        Ok(v) => v,
        Err(e) => return Err(e),
    };
    let value = match vec_from_hex(tx.value.as_str()) {
        Ok(v) => v,
        Err(e) => return Err(e),
    };
    let input = match vec_from_hex(tx.input.as_str()) {
        Ok(v) => v,
        Err(e) => return Err(e),
    };
    let v = match vec_from_hex(tx.v.as_str()) {
        Ok(b) => b,
        Err(e) => return Err(e),
    };
    let r_field = match vec_from_hex(tx.r.as_str()) {
        Ok(b) => b,
        Err(e) => return Err(e),
    };
    let s_field = match vec_from_hex(tx.s.as_str()) {
        Ok(b) => b,
        Err(e) => return Err(e),
    };
    let hash = match vec_from_hex(tx.hash.as_str()) {
        Ok(b) => b,
        Err(e) => return Err(e),
    };
    let from = match vec_from_hex(tx.from.as_str()) {
        Ok(b) => b,
        Err(e) => return Err(e),
    };
    let max_fee_per_gas = match &tx.max_fee_per_gas {
        Some(s) => match vec_from_hex(s.as_str()) {
            Ok(b) => Some(canon::BigInt { bytes: b }),
            Err(e) => return Err(e),
        },
        None => None,
    };
    let max_priority_fee_per_gas = match &tx.max_priority_fee_per_gas {
        Some(s) => match vec_from_hex(s.as_str()) {
            Ok(b) => Some(canon::BigInt { bytes: b }),
            Err(e) => return Err(e),
        },
        None => None,
    };
    if !check_qty_digits(&tx.gas) {
        return Err(FirehoseError::MalformedHex);
    }
    if !check_qty_digits(&tx.gas_used) {
        return Err(FirehoseError::MalformedHex);
    }
    if !check_qty_digits(&tx.cumulative_gas_used) {
        return Err(FirehoseError::MalformedHex);
    }
    let gas_limit = match qty2int(&tx.gas) {
        Ok(n) => n,
        Err(e) => return Err(e),
    };
    let gas_used = match qty2int(&tx.gas_used) {
        Ok(n) => n,
        Err(e) => return Err(e),
    };
    let cumulative_gas_used = match qty2int(&tx.cumulative_gas_used) {
        Ok(n) => n,
        Err(e) => return Err(e),
    };
    let receipt = canon::TransactionReceipt {
        state_root: Vec::new(),
        cumulative_gas_used,
        logs_bloom: zeroed_vec(256),
        logs,
    };
    Ok(
        canon::TransactionTrace {
            to,
            nonce: tx.nonce,
            gas_price: canon::BigInt { bytes: gas_price },
            gas_limit,
            gas_used,
            value: canon::BigInt { bytes: value },
            input,
            v,
            r: r_field,
            s: s_field,
            tx_type: tx.tx_type,
            access_list: Vec::new(),
            max_fee_per_gas,
            max_priority_fee_per_gas,
            index: tx.transaction_index,
            hash,
            from,
            status: tx.status,
            receipt,
            calls,
        },
    )
}

/// The logs owned by transaction index `idx`, in their original order.
pub open spec fn logs_for(s: Seq<data::Log>, idx: u32) -> Seq<data::Log>
    decreases s.len(),
{
    if s.len() == 0 {
        Seq::empty()
    } else {
        logs_for(s.drop_last(), idx) + if s.last().transaction_index == idx {
            seq![s.last()]
        } else {
            Seq::empty()
        }
    }
}

/// The traces owned by transaction index `idx`, in their original order.
pub open spec fn traces_for(s: Seq<data::Trace>, idx: u32) -> Seq<data::Trace>
    decreases s.len(),
{
    if s.len() == 0 {
        Seq::empty()
    } else {
        traces_for(s.drop_last(), idx) + if s.last().transaction_index == idx {
            seq![s.last()]
        } else {
            Seq::empty()
        }
    }
}

/// The traces that yield a call entry, in order.
pub open spec fn emitted(s: Seq<data::Trace>) -> Seq<data::Trace>
    decreases s.len(),
{
    if s.len() == 0 {
        Seq::empty()
    } else {
        emitted(s.drop_last()) + if trace_emits(s.last()) {
            seq![s.last()]
        } else {
            Seq::empty()
        }
    }
}

/// Scanning a prefix of the log sequence yields a prefix of the group.
pub proof fn lemma_logs_for_prefix(s: Seq<data::Log>, idx: u32, m: int)
    requires
        0 <= m <= s.len(),
    ensures
        logs_for(s.take(m), idx).len() <= logs_for(s, idx).len(),
        forall|q: int|
            0 <= q < logs_for(s.take(m), idx).len() ==> logs_for(s.take(m), idx)[q] == logs_for(
                s,
                idx,
            )[q],
    decreases s.len() - m,
{
    if m == s.len() {
        assert(s.take(m) =~= s);
    } else {
        assert(s.take(m + 1).drop_last() =~= s.take(m));
        assert(s.take(m + 1).last() == s[m]);
        lemma_logs_for_prefix(s, idx, m + 1);
    }
}

/// Scanning a prefix of the trace sequence yields a prefix of the group.
pub proof fn lemma_traces_for_prefix(s: Seq<data::Trace>, idx: u32, m: int)
    requires
        0 <= m <= s.len(),
    ensures
        traces_for(s.take(m), idx).len() <= traces_for(s, idx).len(),
        forall|q: int|
            0 <= q < traces_for(s.take(m), idx).len() ==> traces_for(s.take(m), idx)[q]
                == traces_for(s, idx)[q],
    decreases s.len() - m,
{
    if m == s.len() {
        assert(s.take(m) =~= s);
    } else {
        assert(s.take(m + 1).drop_last() =~= s.take(m));
        assert(s.take(m + 1).last() == s[m]);
        lemma_traces_for_prefix(s, idx, m + 1);
    }
}

/// Law: trace flattening keeps at most one entry per trace, every kept entry
/// stems from a `Create` or `Call` trace of the input, and `Suicide` and
/// `Reward` traces never contribute one, however many emitting traces stand
/// beside them.
pub proof fn lemma_flattening_drops_non_emitting(ts: Seq<data::Trace>)
    ensures
        emitted(ts).len() <= ts.len(),
        forall|q: int| 0 <= q < emitted(ts).len() ==> trace_emits(#[trigger] emitted(ts)[q]),
        forall|q: int|
            0 <= q < emitted(ts).len() ==> exists|p: int|
                0 <= p < ts.len() && ts[p] == #[trigger] emitted(ts)[q],
    decreases ts.len(),
{
    if ts.len() > 0 {
        lemma_flattening_drops_non_emitting(ts.drop_last());
        assert(forall|p: int| 0 <= p < ts.len() - 1 ==> ts.drop_last()[p] == ts[p]);
        assert forall|q: int| 0 <= q < emitted(ts).len() implies exists|p: int|
            0 <= p < ts.len() && ts[p] == #[trigger] emitted(ts)[q] by {
            if q < emitted(ts.drop_last()).len() {
                let p = choose|p: int|
                    0 <= p < ts.drop_last().len() && ts.drop_last()[p] == emitted(ts.drop_last())[q];
                assert(ts[p] == emitted(ts)[q]);
            } else {
                assert(ts[ts.len() - 1] == emitted(ts)[q]);
            }
        }
    }
}

/// The transaction at position `i` of the block converts cleanly: its own
/// fields, every log of its group, and every trace of its group.
pub open spec fn tx_group_valid(b: data::Block, i: int) -> bool {
    let tx = b.transactions@[i];
    let g = logs_for(b.logs@, tx.transaction_index);
    let tr = traces_for(b.traces@, tx.transaction_index);
    &&& tx_valid(tx)
    &&& forall|q: int| 0 <= q < g.len() ==> log_hex_ok(#[trigger] g[q])
    &&& forall|q: int| 0 <= q < tr.len() ==> trace_ok(#[trigger] tr[q])
}

/// The canonical trace at position `i` carries the converted transaction, the
/// ordered converted log group in its receipt, and the flattened calls of its
/// trace group.
pub open spec fn tx_group_matches(b: data::Block, i: int, ct: canon::TransactionTrace) -> bool {
    let tx = b.transactions@[i];
    let g = logs_for(b.logs@, tx.transaction_index);
    let e = emitted(traces_for(b.traces@, tx.transaction_index));
    &&& tx_matches(tx, ct)
    &&& ct.receipt.logs@.len() == g.len()
    &&& forall|q: int| 0 <= q < g.len() ==> log_matches(g[q], #[trigger] ct.receipt.logs@[q])
    &&& ct.calls@.len() == e.len()
    &&& forall|q: int| 0 <= q < e.len() ==> call_matches(e[q], #[trigger] ct.calls@[q])
}

pub open spec fn block_valid(b: data::Block) -> bool {
    &&& header_valid(b.header)
    &&& forall|i: int| 0 <= i < b.transactions@.len() ==> #[trigger] tx_group_valid(b, i)
}

pub open spec fn block_matches(b: data::Block, cb: canon::Block) -> bool {
    &&& cb.ver == 2
    &&& cb.hash@ == hex_bytes(b.header.hash@)
    &&& cb.number == b.header.number
    &&& cb.size == b.header.size
    &&& header_matches(b.header, cb.header)
    &&& cb.transaction_traces@.len() == b.transactions@.len()
    &&& forall|i: int|
        0 <= i < b.transactions@.len() ==> tx_group_matches(
            b,
            i,
            #[trigger] cb.transaction_traces@[i],
        )
}

/// Convert one raw block into its canonical form: the header normalized, logs
/// and traces partitioned by owning transaction index with their order kept,
/// traces flattened to call entries, one receipt per transaction. The first
/// defect anywhere aborts the whole block.
#[verifier::loop_isolation(false)]
pub fn block_from_raw(b: &data::Block) -> (r: Result<canon::Block, FirehoseError>)
    ensures
        r is Ok <==> block_valid(*b),
        r matches Ok(cb) ==> block_matches(*b, cb),
        r is Err ==> !block_valid(*b) && (r == Err::<canon::Block, FirehoseError>(
            FirehoseError::MalformedHex,
        ) || r == Err::<canon::Block, FirehoseError>(FirehoseError::IntegerOverflow) || r
            == Err::<canon::Block, FirehoseError>(FirehoseError::MissingRequiredField)),
{
    let mut traces_out: Vec<canon::TransactionTrace> = Vec::new();
    let n = b.transactions.len();
    let mut i: usize = 0;
    while i < n
        invariant
            0 <= i <= n,
            traces_out@.len() == i,
            forall|k: int| 0 <= k < i ==> #[trigger] tx_group_valid(*b, k),
            forall|k: int| 0 <= k < i ==> tx_group_matches(*b, k, #[trigger] traces_out@[k]),
        decreases n - i,
    {
        let tx = &b.transactions[i];
        let idx = tx.transaction_index;
        let mut clogs: Vec<canon::Log> = Vec::new();
        let mut j: usize = 0;
        while j < b.logs.len()
            invariant
                0 <= j <= b.logs@.len(),
                clogs@.len() == logs_for(b.logs@.take(j as int), idx).len(),
                forall|q: int|
                    0 <= q < clogs@.len() ==> log_matches(
                        logs_for(b.logs@.take(j as int), idx)[q],
                        #[trigger] clogs@[q],
                    ),
                forall|q: int|
                    0 <= q < clogs@.len() ==> log_hex_ok(
                        #[trigger] logs_for(b.logs@.take(j as int), idx)[q],
                    ),
            decreases b.logs@.len() - j,
        {
            let ghost pre = b.logs@.take(j as int);
            proof {
                assert(b.logs@.take(j + 1).drop_last() =~= pre);
                assert(b.logs@.take(j + 1).last() == b.logs@[j as int]);
            }
            if b.logs[j].transaction_index == idx {
                match log_from_raw(&b.logs[j]) {
                    Ok(cl) => clogs.push(cl),
                    Err(e) => {
                        proof {
                            let p = logs_for(pre, idx).len() as int;
                            lemma_logs_for_prefix(b.logs@, idx, j + 1);
                            assert(logs_for(b.logs@.take(j + 1), idx)[p] == b.logs@[j as int]);
                            assert(!log_hex_ok(logs_for(b.logs@, idx)[p]));
                            assert(!tx_group_valid(*b, i as int));
                        }
                        return Err(e);
                    },
                }
            }
            j = j + 1;
        }
        proof {
            assert(b.logs@.take(b.logs@.len() as int) =~= b.logs@);
        }
        let mut calls: Vec<canon::Call> = Vec::new();
        let mut j2: usize = 0;
        while j2 < b.traces.len()
            invariant
                0 <= j2 <= b.traces@.len(),
                calls@.len() == emitted(traces_for(b.traces@.take(j2 as int), idx)).len(),
                forall|q: int|
                    0 <= q < calls@.len() ==> call_matches(
                        emitted(traces_for(b.traces@.take(j2 as int), idx))[q],
                        #[trigger] calls@[q],
                    ),
                forall|q: int|
                    0 <= q < traces_for(b.traces@.take(j2 as int), idx).len() ==> trace_ok(
                        #[trigger] traces_for(b.traces@.take(j2 as int), idx)[q],
                    ),
            decreases b.traces@.len() - j2,
        {
            let ghost pre = traces_for(b.traces@.take(j2 as int), idx);
            proof {
                assert(b.traces@.take(j2 + 1).drop_last() =~= b.traces@.take(j2 as int));
                assert(b.traces@.take(j2 + 1).last() == b.traces@[j2 as int]);
            }
            if b.traces[j2].transaction_index == idx {
                proof {
                    assert(traces_for(b.traces@.take(j2 + 1), idx) == pre + seq![
                        b.traces@[j2 as int],
                    ]);
                    assert((pre + seq![b.traces@[j2 as int]]).drop_last() =~= pre);
                    assert((pre + seq![b.traces@[j2 as int]]).last() == b.traces@[j2 as int]);
                }
                match trace_to_call(&b.traces[j2]) {
                    Ok(Some(c)) => {
                        calls.push(c);
                    },
                    Ok(None) => {},
                    Err(e) => {
                        proof {
                            let p = pre.len() as int;
                            lemma_traces_for_prefix(b.traces@, idx, j2 + 1);
                            assert(traces_for(b.traces@.take(j2 + 1), idx)[p] == b.traces@[j2 as int]);
                            assert(!trace_ok(traces_for(b.traces@, idx)[p]));
                            assert(!tx_group_valid(*b, i as int));
                        }
                        return Err(e);
                    },
                }
            }
            j2 = j2 + 1;
        }
        proof {
            assert(b.traces@.take(b.traces@.len() as int) =~= b.traces@);
        }
        match transaction_from_raw(tx, clogs, calls) {
            Ok(ct) => {
                traces_out.push(ct);
                proof {
                    assert(tx_group_matches(*b, i as int, traces_out@[i as int]));
                }
            },
            Err(e) => {
                proof {
                    assert(!tx_group_valid(*b, i as int));
                }
                return Err(e);
            },
        }
        i = i + 1;
    }
    let header = match header_from_raw(&b.header) {
        Ok(h) => h,
        Err(e) => return Err(e),
    };
    let hash = match vec_from_hex(b.header.hash.as_str()) {
        Ok(v) => v,
        Err(e) => {
            proof {
                assert(false);
            }
            return Err(e);
        },
    };
    Ok(
        canon::Block {
            ver: 2,
            hash,
            number: b.header.number,
            size: b.header.size,
            header,
            transaction_traces: traces_out,
        },
    )
}

} // verus!
