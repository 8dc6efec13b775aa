use crate::canon;
use crate::codec::{block_matches, block_valid, block_from_raw, logs_for, log_matches};
use crate::data;
use crate::errors::FirehoseError;
use crate::hex::{
    dec_str_of, dec_uint, hex_bytes, hex_str_of, u64_to_dec, parse_dec, to_prefix_hex, valid_dec,
    valid_prefix_hex, vec_from_hex,
};
use vstd::prelude::*;

verus! {

/// Identity of the last accepted block: its hash as hex text and its height.
pub struct HashAndHeight {
    pub hash: String,
    pub height: u64,
}

impl HashAndHeight {
    /// The two markers name the same block.
    pub open spec fn same_spec(self, other: HashAndHeight) -> bool {
        self.hash@ == other.hash@ && self.height == other.height
    }

    pub fn same_as(&self, other: &HashAndHeight) -> (r: bool)
        ensures
            r == self.same_spec(*other),
    {
        self.height == other.height && self.hash == other.hash
    }

    pub fn dup(&self) -> (r: HashAndHeight)
        ensures
            r.same_spec(*self),
    {
        HashAndHeight { hash: self.hash.clone(), height: self.height }
    }
}

/// One log filter of a normalized fetch request: lowercase-hex addresses and
/// topic0 values.
pub struct LogRequest {
    pub address: Vec<String>,
    pub topic0: Vec<String>,
}

/// Transaction filter of a normalized fetch request; the range stream never
/// fills it.
pub struct TransactionRequest {
    pub address: Vec<String>,
    pub sighash: Vec<String>,
}

/// Normalized fetch request handed to an upstream source: a height range and
/// the filter sets, reused by every phase with `from`/`to` narrowed.
pub struct DataRequest {
    pub from: u64,
    pub to: Option<u64>,
    pub logs: Vec<LogRequest>,
    pub transactions: Vec<TransactionRequest>,
}

/// Fork annotation of one response.
#[derive(Clone, Copy, Debug, PartialEq, Eq, Structural)]
pub enum ForkStep {
    New,
    Undo,
}

/// One item of the produced stream: a canonical block, its fork step, and a
/// cursor that is always the decimal string of the referenced height.
pub struct Response {
    pub block: canon::Block,
    pub step: ForkStep,
    pub cursor: String,
}

/// One update of the hot tail subscription: the tip it is anchored on and the
/// new blocks above it.
pub struct HotUpdate {
    pub base_head: HashAndHeight,
    pub blocks: Vec<data::Block>,
}

/// Two log requests carry the same text.
pub open spec fn log_request_eq(a: LogRequest, b: LogRequest) -> bool {
    &&& a.address@.len() == b.address@.len()
    &&& forall|i: int| 0 <= i < a.address@.len() ==> (#[trigger] a.address@[i])@ == b.address@[i]@
    &&& a.topic0@.len() == b.topic0@.len()
    &&& forall|i: int| 0 <= i < a.topic0@.len() ==> (#[trigger] a.topic0@[i])@ == b.topic0@[i]@
}

/// A response that emits `b` as a new block: the canonical conversion of `b`,
/// step `New`, cursor the decimal height of `b`.
pub open spec fn is_new_response_for(resp: Response, b: data::Block) -> bool {
    &&& resp.step == ForkStep::New
    &&& block_matches(b, resp.block)
    &&& resp.cursor@ == dec_str_of(b.header.number as nat)
}

/// The minimal synthetic block of an undo step: only the undone height and
/// the parent hash are filled, every other field is zero or empty.
pub open spec fn undo_block_shape(cb: canon::Block, height: u64, base_hash: Seq<char>) -> bool {
    &&& cb.ver == 0
    &&& cb.hash@.len() == 0
    &&& cb.number == 0
    &&& cb.size == 0
    &&& cb.transaction_traces@.len() == 0
    &&& cb.header.number == height
    &&& cb.header.parent_hash@ == hex_bytes(base_hash)
    &&& cb.header.uncle_hash@.len() == 0
    &&& cb.header.coinbase@.len() == 0
    &&& cb.header.state_root@.len() == 0
    &&& cb.header.transactions_root@.len() == 0
    &&& cb.header.receipt_root@.len() == 0
    &&& cb.header.logs_bloom@.len() == 0
    &&& cb.header.difficulty.bytes@.len() == 0
    &&& cb.header.total_difficulty.bytes@.len() == 0
    &&& cb.header.gas_limit == 0
    &&& cb.header.gas_used == 0
    &&& cb.header.timestamp.seconds == 0
    &&& cb.header.timestamp.nanos == 0
    &&& cb.header.extra_data@.len() == 0
    &&& cb.header.mix_hash@.len() == 0
    &&& cb.header.nonce == 0
    &&& cb.header.hash@.len() == 0
    &&& cb.header.base_fee_per_gas is None
}

/// A response that undoes the block at `height`: step `Undo`, the synthetic
/// block, cursor the decimal string of the undone height.
pub open spec fn is_undo_response(resp: Response, height: u64, base_hash: Seq<char>) -> bool {
    &&& resp.step == ForkStep::Undo
    &&& undo_block_shape(resp.block, height, base_hash)
    &&& resp.cursor@ == dec_str_of(height as nat)
}

/// Resolve a requested start height against the live head: a negative start
/// `-k` means `max(0, head - k)`, a non-negative start is used as-is. Only
/// the one magnitude that no unsigned height can hold is `InvalidRange`.
pub fn resolve_negative_start(start_block_num: i64, head: u64) -> (r: Result<u64, FirehoseError>)
    ensures
        start_block_num >= 0 ==> r == Ok::<u64, FirehoseError>(start_block_num as u64),
        start_block_num < 0 && start_block_num != i64::MIN ==> (r matches Ok(v) && v as int
            == vstd::math::max(0, head as int + start_block_num as int)),
        start_block_num == i64::MIN <==> r == Err::<u64, FirehoseError>(
            FirehoseError::InvalidRange,
        ),
{
    if start_block_num < 0 {
        if start_block_num == i64::MIN {
            return Err(FirehoseError::InvalidRange);
        }
        let delta = (-start_block_num) as u64;
        if head >= delta {
            Ok(head - delta)
        } else {
            Ok(0)
        }
    } else {
        Ok(start_block_num as u64)
    }
}

/// One log-filter clause of a decoded transform payload: raw address bytes
/// and raw 32-byte event signatures.
pub struct LogFilterClause {
    pub addresses: Vec<Vec<u8>>,
    pub event_signatures: Vec<Vec<u8>>,
}

/// The log request built from one clause: every address and every event
/// signature hex-encoded with a "0x" prefix, order kept.
pub open spec fn log_request_matches_clause(c: LogFilterClause, lr: LogRequest) -> bool {
    &&& lr.address@.len() == c.addresses@.len()
    &&& forall|j: int|
        0 <= j < c.addresses@.len() ==> (#[trigger] lr.address@[j])@ == seq!['0', 'x']
            + hex_str_of(c.addresses@[j]@)
    &&& lr.topic0@.len() == c.event_signatures@.len()
    &&& forall|j: int|
        0 <= j < c.event_signatures@.len() ==> (#[trigger] lr.topic0@[j])@ == seq!['0', 'x']
            + hex_str_of(c.event_signatures@[j]@)
}

fn encode_all(v: &Vec<Vec<u8>>) -> (r: Vec<String>)
    ensures
        r@.len() == v@.len(),
        forall|j: int|
            0 <= j < v@.len() ==> (#[trigger] r@[j])@ == seq!['0', 'x'] + hex_str_of(v@[j]@),
{
    let mut out: Vec<String> = Vec::new();
    let mut j: usize = 0;
    while j < v.len()
        invariant
            0 <= j <= v@.len(),
            out@.len() == j,
            forall|q: int|
                0 <= q < j ==> (#[trigger] out@[q])@ == seq!['0', 'x'] + hex_str_of(v@[q]@),
        decreases v@.len() - j,
    {
        out.push(to_prefix_hex(&v[j]));
        j = j + 1;
    }
    out
}

/// Translate the decoded filter clauses of a range request into the log
/// requests that every fetch of the range reuses.
pub fn build_log_requests(clauses: &Vec<LogFilterClause>) -> (r: Vec<LogRequest>)
    ensures
        r@.len() == clauses@.len(),
        forall|i: int|
            0 <= i < clauses@.len() ==> log_request_matches_clause(
                clauses@[i],
                #[trigger] r@[i],
            ),
{
    let mut out: Vec<LogRequest> = Vec::new();
    let mut i: usize = 0;
    while i < clauses.len()
        invariant
            0 <= i <= clauses@.len(),
            out@.len() == i,
            forall|q: int|
                0 <= q < i ==> log_request_matches_clause(clauses@[q], #[trigger] out@[q]),
        decreases clauses@.len() - i,
    {
        let c = &clauses[i];
        out.push(
            LogRequest { address: encode_all(&c.addresses), topic0: encode_all(&c.event_signatures) },
        );
        i = i + 1;
    }
    out
}

fn dup_strings(v: &Vec<String>) -> (r: Vec<String>)
    ensures
        r@.len() == v@.len(),
        forall|i: int| 0 <= i < v@.len() ==> (#[trigger] r@[i])@ == v@[i]@,
{
    let mut out: Vec<String> = Vec::new();
    let mut i: usize = 0;
    while i < v.len()
        invariant
            0 <= i <= v@.len(),
            out@.len() == i,
            forall|q: int| 0 <= q < i ==> (#[trigger] out@[q])@ == v@[q]@,
        decreases v@.len() - i,
    {
        out.push(v[i].clone());
        i = i + 1;
    }
    out
}

fn dup_logs(v: &Vec<LogRequest>) -> (r: Vec<LogRequest>)
    ensures
        r@.len() == v@.len(),
        forall|i: int| 0 <= i < v@.len() ==> log_request_eq(#[trigger] r@[i], v@[i]),
{
    let mut out: Vec<LogRequest> = Vec::new();
    let mut i: usize = 0;
    while i < v.len()
        invariant
            0 <= i <= v@.len(),
            out@.len() == i,
            forall|q: int| 0 <= q < i ==> log_request_eq(#[trigger] out@[q], v@[q]),
        decreases v@.len() - i,
    {
        out.push(
            LogRequest {
                address: dup_strings(&v[i].address),
                topic0: dup_strings(&v[i].topic0),
            },
        );
        i = i + 1;
    }
    out
}

/// The stream-merge orchestrator core of one range request: the forward
/// cursor, the optional ceiling, the translated filters and the head marker.
/// The asynchronous fetch loops drive it phase by phase and it decides
/// everything else.
pub struct Firehose {
    pub from_block: u64,
    pub to_block: Option<u64>,
    pub logs: Vec<LogRequest>,
    pub head: Option<HashAndHeight>,
}

impl Firehose {
    /// Open a session at the resolved start height. A stop height of zero
    /// means an unbounded range.
    pub fn new(from_block: u64, stop_block_num: u64, logs: Vec<LogRequest>) -> (r: Firehose)
        ensures
            r.from_block == from_block,
            stop_block_num == 0 ==> r.to_block is None,
            stop_block_num != 0 ==> r.to_block == Some(stop_block_num),
            r.logs == logs,
            r.head is None,
    {
        Firehose {
            from_block,
            to_block: if stop_block_num == 0 {
                None
            } else {
                Some(stop_block_num)
            },
            logs,
            head: None,
        }
    }

    /// Phase A plan: fetch from the archive exactly when the cursor is below
    /// the archive's finalized height, over the untouched requested ceiling.
    pub fn plan_archive_phase(&self, archive_height: u64) -> (r: Option<DataRequest>)
        ensures
            r is Some <==> self.from_block < archive_height,
            r matches Some(req) ==> {
                &&& req.from == self.from_block
                &&& req.to == self.to_block
                &&& req.logs@.len() == self.logs@.len()
                &&& forall|i: int|
                    0 <= i < self.logs@.len() ==> log_request_eq(
                        #[trigger] req.logs@[i],
                        self.logs@[i],
                    )
                &&& req.transactions@.len() == 0
            },
    {
        if self.from_block < archive_height {
            Some(
                DataRequest {
                    from: self.from_block,
                    to: self.to_block,
                    logs: dup_logs(&self.logs),
                    transactions: Vec::new(),
                },
            )
        } else {
            None
        }
    }

    /// Convert one batch of finalized blocks from the archive: each block
    /// becomes one `New` response, the cursor advances past it, and its
    /// identity becomes the head marker.
    #[verifier::loop_isolation(false)]
    pub fn process_archive_batch(&mut self, blocks: &Vec<data::Block>) -> (r: Result<
        Vec<Response>,
        FirehoseError,
    >)
        requires
            forall|k: int|
                0 <= k < blocks@.len() ==> (#[trigger] blocks@[k]).header.number < u64::MAX,
        ensures
            r is Ok <==> (forall|k: int|
                0 <= k < blocks@.len() ==> block_valid(#[trigger] blocks@[k])),
            r matches Ok(rs) ==> {
                &&& rs@.len() == blocks@.len()
                &&& forall|k: int|
                    0 <= k < blocks@.len() ==> is_new_response_for(
                        #[trigger] rs@[k],
                        blocks@[k],
                    )
                &&& blocks@.len() == 0 ==> *final(self) == *old(self)
                &&& blocks@.len() > 0 ==> {
                    &&& final(self).from_block as int == blocks@.last().header.number as int + 1
                    &&& final(self).head matches Some(h) && h.hash@ == blocks@.last().header.hash@
                        && h.height == blocks@.last().header.number
                }
            },
            final(self).to_block == old(self).to_block,
            final(self).logs == old(self).logs,
            r is Err ==> !(forall|k: int|
                0 <= k < blocks@.len() ==> block_valid(#[trigger] blocks@[k])),
            r is Err ==> (r == Err::<Vec<Response>, FirehoseError>(FirehoseError::MalformedHex)
                || r == Err::<Vec<Response>, FirehoseError>(FirehoseError::IntegerOverflow) || r
                == Err::<Vec<Response>, FirehoseError>(FirehoseError::MissingRequiredField)),
    {
        let mut out: Vec<Response> = Vec::new();
        let mut k: usize = 0;
        while k < blocks.len()
            invariant
                0 <= k <= blocks@.len(),
                out@.len() == k,
                forall|q: int| 0 <= q < k ==> block_valid(#[trigger] blocks@[q]),
                forall|q: int|
                    0 <= q < k ==> is_new_response_for(#[trigger] out@[q], blocks@[q]),
                k == 0 ==> *self == *old(self),
                k > 0 ==> {
                    &&& self.from_block as int == blocks@[k - 1].header.number as int + 1
                    &&& self.head matches Some(h) && h.hash@ == blocks@[k - 1].header.hash@
                        && h.height == blocks@[k - 1].header.number
                },
                self.to_block == old(self).to_block,
                self.logs == old(self).logs,
            decreases blocks@.len() - k,
        {
            let b = &blocks[k];
            self.head = Some(
                HashAndHeight { hash: b.header.hash.clone(), height: b.header.number },
            );
            self.from_block = b.header.number + 1;
            let cb = match block_from_raw(b) {
                Ok(cb) => cb,
                Err(e) => return Err(e),
            };
            out.push(Response { block: cb, step: ForkStep::New, cursor: u64_to_dec(b.header.number) });
            k = k + 1;
        }
        Ok(out)
    }

    /// The bounded range is served exactly when the head marker sits on the
    /// requested stop height.
    pub fn reached_stop(&self) -> (r: bool)
        ensures
            r == (self.to_block matches Some(t) && self.head matches Some(h) && h.height == t),
    {
        match (&self.to_block, &self.head) {
            (Some(t), Some(h)) => h.height == *t,
            _ => false,
        }
    }

    /// Phase B plan: fetch the live source's finalized range exactly when the
    /// cursor is below its finalized height, with the ceiling narrowed to
    /// that height.
    pub fn plan_live_phase(&self, rpc_height: u64) -> (r: Option<(DataRequest, u64)>)
        ensures
            r is Some <==> self.from_block < rpc_height,
            r matches Some((req, to_eff)) ==> {
                &&& to_eff as int == (match self.to_block {
                    Some(t) => if t < rpc_height {
                        t as int
                    } else {
                        rpc_height as int
                    },
                    None => rpc_height as int,
                })
                &&& req.from == self.from_block
                &&& req.to == Some(to_eff)
                &&& req.logs@.len() == self.logs@.len()
                &&& forall|i: int|
                    0 <= i < self.logs@.len() ==> log_request_eq(
                        #[trigger] req.logs@[i],
                        self.logs@[i],
                    )
                &&& req.transactions@.len() == 0
            },
    {
        if self.from_block < rpc_height {
            let to_eff = match &self.to_block {
                Some(t) => {
                    if *t < rpc_height {
                        *t
                    } else {
                        rpc_height
                    }
                },
                None => rpc_height,
            };
            Some(
                (
                    DataRequest {
                        from: self.from_block,
                        to: Some(to_eff),
                        logs: dup_logs(&self.logs),
                        transactions: Vec::new(),
                    },
                    to_eff,
                ),
            )
        } else {
            None
        }
    }

    /// Convert one batch of finalized blocks from the live source: each block
    /// becomes one `New` response; the head marker is set only at the end of
    /// the phase, from the phase's ending height.
    pub fn convert_batch(&self, blocks: &Vec<data::Block>) -> (r: Result<
        Vec<Response>,
        FirehoseError,
    >)
        ensures
            r is Ok <==> (forall|k: int|
                0 <= k < blocks@.len() ==> block_valid(#[trigger] blocks@[k])),
            r matches Ok(rs) ==> {
                &&& rs@.len() == blocks@.len()
                &&& forall|k: int|
                    0 <= k < blocks@.len() ==> is_new_response_for(
                        #[trigger] rs@[k],
                        blocks@[k],
                    )
            },
            r is Err ==> !(forall|k: int|
                0 <= k < blocks@.len() ==> block_valid(#[trigger] blocks@[k])),
            r is Err ==> (r == Err::<Vec<Response>, FirehoseError>(FirehoseError::MalformedHex)
                || r == Err::<Vec<Response>, FirehoseError>(FirehoseError::IntegerOverflow) || r
                == Err::<Vec<Response>, FirehoseError>(FirehoseError::MissingRequiredField)),
    {
        let mut out: Vec<Response> = Vec::new();
        let mut k: usize = 0;
        while k < blocks.len()
            invariant
                0 <= k <= blocks@.len(),
                out@.len() == k,
                forall|q: int| 0 <= q < k ==> block_valid(#[trigger] blocks@[q]),
                forall|q: int|
                    0 <= q < k ==> is_new_response_for(#[trigger] out@[q], blocks@[q]),
            decreases blocks@.len() - k,
        {
            let b = &blocks[k];
            let cb = match block_from_raw(b) {
                Ok(cb) => cb,
                Err(e) => return Err(e),
            };
            out.push(Response { block: cb, step: ForkStep::New, cursor: u64_to_dec(b.header.number) });
            k = k + 1;
        }
        Ok(out)
    }

    /// Close phase B: the head marker becomes the live source's block hash at
    /// the phase's ending height — even when the phase returned no blocks —
    /// and the cursor advances past that height.
    pub fn finish_live_phase(&mut self, hash: String, to_eff: u64)
        requires
            to_eff < u64::MAX,
        ensures
            final(self).head matches Some(h) && h.hash == hash && h.height == to_eff,
            final(self).from_block == to_eff + 1,
            final(self).to_block == old(self).to_block,
            final(self).logs == old(self).logs,
    {
        self.head = Some(HashAndHeight { hash, height: to_eff });
        self.from_block = to_eff + 1;
    }

    /// Phase C entry: the remaining range and the established head marker for
    /// the hot subscription. A missing head marker is `InvariantViolation` —
    /// it cannot arise after phases A and B, which always set one.
    pub fn begin_hot(&self) -> (r: Result<(DataRequest, HashAndHeight), FirehoseError>)
        ensures
            r is Ok <==> self.head is Some,
            r matches Ok((req, head)) ==> {
                &&& req.from == self.from_block
                &&& req.to == self.to_block
                &&& req.logs@.len() == self.logs@.len()
                &&& forall|i: int|
                    0 <= i < self.logs@.len() ==> log_request_eq(
                        #[trigger] req.logs@[i],
                        self.logs@[i],
                    )
                &&& req.transactions@.len() == 0
                &&& head.same_spec(self.head->Some_0)
            },
            r is Err ==> r == Err::<(DataRequest, HashAndHeight), FirehoseError>(
                FirehoseError::InvariantViolation,
            ),
    {
        let head = match &self.head {
            Some(h) => h.dup(),
            None => return Err(FirehoseError::InvariantViolation),
        };
        Ok(
            (
                DataRequest {
                    from: self.from_block,
                    to: self.to_block,
                    logs: dup_logs(&self.logs),
                    transactions: Vec::new(),
                },
                head,
            ),
        )
    }
}

/// Whether a hot update is anchored on a different tip than the one last
/// tracked — a reorg.
pub open spec fn reorged(last_head: HashAndHeight, upd: HotUpdate) -> bool {
    !upd.base_head.same_spec(last_head)
}

/// Apply one hot update: on a diverging base head, first emit one `Undo`
/// response for the tracked height whose synthetic block carries the update's
/// base hash as parent; then emit every new block as a `New` response. The
/// returned marker — the last new block, or the base head when the update
/// carried none — becomes the tracked head for the next update.
#[verifier::loop_isolation(false)]
pub fn apply_hot_update(last_head: &HashAndHeight, upd: &HotUpdate) -> (r: Result<
    (Vec<Response>, HashAndHeight),
    FirehoseError,
>)
    ensures
        r is Ok <==> ((reorged(*last_head, *upd) ==> valid_prefix_hex(upd.base_head.hash@))
            && (forall|k: int| 0 <= k < upd.blocks@.len() ==> block_valid(#[trigger] upd.blocks@[k]))),
        r matches Ok((rs, nh)) ==> {
            let off: int = if reorged(*last_head, *upd) {
                1
            } else {
                0
            };
            &&& rs@.len() == upd.blocks@.len() + off
            &&& (reorged(*last_head, *upd) ==> is_undo_response(
                rs@[0],
                last_head.height,
                upd.base_head.hash@,
            ))
            &&& forall|k: int|
                0 <= k < upd.blocks@.len() ==> is_new_response_for(
                    #[trigger] rs@[k + off],
                    upd.blocks@[k],
                )
            &&& (upd.blocks@.len() == 0 ==> nh.same_spec(upd.base_head))
            &&& (upd.blocks@.len() > 0 ==> nh.hash@ == upd.blocks@.last().header.hash@
                && nh.height == upd.blocks@.last().header.number)
        },
        r is Err ==> (r == Err::<(Vec<Response>, HashAndHeight), FirehoseError>(
            FirehoseError::MalformedHex,
        ) || r == Err::<(Vec<Response>, HashAndHeight), FirehoseError>(
            FirehoseError::IntegerOverflow,
        ) || r == Err::<(Vec<Response>, HashAndHeight), FirehoseError>(
            FirehoseError::MissingRequiredField,
        )),
{
    let reorg = !last_head.same_as(&upd.base_head);
    let ghost off: int = if reorg {
        1
    } else {
        0
    };
    let mut out: Vec<Response> = Vec::new();
    if reorg {
        let parent_hash = match vec_from_hex(upd.base_head.hash.as_str()) {
            Ok(v) => v,
            Err(e) => return Err(e),
        };
        let mut header = canon::BlockHeader::zeroed();
        header.number = last_head.height;
        header.parent_hash = parent_hash;
        let block = canon::Block {
            ver: 0,
            hash: Vec::new(),
            number: 0,
            size: 0,
            header,
            transaction_traces: Vec::new(),
        };
        out.push(
            Response { block, step: ForkStep::Undo, cursor: u64_to_dec(last_head.height) },
        );
    }
    let mut k: usize = 0;
    while k < upd.blocks.len()
        invariant
            0 <= k <= upd.blocks@.len(),
            out@.len() == k + off,
            reorg ==> is_undo_response(out@[0], last_head.height, upd.base_head.hash@),
            forall|q: int| 0 <= q < k ==> block_valid(#[trigger] upd.blocks@[q]),
            forall|q: int|
                0 <= q < k ==> is_new_response_for(#[trigger] out@[q + off], upd.blocks@[q]),
        decreases upd.blocks@.len() - k,
    {
        let b = &upd.blocks[k];
        let cb = match block_from_raw(b) {
            Ok(cb) => cb,
            Err(e) => return Err(e),
        };
        out.push(Response { block: cb, step: ForkStep::New, cursor: u64_to_dec(b.header.number) });
        k = k + 1;
    }
    let new_head = if upd.blocks.len() == 0 {
        upd.base_head.dup()
    } else {
        let last = &upd.blocks[upd.blocks.len() - 1];
        HashAndHeight { hash: last.header.hash.clone(), height: last.header.number }
    };
    Ok((out, new_head))
}

/// Reference of a single-block request: an explicit height, a hash with its
/// height, or an opaque cursor to parse back into a height.
pub enum BlockRef {
    Number(u64),
    HashAndNumber(String, u64),
    Cursor(String),
}

/// Resolve a single-block reference to a height. Only an unparsable cursor is
/// `InvalidCursor`.
pub fn resolve_block_ref(r: &BlockRef) -> (res: Result<u64, FirehoseError>)
    ensures
        r matches BlockRef::Number(n) ==> res == Ok::<u64, FirehoseError>(*n),
        r matches BlockRef::HashAndNumber(_h, n) ==> res == Ok::<u64, FirehoseError>(*n),
        r matches BlockRef::Cursor(c) ==> {
            &&& res is Ok <==> valid_dec(c@)
            &&& (res matches Ok(v) ==> v as int == dec_uint(c@))
            &&& (res is Err ==> res == Err::<u64, FirehoseError>(FirehoseError::InvalidCursor))
        },
{
    match r {
        BlockRef::Number(n) => Ok(*n),
        BlockRef::HashAndNumber(_h, n) => Ok(*n),
        BlockRef::Cursor(c) => parse_dec(c.as_str()),
    }
}

/// The one-block archive fetch for a resolved height: the range `[num, num]`
/// with no filters.
pub fn single_block_request(num: u64) -> (r: DataRequest)
    ensures
        r.from == num,
        r.to == Some(num),
        r.logs@.len() == 0,
        r.transactions@.len() == 0,
{
    DataRequest { from: num, to: Some(num), logs: Vec::new(), transactions: Vec::new() }
}

/// Convert the archive's answer to a single-block fetch: the first returned
/// block, canonicalized; an empty answer is `NotFound`.
pub fn single_block_response(blocks: &Vec<data::Block>) -> (r: Result<
    canon::Block,
    FirehoseError,
>)
    ensures
        r is Ok <==> blocks@.len() > 0 && block_valid(blocks@[0]),
        r matches Ok(cb) ==> block_matches(blocks@[0], cb),
        blocks@.len() == 0 <==> r == Err::<canon::Block, FirehoseError>(FirehoseError::NotFound),
        blocks@.len() > 0 && r is Err ==> (r == Err::<canon::Block, FirehoseError>(
            FirehoseError::MalformedHex,
        ) || r == Err::<canon::Block, FirehoseError>(FirehoseError::IntegerOverflow) || r
            == Err::<canon::Block, FirehoseError>(FirehoseError::MissingRequiredField)),
{
    if blocks.len() == 0 {
        return Err(FirehoseError::NotFound);
    }
    match block_from_raw(&blocks[0]) {
        Ok(cb) => Ok(cb),
        Err(e) => Err(e),
    }
}

/// Law: a run of `New` responses produced from height-ascending blocks keeps
/// heights strictly ascending, and no `Undo` step appears among them.
pub proof fn lemma_new_responses_ascend(blocks: Seq<data::Block>, rs: Seq<Response>)
    requires
        rs.len() == blocks.len(),
        forall|k: int| 0 <= k < blocks.len() ==> is_new_response_for(#[trigger] rs[k], blocks[k]),
        forall|k: int|
            0 <= k < blocks.len() - 1 ==> (#[trigger] blocks[k].header.number)
                < blocks[k + 1].header.number,
    ensures
        forall|k: int| 0 <= k < rs.len() ==> (#[trigger] rs[k]).step == ForkStep::New,
        forall|k: int| 0 <= k < rs.len() ==> (#[trigger] rs[k]).block.number == blocks[k].header.number,
        forall|k: int|
            0 <= k < rs.len() - 1 ==> (#[trigger] rs[k]).block.number < rs[k + 1].block.number,
{
    assert(forall|k: int|
        0 <= k < rs.len() ==> is_new_response_for(#[trigger] rs[k], blocks[k]));
}

/// Law: canonicalization preserves each transaction's log group exactly — the
/// receipt of the transaction at position `i` carries the logs owned by its
/// transaction index, in their original order, with no drops and no
/// duplication.
pub proof fn lemma_receipt_logs_round_trip(b: data::Block, cb: canon::Block, i: int)
    requires
        block_matches(b, cb),
        0 <= i < b.transactions@.len(),
    ensures
        ({
            let g = logs_for(b.logs@, b.transactions@[i].transaction_index);
            &&& cb.transaction_traces@[i].receipt.logs@.len() == g.len()
            &&& forall|q: int|
                0 <= q < g.len() ==> log_matches(
                    g[q],
                    #[trigger] cb.transaction_traces@[i].receipt.logs@[q],
                )
        }),
{
    assert(crate::codec::tx_group_matches(b, i, cb.transaction_traces@[i]));
}

} // verus!
