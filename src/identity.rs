//! Content identity of actions, and the provenance-preserving anchored feed.

use vstd::prelude::*;
use crate::chain::{kind_of_name, Action, ActionKind, ActionRecord, Block, JsonPayload, RecordV, Transaction, action_kind};
use crate::decode::decode_raw;
use crate::json::decode_json;
use crate::events::{action_record, opt_seq, selected, contract_of};
use crate::text::{hex_encode, hex_of, same_text};

verus! {

/// The SHA-256 digest of a byte sequence.
pub uninterp spec fn sha256_of(b: Seq<u8>) -> Seq<u8>;

/// Relies on sha2's `Sha256::digest`: the 32-byte SHA-256 digest of the input.
#[verifier::external_body]
fn sha256(b: &[u8]) -> (r: Vec<u8>)
    ensures
        r@ == sha256_of(b@),
        r@.len() == 32,
{
    <sha2::Sha256 as sha2::Digest>::digest(b).to_vec()
}

/// The identity of a payload: hex text of the SHA-256 digest of its bytes.
pub open spec fn event_hash_of(raw: Seq<u8>) -> Seq<char> {
    hex_of(sha256_of(raw))
}

/// The content hash that a `put` action's arguments name, when they decode
/// and the hash is not empty.
pub open spec fn put_hash(a: Action) -> Option<Seq<char>> {
    match action_record(ActionKind::Put, a) {
        Some(RecordV::Put(p)) => if p.hash.len() > 0 {
            Some(p.hash)
        } else {
            None
        },
        _ => None,
    }
}

/// The content hash of an action: for `put`, the hash its arguments name, else
/// (and for every other action) its payload's identity.
pub open spec fn content_hash_of(kind: ActionKind, a: Action) -> Seq<char> {
    if kind == ActionKind::Put {
        match put_hash(a) {
            Some(h) => h,
            None => event_hash_of(a.raw_data@),
        }
    } else {
        event_hash_of(a.raw_data@)
    }
}

/// Whether the content hash of an action fell back to its payload's identity
/// where its arguments should have named one.
pub open spec fn falls_back(kind: ActionKind, a: Action) -> bool {
    kind == ActionKind::Put && put_hash(a) is None
}

/// Computes the identity of a payload.
pub fn event_hash(raw: &[u8]) -> (r: String)
    ensures
        r@ == event_hash_of(raw@),
{
    let digest = sha256(raw);
    hex_encode(digest.as_slice())
}

/// The hash that a decoded `put` record names, if not empty.
fn named_hash(r: &ActionRecord) -> (h: Option<String>)
    ensures
        match h {
            Some(s) => r@ matches RecordV::Put(p) && p.hash.len() > 0 && s@ == p.hash,
            None => !(r@ matches RecordV::Put(p) && p.hash.len() > 0),
        },
{
    match r {
        ActionRecord::Put(p) => {
            if p.hash.as_str().unicode_len() > 0 {
                Some(p.hash.clone())
            } else {
                None
            }
        },
        _ => None,
    }
}

/// Resolves the content hash and the payload identity of an action of the
/// given kind; the flag tells whether the content hash fell back.
pub fn resolve(kind: ActionKind, a: &Action) -> (r: (String, String, bool))
    ensures
        r.0@ == content_hash_of(kind, *a),
        r.1@ == event_hash_of(a.raw_data@),
        r.2 == falls_back(kind, *a),
{
    let event = event_hash(a.raw_data.as_slice());
    if kind != ActionKind::Put {
        let content = event.clone();
        return (content, event, false);
    }
    let named = match &a.json {
        JsonPayload::Document(d) => match decode_json(ActionKind::Put, d) {
            Some(r) => named_hash(&r),
            None => None,
        },
        JsonPayload::Malformed => None,
        JsonPayload::Absent => match decode_raw(ActionKind::Put, a.raw_data.as_slice()) {
            Some(r) => named_hash(&r),
            None => None,
        },
    };
    match named {
        Some(h) => (h, event, false),
        None => {
            let content = event.clone();
            (content, event, true)
        },
    }
}

/// An action of the registry with its full provenance.
pub struct AnchoredEvent {
    pub content_hash: String,
    pub event_hash: String,
    pub raw_payload: Vec<u8>,
    pub block_number: u64,
    pub block_id: String,
    /// Hex text of the bytes of the transaction's identifier.
    pub transaction_id: String,
    pub action_ordinal: u32,
    pub timestamp: u64,
    pub source_tag: String,
    pub contract_account: String,
    pub action_name: String,
    /// Set where the content hash fell back to the payload's identity.
    pub content_hash_fallback: bool,
}

pub ghost struct AnchoredV {
    pub content_hash: Seq<char>,
    pub event_hash: Seq<char>,
    pub raw_payload: Seq<u8>,
    pub block_number: u64,
    pub block_id: Seq<char>,
    pub transaction_id: Seq<char>,
    pub action_ordinal: u32,
    pub timestamp: u64,
    pub source_tag: Seq<char>,
    pub contract_account: Seq<char>,
    pub action_name: Seq<char>,
    pub content_hash_fallback: bool,
}

impl View for AnchoredEvent {
    type V = AnchoredV;

    open spec fn view(&self) -> AnchoredV {
        AnchoredV {
            content_hash: self.content_hash@,
            event_hash: self.event_hash@,
            raw_payload: self.raw_payload@,
            block_number: self.block_number,
            block_id: self.block_id@,
            transaction_id: self.transaction_id@,
            action_ordinal: self.action_ordinal,
            timestamp: self.timestamp,
            source_tag: self.source_tag@,
            contract_account: self.contract_account@,
            action_name: self.action_name@,
            content_hash_fallback: self.content_hash_fallback,
        }
    }
}

/// The tag that marks where anchored events come from.
pub open spec fn source_tag() -> Seq<char> {
    "antelope"@
}

/// The anchored event of one action trace: every action of the contract whose
/// name is one of its nine, in an executed transaction of a block with a
/// timestamp, whether or not its arguments decode.
pub open spec fn anchored_of(block: Block, tx: Transaction, t: crate::chain::ActionTrace, contract: Seq<char>) -> Option<AnchoredV> {
    if selected(tx, t, contract) {
        match t.action {
            Some(a) => match kind_of_name(a.name@) {
                Some(k) => match block.timestamp {
                    Some(ts) => Some(
                        AnchoredV {
                            content_hash: content_hash_of(k, a),
                            event_hash: event_hash_of(a.raw_data@),
                            raw_payload: a.raw_data@,
                            block_number: block.number,
                            block_id: block.id@,
                            transaction_id: hex_of(tx.id@),
                            action_ordinal: t.ordinal,
                            timestamp: ts,
                            source_tag: source_tag(),
                            contract_account: contract,
                            action_name: a.name@,
                            content_hash_fallback: falls_back(k, a),
                        },
                    ),
                    None => None,
                },
                None => None,
            },
            None => None,
        }
    } else {
        None
    }
}

/// The anchored events of the first `n` action traces of a transaction.
pub open spec fn anchored_traces(block: Block, tx: Transaction, contract: Seq<char>, n: int) -> Seq<AnchoredV>
    decreases n,
{
    if n <= 0 {
        Seq::empty()
    } else {
        anchored_traces(block, tx, contract, n - 1) + opt_seq(
            anchored_of(block, tx, tx.action_traces@[n - 1], contract),
        )
    }
}

/// The anchored events of the first `m` transactions of a block.
pub open spec fn anchored_upto(block: Block, contract: Seq<char>, m: int) -> Seq<AnchoredV>
    decreases m,
{
    if m <= 0 {
        Seq::empty()
    } else {
        let tx = block.transactions@[m - 1];
        anchored_upto(block, contract, m - 1) + anchored_traces(block, tx, contract, tx.action_traces@.len() as int)
    }
}

/// The anchored events of a block, in execution order.
pub open spec fn block_anchored(block: Block, contract: Seq<char>) -> Seq<AnchoredV> {
    anchored_upto(block, contract, block.transactions@.len() as int)
}

pub open spec fn anchored_view(v: Seq<AnchoredEvent>) -> Seq<AnchoredV> {
    v.map_values(|e: AnchoredEvent| e@)
}

/// The output of the anchored feed.
pub struct AnchoredEvents {
    pub events: Vec<AnchoredEvent>,
}

proof fn lemma_unexecuted(block: Block, tx: Transaction, contract: Seq<char>, n: int)
    requires
        !tx.executed,
    ensures
        anchored_traces(block, tx, contract, n) == Seq::<AnchoredV>::empty(),
    decreases n,
{
    if n > 0 {
        lemma_unexecuted(block, tx, contract, n - 1);
        assert(anchored_traces(block, tx, contract, n) =~= Seq::<AnchoredV>::empty());
    }
}

fn anchor(block: &Block, tx_id: &String, t: &crate::chain::ActionTrace, a: &Action, contract: &str, ts: u64, kind: ActionKind) -> (r: AnchoredEvent)
    requires
        kind_of_name(a.name@) == Some(kind),
        block.timestamp == Some(ts),
    ensures
        r@ == (AnchoredV {
            content_hash: content_hash_of(kind, *a),
            event_hash: event_hash_of(a.raw_data@),
            raw_payload: a.raw_data@,
            block_number: block.number,
            block_id: block.id@,
            transaction_id: tx_id@,
            action_ordinal: t.ordinal,
            timestamp: ts,
            source_tag: source_tag(),
            contract_account: contract@,
            action_name: a.name@,
            content_hash_fallback: falls_back(kind, *a),
        }),
{
    let (content_hash, event_hash, fallback) = resolve(kind, a);
    AnchoredEvent {
        content_hash,
        event_hash,
        raw_payload: a.raw_data.clone(),
        block_number: block.number,
        block_id: block.id.clone(),
        transaction_id: tx_id.clone(),
        action_ordinal: t.ordinal,
        timestamp: ts,
        source_tag: String::from_str("antelope"),
        contract_account: String::from_str(contract),
        action_name: a.name.clone(),
        content_hash_fallback: fallback,
    }
}

/// Lists the registry's actions of a block with their content identity and
/// provenance, in execution order.
///
/// `params` names the contract account; empty, it is `polaris`.
pub fn map_anchored_events(params: &str, block: &Block) -> (r: AnchoredEvents)
    ensures
        anchored_view(r.events@) == block_anchored(*block, contract_of(params@)),
{
    let contract: &str = if params.unicode_len() == 0 { "polaris" } else { params };
    let ghost c = contract_of(params@);
    assert(contract@ == c);
    let mut events: Vec<AnchoredEvent> = Vec::new();
    let mut m: usize = 0;
    while m < block.transactions.len()
        invariant
            m <= block.transactions@.len(),
            contract@ == c,
            anchored_view(events@) == anchored_upto(*block, c, m as int),
        decreases block.transactions@.len() - m,
    {
        let tx = &block.transactions[m];
        let n = tx.action_traces.len();
        if tx.executed {
            let tx_id = hex_encode(tx.id.as_slice());
            let mut j: usize = 0;
            while j < n
                invariant
                    j <= n,
                    n == tx.action_traces@.len(),
                    tx == block.transactions@[m as int],
                    tx.executed,
                    tx_id@ == hex_of(tx.id@),
                    contract@ == c,
                    anchored_view(events@) == anchored_upto(*block, c, m as int) + anchored_traces(*block, *tx, c, j as int),
                decreases n - j,
            {
                let t = &tx.action_traces[j];
                let ghost before = events@;
                if same_text(t.receiver.as_str(), contract) {
                    match &t.action {
                        Some(a) => match action_kind(a.name.as_str()) {
                            Some(kind) => match block.timestamp {
                                Some(ts) => {
                                    let e = anchor(block, &tx_id, t, a, contract, ts, kind);
                                    events.push(e);
                                    assert(anchored_view(events@) =~= anchored_view(before).push(e@));
                                },
                                None => {},
                            },
                            None => {},
                        },
                        None => {},
                    }
                }
                proof {
                    let prev = anchored_traces(*block, *tx, c, j as int);
                    let o = anchored_of(*block, *tx, tx.action_traces@[j as int], c);
                    assert(anchored_traces(*block, *tx, c, j + 1) == prev + opt_seq(o));
                    match o {
                        Some(x) => {
                            assert(anchored_view(events@) =~= anchored_upto(*block, c, m as int) + prev + seq![x]);
                        },
                        None => {
                            assert(anchored_view(events@) =~= anchored_upto(*block, c, m as int) + prev);
                        },
                    }
                    assert(anchored_view(events@) =~= anchored_upto(*block, c, m as int) + anchored_traces(*block, *tx, c, j + 1));
                }
                j = j + 1;
            }
        } else {
            proof {
                lemma_unexecuted(*block, *tx, c, n as int);
            }
        }
        assert(anchored_view(events@) =~= anchored_upto(*block, c, m + 1));
        m = m + 1;
    }
    AnchoredEvents { events }
}

} // verus!
