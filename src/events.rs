//! Normalised events, their extraction from decoded actions, and the walk
//! over a block's actions.

use vstd::prelude::*;
use crate::chain::{
    kind_of_name, texts, pairs_view, Action, ActionKind, ActionRecord, ActionTrace,
    AttestV, Block, JsonPayload, LikeV, RecordV, RespectPair, StakeV, Transaction,
    action_kind,
};
use crate::decode::{decode_raw, raw_record};
use crate::json::{decode_json, json_record};
use crate::text::{hex_encode, hex_of, same_text};

verus! {

pub struct PutEvent {
    pub author: String,
    pub type_: u8,
    pub hash: String,
    /// The parent's hash, empty when the entry has none.
    pub parent: String,
    pub ts: u32,
    pub tags: Vec<String>,
    /// Not carried by the action: always 0.
    pub expires_at: u64,
}

pub struct AttestEvent {
    pub attestor: String,
    pub tx_hash: String,
    pub confirmed_type: u8,
}

pub struct VoteEvent {
    pub voter: String,
    pub tx_hash: String,
    pub val: i8,
    /// Needs a table lookup: always 0.
    pub weight: u64,
}

pub struct FinalizeEvent {
    pub tx_hash: String,
    /// Needs the tally of the votes: always false.
    pub accepted: bool,
    /// Needs the tally of the votes: always 0.
    pub approval_percent: u32,
    /// Needs the inline actions: always 0.
    pub reward_amount: u64,
}

/// The payload of a `stake` or of an `unstake` event.
pub struct StakeEvent {
    pub account: String,
    pub node_id: String,
    pub quantity: String,
}

pub struct LikeEvent {
    pub account: String,
    pub node_id: String,
    pub path: Vec<String>,
}

pub struct UnlikeEvent {
    pub account: String,
    pub node_id: String,
}

pub struct RespectUpdate {
    pub account: String,
    pub respect: u32,
}

pub struct UpdateRespectEvent {
    pub updates: Vec<RespectUpdate>,
    pub election_round: u64,
}

pub enum EventData {
    Put(PutEvent),
    Attest(AttestEvent),
    Vote(VoteEvent),
    Finalize(FinalizeEvent),
    Stake(StakeEvent),
    Unstake(StakeEvent),
    Like(LikeEvent),
    Unlike(UnlikeEvent),
    UpdateRespect(UpdateRespectEvent),
}

/// One event of the registry, with where it happened.
pub struct Event {
    /// Hex text of the bytes of the transaction's identifier.
    pub tx_hash: String,
    pub block_num: u64,
    pub timestamp: u64,
    pub event_type: ActionKind,
    pub data: EventData,
}

pub ghost struct PutEventV {
    pub author: Seq<char>,
    pub type_: u8,
    pub hash: Seq<char>,
    pub parent: Seq<char>,
    pub ts: u32,
    pub tags: Seq<Seq<char>>,
    pub expires_at: u64,
}

pub ghost struct VoteEventV {
    pub voter: Seq<char>,
    pub tx_hash: Seq<char>,
    pub val: i8,
    pub weight: u64,
}

pub ghost struct FinalizeEventV {
    pub tx_hash: Seq<char>,
    pub accepted: bool,
    pub approval_percent: u32,
    pub reward_amount: u64,
}

pub ghost enum EventDataV {
    Put(PutEventV),
    Attest(AttestV),
    Vote(VoteEventV),
    Finalize(FinalizeEventV),
    Stake(StakeV),
    Unstake(StakeV),
    Like(LikeV),
    Unlike(Seq<char>, Seq<char>),
    UpdateRespect(Seq<(Seq<char>, u32)>, u64),
}

pub ghost struct EventV {
    pub tx_hash: Seq<char>,
    pub block_num: u64,
    pub timestamp: u64,
    pub event_type: ActionKind,
    pub data: EventDataV,
}

pub open spec fn updates_view(v: Seq<RespectUpdate>) -> Seq<(Seq<char>, u32)> {
    v.map_values(|u: RespectUpdate| (u.account@, u.respect))
}

impl View for StakeEvent {
    type V = StakeV;

    open spec fn view(&self) -> StakeV {
        StakeV { account: self.account@, node_id: self.node_id@, quantity: self.quantity@ }
    }
}

impl View for EventData {
    type V = EventDataV;

    open spec fn view(&self) -> EventDataV {
        match self {
            EventData::Put(p) => EventDataV::Put(
                PutEventV {
                    author: p.author@,
                    type_: p.type_,
                    hash: p.hash@,
                    parent: p.parent@,
                    ts: p.ts,
                    tags: texts(p.tags@),
                    expires_at: p.expires_at,
                },
            ),
            EventData::Attest(a) => EventDataV::Attest(
                AttestV { attestor: a.attestor@, tx_hash: a.tx_hash@, confirmed_type: a.confirmed_type },
            ),
            EventData::Vote(v) => EventDataV::Vote(
                VoteEventV { voter: v.voter@, tx_hash: v.tx_hash@, val: v.val, weight: v.weight },
            ),
            EventData::Finalize(f) => EventDataV::Finalize(
                FinalizeEventV {
                    tx_hash: f.tx_hash@,
                    accepted: f.accepted,
                    approval_percent: f.approval_percent,
                    reward_amount: f.reward_amount,
                },
            ),
            EventData::Stake(s) => EventDataV::Stake(s@),
            EventData::Unstake(s) => EventDataV::Unstake(s@),
            EventData::Like(l) => EventDataV::Like(
                LikeV { account: l.account@, node_id: l.node_id@, node_path: texts(l.path@) },
            ),
            EventData::Unlike(u) => EventDataV::Unlike(u.account@, u.node_id@),
            EventData::UpdateRespect(u) => EventDataV::UpdateRespect(
                updates_view(u.updates@),
                u.election_round,
            ),
        }
    }
}

impl View for Event {
    type V = EventV;

    open spec fn view(&self) -> EventV {
        EventV {
            tx_hash: self.tx_hash@,
            block_num: self.block_num,
            timestamp: self.timestamp,
            event_type: self.event_type,
            data: self.data@,
        }
    }
}

/// The event payload for a decoded record: fields copied, an absent parent
/// as empty text, and the fields that the action does not carry at zero.
pub open spec fn payload_of(r: RecordV) -> EventDataV {
    match r {
        RecordV::Put(p) => EventDataV::Put(
            PutEventV {
                author: p.author,
                type_: p.kind,
                hash: p.hash,
                parent: match p.parent {
                    Some(h) => h,
                    None => Seq::empty(),
                },
                ts: p.ts,
                tags: p.tags,
                expires_at: 0,
            },
        ),
        RecordV::Attest(a) => EventDataV::Attest(a),
        RecordV::Vote(v) => EventDataV::Vote(
            VoteEventV { voter: v.voter, tx_hash: v.tx_hash, val: v.val, weight: 0 },
        ),
        RecordV::Finalize(h) => EventDataV::Finalize(
            FinalizeEventV { tx_hash: h, accepted: false, approval_percent: 0, reward_amount: 0 },
        ),
        RecordV::Stake(s) => EventDataV::Stake(s),
        RecordV::Unstake(s) => EventDataV::Unstake(s),
        RecordV::Like(l) => EventDataV::Like(l),
        RecordV::Unlike(a, n) => EventDataV::Unlike(a, n),
        RecordV::UpdateRespect(u, round) => EventDataV::UpdateRespect(u, round),
    }
}

/// The event for a decoded record in its block and transaction context.
pub open spec fn event_of(tx_hash: Seq<char>, block_num: u64, timestamp: u64, r: RecordV) -> EventV {
    EventV { tx_hash, block_num, timestamp, event_type: r.kind(), data: payload_of(r) }
}

fn clone_texts(v: &Vec<String>) -> (r: Vec<String>)
    ensures
        texts(r@) == texts(v@),
{
    let mut out: Vec<String> = Vec::new();
    let mut i: usize = 0;
    while i < v.len()
        invariant
            i <= v@.len(),
            out@.len() == i,
            forall|j: int| 0 <= j < i ==> out@[j]@ == v@[j]@,
        decreases v@.len() - i,
    {
        out.push(v[i].clone());
        i = i + 1;
    }
    assert(texts(out@) =~= texts(v@));
    out
}

fn updates_of(v: &Vec<RespectPair>) -> (r: Vec<RespectUpdate>)
    ensures
        updates_view(r@) == pairs_view(v@),
{
    let mut out: Vec<RespectUpdate> = Vec::new();
    let mut i: usize = 0;
    while i < v.len()
        invariant
            i <= v@.len(),
            out@.len() == i,
            forall|j: int| 0 <= j < i ==> out@[j].account@ == v@[j].account@ && out@[j].respect == v@[j].respect,
        decreases v@.len() - i,
    {
        out.push(RespectUpdate { account: v[i].account.clone(), respect: v[i].respect });
        i = i + 1;
    }
    assert(updates_view(out@) =~= pairs_view(v@));
    out
}

/// Builds the event for a decoded record.
pub fn event_from_record(tx_hash: &String, block_num: u64, timestamp: u64, r: &ActionRecord) -> (e: Event)
    ensures
        e@ == event_of(tx_hash@, block_num, timestamp, r@),
{
    let (event_type, data) = match r {
        ActionRecord::Put(p) => (
            ActionKind::Put,
            EventData::Put(
                PutEvent {
                    author: p.author.clone(),
                    type_: p.kind,
                    hash: p.hash.clone(),
                    parent: match &p.parent {
                        Some(h) => h.clone(),
                        None => String::new(),
                    },
                    ts: p.ts,
                    tags: clone_texts(&p.tags),
                    expires_at: 0,
                },
            ),
        ),
        ActionRecord::Attest(a) => (
            ActionKind::Attest,
            EventData::Attest(
                AttestEvent {
                    attestor: a.attestor.clone(),
                    tx_hash: a.tx_hash.clone(),
                    confirmed_type: a.confirmed_type,
                },
            ),
        ),
        ActionRecord::Vote(v) => (
            ActionKind::Vote,
            EventData::Vote(
                VoteEvent { voter: v.voter.clone(), tx_hash: v.tx_hash.clone(), val: v.val, weight: 0 },
            ),
        ),
        ActionRecord::Finalize(f) => (
            ActionKind::Finalize,
            EventData::Finalize(
                FinalizeEvent {
                    tx_hash: f.tx_hash.clone(),
                    accepted: false,
                    approval_percent: 0,
                    reward_amount: 0,
                },
            ),
        ),
        ActionRecord::Stake(s) => (
            ActionKind::Stake,
            EventData::Stake(
                StakeEvent {
                    account: s.account.clone(),
                    node_id: s.node_id.clone(),
                    quantity: s.quantity.clone(),
                },
            ),
        ),
        ActionRecord::Unstake(s) => (
            ActionKind::Unstake,
            EventData::Unstake(
                StakeEvent {
                    account: s.account.clone(),
                    node_id: s.node_id.clone(),
                    quantity: s.quantity.clone(),
                },
            ),
        ),
        ActionRecord::Like(l) => (
            ActionKind::Like,
            EventData::Like(
                LikeEvent {
                    account: l.account.clone(),
                    node_id: l.node_id.clone(),
                    path: clone_texts(&l.node_path),
                },
            ),
        ),
        ActionRecord::Unlike(u) => (
            ActionKind::Unlike,
            EventData::Unlike(UnlikeEvent { account: u.account.clone(), node_id: u.node_id.clone() }),
        ),
        ActionRecord::UpdateRespect(u) => (
            ActionKind::UpdateRespect,
            EventData::UpdateRespect(
                UpdateRespectEvent {
                    updates: updates_of(&u.respect_data),
                    election_round: u.election_round,
                },
            ),
        ),
    };
    Event { tx_hash: tx_hash.clone(), block_num, timestamp, event_type, data }
}

/// The record of an action's arguments, by the JSON path when the action has a
/// JSON representation and by its binary payload otherwise.
pub open spec fn action_record(kind: ActionKind, a: Action) -> Option<RecordV> {
    match a.json {
        JsonPayload::Document(d) => json_record(kind, d),
        JsonPayload::Malformed => None,
        JsonPayload::Absent => raw_record(kind, a.raw_data@),
    }
}

/// The event of an action of a transaction whose identifier's hex text is `tx_hash`.
pub open spec fn action_event(tx_hash: Seq<char>, block: Block, a: Action) -> Option<EventV> {
    match kind_of_name(a.name@) {
        Some(k) => match action_record(k, a) {
            Some(r) => match block.timestamp {
                Some(ts) => Some(event_of(tx_hash, block.number, ts, r)),
                None => None,
            },
            None => None,
        },
        None => None,
    }
}

/// Whether an action trace is one of the contract's, in an executed transaction.
pub open spec fn selected(tx: Transaction, t: ActionTrace, contract: Seq<char>) -> bool {
    tx.executed && t.receiver@ == contract
}

/// The event of one action trace, if it has one.
pub open spec fn trace_event(block: Block, tx: Transaction, t: ActionTrace, contract: Seq<char>) -> Option<EventV> {
    if selected(tx, t, contract) {
        match t.action {
            Some(a) => action_event(hex_of(tx.id@), block, a),
            None => None,
        }
    } else {
        None
    }
}

pub open spec fn opt_seq<T>(o: Option<T>) -> Seq<T> {
    match o {
        Some(x) => seq![x],
        None => Seq::empty(),
    }
}

/// The events of the first `n` action traces of a transaction, in order.
pub open spec fn trace_events(block: Block, tx: Transaction, contract: Seq<char>, n: int) -> Seq<EventV>
    decreases n,
{
    if n <= 0 {
        Seq::empty()
    } else {
        trace_events(block, tx, contract, n - 1) + opt_seq(
            trace_event(block, tx, tx.action_traces@[n - 1], contract),
        )
    }
}

/// The events of the first `m` transactions of a block, in order.
pub open spec fn events_upto(block: Block, contract: Seq<char>, m: int) -> Seq<EventV>
    decreases m,
{
    if m <= 0 {
        Seq::empty()
    } else {
        let tx = block.transactions@[m - 1];
        events_upto(block, contract, m - 1) + trace_events(block, tx, contract, tx.action_traces@.len() as int)
    }
}

/// The events of a block: transactions in block order, each one's action
/// traces in trace order.
pub open spec fn block_events(block: Block, contract: Seq<char>) -> Seq<EventV> {
    events_upto(block, contract, block.transactions@.len() as int)
}

/// The contract account that a configuration string names.
pub open spec fn contract_of(params: Seq<char>) -> Seq<char> {
    if params.len() == 0 {
        "polaris"@
    } else {
        params
    }
}

pub open spec fn events_view(v: Seq<Event>) -> Seq<EventV> {
    v.map_values(|e: Event| e@)
}

/// The output of the event feed.
pub struct Events {
    pub events: Vec<Event>,
}

/// Extracts the event of one action, or `None` where its name is not one of
/// the contract's nine actions, its arguments do not decode, or the block has
/// no timestamp.
pub fn extract_event(tx_hash: &String, block: &Block, action: &Action) -> (r: Option<Event>)
    ensures
        match r {
            Some(e) => action_event(tx_hash@, *block, *action) == Some(e@),
            None => action_event(tx_hash@, *block, *action) is None,
        },
{
    let kind = match action_kind(action.name.as_str()) {
        Some(k) => k,
        None => return None,
    };
    let ts = match block.timestamp {
        Some(ts) => ts,
        None => return None,
    };
    match &action.json {
        JsonPayload::Document(d) => match decode_json(kind, d) {
            Some(r) => Some(event_from_record(tx_hash, block.number, ts, &r)),
            None => None,
        },
        JsonPayload::Malformed => None,
        JsonPayload::Absent => match decode_raw(kind, action.raw_data.as_slice()) {
            Some(r) => Some(event_from_record(tx_hash, block.number, ts, &r)),
            None => None,
        },
    }
}

proof fn lemma_unexecuted(block: Block, tx: Transaction, contract: Seq<char>, n: int)
    requires
        !tx.executed,
    ensures
        trace_events(block, tx, contract, n) == Seq::<EventV>::empty(),
    decreases n,
{
    if n > 0 {
        lemma_unexecuted(block, tx, contract, n - 1);
        assert(trace_events(block, tx, contract, n) =~= Seq::<EventV>::empty());
    }
}

/// Extracts the registry's events from a block, in execution order.
///
/// `params` names the contract account; empty, it is `polaris`.
pub fn map_events(params: &str, block: &Block) -> (r: Events)
    ensures
        events_view(r.events@) == block_events(*block, contract_of(params@)),
{
    let contract: &str = if params.unicode_len() == 0 { "polaris" } else { params };
    let ghost c = contract_of(params@);
    assert(contract@ == c);
    let mut events: Vec<Event> = Vec::new();
    let mut m: usize = 0;
    while m < block.transactions.len()
        invariant
            m <= block.transactions@.len(),
            contract@ == c,
            events_view(events@) == events_upto(*block, c, m as int),
        decreases block.transactions@.len() - m,
    {
        let tx = &block.transactions[m];
        let n = tx.action_traces.len();
        if tx.executed {
            let tx_hash = hex_encode(tx.id.as_slice());
            let mut j: usize = 0;
            while j < n
                invariant
                    j <= n,
                    n == tx.action_traces@.len(),
                    tx == block.transactions@[m as int],
                    tx.executed,
                    tx_hash@ == hex_of(tx.id@),
                    contract@ == c,
                    events_view(events@) == events_upto(*block, c, m as int) + trace_events(*block, *tx, c, j as int),
                decreases n - j,
            {
                let t = &tx.action_traces[j];
                let ghost before = events@;
                if same_text(t.receiver.as_str(), contract) {
                    match &t.action {
                        Some(a) => {
                            match extract_event(&tx_hash, block, a) {
                                Some(e) => {
                                    events.push(e);
                                    assert(events_view(events@) =~= events_view(before).push(e@));
                                },
                                None => {},
                            }
                        },
                        None => {},
                    }
                }
                proof {
                    let prev = trace_events(*block, *tx, c, j as int);
                    let o = trace_event(*block, *tx, tx.action_traces@[j as int], c);
                    assert(trace_events(*block, *tx, c, j + 1) == prev + opt_seq(o));
                    match o {
                        Some(x) => {
                            assert(events_view(events@) =~= events_upto(*block, c, m as int) + prev + seq![x]);
                        },
                        None => {
                            assert(events_view(events@) =~= events_upto(*block, c, m as int) + prev);
                        },
                    }
                    assert(events_view(events@) =~= events_upto(*block, c, m as int) + trace_events(*block, *tx, c, j + 1));
                }
                j = j + 1;
            }
        } else {
            proof {
                lemma_unexecuted(*block, *tx, c, n as int);
            }
        }
        assert(events_view(events@) =~= events_upto(*block, c, m + 1));
        m = m + 1;
    }
    Events { events }
}

} // verus!
