//! Properties of the pipeline that relate several functions or hold of
//! every input.

use vstd::prelude::*;
use crate::aggregate::{activity_deltas, stats_deltas, total};
use crate::chain::{Action, ActionKind, Block, Transaction};
use crate::events::{
    action_event, action_record, block_events, events_upto, events_view, selected,
    trace_event, trace_events, Event, EventV,
};
use crate::identity::{
    anchored_of, anchored_traces, anchored_upto, block_anchored, content_hash_of, event_hash_of,
    put_hash, AnchoredV,
};

verus! {

/// Two event feeds that both meet the contract of `map_events` for one block
/// and one contract account are the same, field for field.
pub proof fn events_deterministic(block: Block, contract: Seq<char>, a: Seq<Event>, b: Seq<Event>)
    requires
        events_view(a) == block_events(block, contract),
        events_view(b) == block_events(block, contract),
    ensures
        events_view(a) == events_view(b),
{
}

/// Two anchored feeds that both meet the contract of `map_anchored_events` for
/// one block and one contract account are the same, field for field.
pub proof fn anchored_deterministic(
    block: Block,
    contract: Seq<char>,
    a: Seq<crate::identity::AnchoredEvent>,
    b: Seq<crate::identity::AnchoredEvent>,
)
    requires
        crate::identity::anchored_view(a) == block_anchored(block, contract),
        crate::identity::anchored_view(b) == block_anchored(block, contract),
    ensures
        crate::identity::anchored_view(a) == crate::identity::anchored_view(b),
{
}

/// Events keep trace order within a transaction: the events of the first `n`
/// traces are a prefix of the events of the first `m` traces, for `n <= m`.
pub proof fn events_keep_trace_order(block: Block, tx: Transaction, c: Seq<char>, n: int, m: int)
    requires
        0 <= n <= m,
    ensures
        trace_events(block, tx, c, n).len() <= trace_events(block, tx, c, m).len(),
        trace_events(block, tx, c, m).take(trace_events(block, tx, c, n).len() as int) == trace_events(block, tx, c, n),
    decreases m - n,
{
    if n < m {
        events_keep_trace_order(block, tx, c, n, m - 1);
        let short = trace_events(block, tx, c, n);
        let mid = trace_events(block, tx, c, m - 1);
        let long = trace_events(block, tx, c, m);
        assert(long.take(mid.len() as int) =~= mid);
        assert(long.take(short.len() as int) =~= mid.take(short.len() as int));
    } else {
        assert(trace_events(block, tx, c, m).take(trace_events(block, tx, c, n).len() as int) =~= trace_events(block, tx, c, n));
    }
}

proof fn lemma_trace_events_same(b1: Block, b2: Block, tx: Transaction, c: Seq<char>, n: int)
    requires
        b1.number == b2.number,
        b1.timestamp == b2.timestamp,
    ensures
        trace_events(b1, tx, c, n) == trace_events(b2, tx, c, n),
    decreases n,
{
    if n > 0 {
        lemma_trace_events_same(b1, b2, tx, c, n - 1);
    }
}

proof fn lemma_upto_prefix(block: Block, part: Block, c: Seq<char>, m: int)
    requires
        block.number == part.number,
        block.timestamp == part.timestamp,
        0 <= m <= part.transactions@.len(),
        part.transactions@.len() <= block.transactions@.len(),
        forall|i: int| 0 <= i < part.transactions@.len() ==> block.transactions@[i] == part.transactions@[i],
    ensures
        events_upto(block, c, m) == events_upto(part, c, m),
    decreases m,
{
    if m > 0 {
        lemma_upto_prefix(block, part, c, m - 1);
        let tx = block.transactions@[m - 1];
        lemma_trace_events_same(block, part, tx, c, tx.action_traces@.len() as int);
    }
}

proof fn lemma_upto_suffix(block: Block, first: Block, rest: Block, c: Seq<char>, m: int)
    requires
        block.number == rest.number,
        block.timestamp == rest.timestamp,
        block.transactions@ == first.transactions@ + rest.transactions@,
        0 <= m <= rest.transactions@.len(),
    ensures
        events_upto(block, c, first.transactions@.len() + m) == events_upto(block, c, first.transactions@.len() as int)
            + events_upto(rest, c, m),
    decreases m,
{
    let f = first.transactions@.len() as int;
    if m == 0 {
        assert(events_upto(block, c, f) + events_upto(rest, c, 0) =~= events_upto(block, c, f));
    } else {
        lemma_upto_suffix(block, first, rest, c, m - 1);
        let tx = rest.transactions@[m - 1];
        assert(block.transactions@[f + m - 1] == tx);
        lemma_trace_events_same(block, rest, tx, c, tx.action_traces@.len() as int);
        assert(events_upto(block, c, f + m) =~= events_upto(block, c, f) + events_upto(rest, c, m));
    }
}

/// Events keep transaction order: the events of a block whose transactions
/// are those of `first` followed by those of `rest` are the events of `first`
/// followed by the events of `rest`. Within a transaction they follow trace
/// order by the definition of `trace_events`.
pub proof fn events_keep_transaction_order(block: Block, first: Block, rest: Block, c: Seq<char>)
    requires
        block.number == first.number && block.number == rest.number,
        block.timestamp == first.timestamp && block.timestamp == rest.timestamp,
        block.transactions@ == first.transactions@ + rest.transactions@,
    ensures
        block_events(block, c) == block_events(first, c) + block_events(rest, c),
{
    let f = first.transactions@.len() as int;
    lemma_upto_prefix(block, first, c, f);
    lemma_upto_suffix(block, first, rest, c, rest.transactions@.len() as int);
}

proof fn lemma_total_concat(x: Seq<(Seq<char>, i64)>, y: Seq<(Seq<char>, i64)>, key: Seq<char>)
    ensures
        total(x + y, key) == total(x, key) + total(y, key),
    decreases y.len(),
{
    if y.len() == 0 {
        assert(x + y =~= x);
    } else {
        lemma_total_concat(x, y.drop_last(), key);
        assert((x + y).drop_last() =~= x + y.drop_last());
    }
}

proof fn lemma_stats_concat(a: Seq<EventV>, b: Seq<EventV>)
    ensures
        stats_deltas(a + b) == stats_deltas(a) + stats_deltas(b),
    decreases b.len(),
{
    if b.len() == 0 {
        assert(a + b =~= a);
        assert(stats_deltas(a) + stats_deltas(b) =~= stats_deltas(a));
    } else {
        lemma_stats_concat(a, b.drop_last());
        assert((a + b).drop_last() =~= a + b.drop_last());
        assert(stats_deltas(a + b) =~= stats_deltas(a) + stats_deltas(b));
    }
}

proof fn lemma_activity_concat(a: Seq<EventV>, b: Seq<EventV>)
    ensures
        activity_deltas(a + b) == activity_deltas(a) + activity_deltas(b),
    decreases b.len(),
{
    if b.len() == 0 {
        assert(a + b =~= a);
        assert(activity_deltas(a) + activity_deltas(b) =~= activity_deltas(a));
    } else {
        lemma_activity_concat(a, b.drop_last());
        assert((a + b).drop_last() =~= a + b.drop_last());
        assert(activity_deltas(a + b) =~= activity_deltas(a) + activity_deltas(b));
    }
}

/// Counting is additive: for events of a range split into two contiguous
/// parts `a` and `b`, every counter's sum over the whole range is the sum of
/// its sums over the two parts, for the global statistics and for
/// per-account activity alike.
pub proof fn counters_additive(a: Seq<EventV>, b: Seq<EventV>, key: Seq<char>)
    ensures
        total(stats_deltas(a + b), key) == total(stats_deltas(a), key) + total(stats_deltas(b), key),
        total(activity_deltas(a + b), key) == total(activity_deltas(a), key) + total(activity_deltas(b), key),
{
    lemma_stats_concat(a, b);
    lemma_total_concat(stats_deltas(a), stats_deltas(b), key);
    lemma_activity_concat(a, b);
    lemma_total_concat(activity_deltas(a), activity_deltas(b), key);
}

/// A `put` whose JSON form and whose binary form decode to the same record
/// gives the same event, and the same content hash, by either path. Where the
/// record names no hash, the content hash is the payload's identity, so the
/// two agree where their raw bytes do.
pub proof fn put_paths_agree(json: Action, raw: Action, tx_hash: Seq<char>, block: Block)
    requires
        json.name@ == raw.name@,
        json.name@ == "put"@,
        json.json is Document,
        raw.json is Absent,
        action_record(ActionKind::Put, json) is Some,
        action_record(ActionKind::Put, json) == action_record(ActionKind::Put, raw),
    ensures
        action_event(tx_hash, block, json) == action_event(tx_hash, block, raw),
        put_hash(json) == put_hash(raw),
        put_hash(json) is Some || json.raw_data@ == raw.raw_data@ ==> content_hash_of(ActionKind::Put, json)
            == content_hash_of(ActionKind::Put, raw),
{
}

proof fn lemma_anchored_traces(block: Block, tx: Transaction, c: Seq<char>, n: int)
    ensures
        forall|k: int|
            0 <= k < anchored_traces(block, tx, c, n).len() ==> {
                let v = #[trigger] anchored_traces(block, tx, c, n)[k];
                &&& v.event_hash == event_hash_of(v.raw_payload)
                &&& v.action_name != "put"@ ==> v.content_hash == v.event_hash
            },
    decreases n,
{
    if n > 0 {
        lemma_anchored_traces(block, tx, c, n - 1);
        let prev = anchored_traces(block, tx, c, n - 1);
        let t = tx.action_traces@[n - 1];
        match anchored_of(block, tx, t, c) {
            Some(v) => {
                assert(anchored_traces(block, tx, c, n) == prev.push(v));
                let a = t.action->Some_0;
                if a.name@ != "put"@ {
                    assert(crate::chain::kind_of_name(a.name@) != Some(ActionKind::Put));
                }
            },
            None => {
                assert(anchored_traces(block, tx, c, n) =~= prev);
            },
        }
    }
}

proof fn lemma_anchored_upto(block: Block, c: Seq<char>, m: int)
    ensures
        forall|k: int|
            0 <= k < anchored_upto(block, c, m).len() ==> {
                let v = #[trigger] anchored_upto(block, c, m)[k];
                &&& v.event_hash == event_hash_of(v.raw_payload)
                &&& v.action_name != "put"@ ==> v.content_hash == v.event_hash
            },
    decreases m,
{
    if m > 0 {
        lemma_anchored_upto(block, c, m - 1);
        let tx = block.transactions@[m - 1];
        let n = tx.action_traces@.len() as int;
        lemma_anchored_traces(block, tx, c, n);
        let prev = anchored_upto(block, c, m - 1);
        let more = anchored_traces(block, tx, c, n);
        assert forall|k: int| 0 <= k < anchored_upto(block, c, m).len() implies {
            let v = #[trigger] anchored_upto(block, c, m)[k];
            &&& v.event_hash == event_hash_of(v.raw_payload)
            &&& v.action_name != "put"@ ==> v.content_hash == v.event_hash
        } by {
            if k < prev.len() {
                assert(anchored_upto(block, c, m)[k] == prev[k]);
            } else {
                assert(anchored_upto(block, c, m)[k] == more[k - prev.len()]);
            }
        }
    }
}

/// The identity of every anchored event is the hash of its raw payload alone,
/// so two anchored events with the same payload bytes, in any transactions or
/// blocks, have the same `event_hash`; and every action but `put` has its
/// payload's identity as content hash.
pub proof fn anchored_identity_stable(block1: Block, c1: Seq<char>, i: int, block2: Block, c2: Seq<char>, j: int)
    requires
        0 <= i < block_anchored(block1, c1).len(),
        0 <= j < block_anchored(block2, c2).len(),
    ensures
        block_anchored(block1, c1)[i].raw_payload == block_anchored(block2, c2)[j].raw_payload
            ==> block_anchored(block1, c1)[i].event_hash == block_anchored(block2, c2)[j].event_hash,
        block_anchored(block1, c1)[i].event_hash == event_hash_of(block_anchored(block1, c1)[i].raw_payload),
        block_anchored(block1, c1)[i].action_name != "put"@ ==> block_anchored(block1, c1)[i].content_hash
            == block_anchored(block1, c1)[i].event_hash,
{
    lemma_anchored_upto(block1, c1, block1.transactions@.len() as int);
    lemma_anchored_upto(block2, c2, block2.transactions@.len() as int);
}

/// Whether event `e` is the event of the `j`-th trace of the `i`-th
/// transaction, a trace of the contract in an executed transaction.
pub open spec fn event_source(block: Block, c: Seq<char>, i: int, j: int, e: EventV) -> bool {
    0 <= i < block.transactions@.len() && 0 <= j < block.transactions@[i].action_traces@.len()
        && selected(block.transactions@[i], block.transactions@[i].action_traces@[j], c)
        && trace_event(block, block.transactions@[i], block.transactions@[i].action_traces@[j], c) == Some(e)
}

/// Whether event `e` is the event of some trace of the `i`-th transaction.
pub open spec fn from_transaction(block: Block, c: Seq<char>, i: int, e: EventV) -> bool {
    exists|j: int| event_source(block, c, i, j, e)
}

/// Whether event `e` is the event of some trace of the block.
pub open spec fn from_block(block: Block, c: Seq<char>, e: EventV) -> bool {
    exists|i: int| from_transaction(block, c, i, e)
}

proof fn lemma_trace_sources(block: Block, i: int, c: Seq<char>, n: int)
    requires
        0 <= i < block.transactions@.len(),
        n <= block.transactions@[i].action_traces@.len(),
    ensures
        forall|k: int|
            0 <= k < trace_events(block, block.transactions@[i], c, n).len() ==> from_transaction(
                block,
                c,
                i,
                #[trigger] trace_events(block, block.transactions@[i], c, n)[k],
            ),
    decreases n,
{
    let tx = block.transactions@[i];
    if n > 0 {
        lemma_trace_sources(block, i, c, n - 1);
        let prev = trace_events(block, tx, c, n - 1);
        let all = trace_events(block, tx, c, n);
        assert forall|k: int| 0 <= k < all.len() implies from_transaction(block, c, i, #[trigger] all[k]) by {
            if k < prev.len() {
                assert(all[k] == prev[k]);
            } else {
                assert(event_source(block, c, i, n - 1, all[k]));
            }
        }
    }
}

proof fn lemma_upto_sources(block: Block, c: Seq<char>, m: int)
    requires
        m <= block.transactions@.len(),
    ensures
        forall|k: int|
            0 <= k < events_upto(block, c, m).len() ==> from_block(block, c, #[trigger] events_upto(block, c, m)[k]),
    decreases m,
{
    if m > 0 {
        lemma_upto_sources(block, c, m - 1);
        let tx = block.transactions@[m - 1];
        let n = tx.action_traces@.len() as int;
        lemma_trace_sources(block, m - 1, c, n);
        let prev = events_upto(block, c, m - 1);
        let more = trace_events(block, tx, c, n);
        let all = events_upto(block, c, m);
        assert forall|k: int| 0 <= k < all.len() implies from_block(block, c, #[trigger] all[k]) by {
            if k < prev.len() {
                assert(all[k] == prev[k]);
            } else {
                assert(all[k] == more[k - prev.len()]);
                assert(from_transaction(block, c, m - 1, all[k]));
            }
        }
    }
}

/// Every event of a block comes from an action trace whose receiver is the
/// contract, in a transaction that executed: other traces never reach the feed.
pub proof fn events_only_from_selected(block: Block, c: Seq<char>, k: int)
    requires
        0 <= k < block_events(block, c).len(),
    ensures
        exists|i: int, j: int| event_source(block, c, i, j, block_events(block, c)[k]),
{
    lemma_upto_sources(block, c, block.transactions@.len() as int);
    let e = block_events(block, c)[k];
    assert(from_block(block, c, e));
    let i = choose|i: int| from_transaction(block, c, i, e);
    let j = choose|j: int| event_source(block, c, i, j, e);
    assert(event_source(block, c, i, j, e));
}

/// Whether anchored event `v` is that of the `j`-th trace of the `i`-th
/// transaction, a trace of the contract in an executed transaction.
pub open spec fn anchored_source(block: Block, c: Seq<char>, i: int, j: int, v: AnchoredV) -> bool {
    0 <= i < block.transactions@.len() && 0 <= j < block.transactions@[i].action_traces@.len()
        && selected(block.transactions@[i], block.transactions@[i].action_traces@[j], c)
        && anchored_of(block, block.transactions@[i], block.transactions@[i].action_traces@[j], c) == Some(v)
}

pub open spec fn anchored_from_transaction(block: Block, c: Seq<char>, i: int, v: AnchoredV) -> bool {
    exists|j: int| anchored_source(block, c, i, j, v)
}

pub open spec fn anchored_from_block(block: Block, c: Seq<char>, v: AnchoredV) -> bool {
    exists|i: int| anchored_from_transaction(block, c, i, v)
}

proof fn lemma_anchored_trace_sources(block: Block, i: int, c: Seq<char>, n: int)
    requires
        0 <= i < block.transactions@.len(),
        n <= block.transactions@[i].action_traces@.len(),
    ensures
        forall|k: int|
            0 <= k < anchored_traces(block, block.transactions@[i], c, n).len() ==> anchored_from_transaction(
                block,
                c,
                i,
                #[trigger] anchored_traces(block, block.transactions@[i], c, n)[k],
            ),
    decreases n,
{
    let tx = block.transactions@[i];
    if n > 0 {
        lemma_anchored_trace_sources(block, i, c, n - 1);
        let prev = anchored_traces(block, tx, c, n - 1);
        let all = anchored_traces(block, tx, c, n);
        assert forall|k: int| 0 <= k < all.len() implies anchored_from_transaction(block, c, i, #[trigger] all[k]) by {
            if k < prev.len() {
                assert(all[k] == prev[k]);
            } else {
                assert(anchored_source(block, c, i, n - 1, all[k]));
            }
        }
    }
}

proof fn lemma_anchored_upto_sources(block: Block, c: Seq<char>, m: int)
    requires
        m <= block.transactions@.len(),
    ensures
        forall|k: int|
            0 <= k < anchored_upto(block, c, m).len() ==> anchored_from_block(
                block,
                c,
                #[trigger] anchored_upto(block, c, m)[k],
            ),
    decreases m,
{
    if m > 0 {
        lemma_anchored_upto_sources(block, c, m - 1);
        let tx = block.transactions@[m - 1];
        let n = tx.action_traces@.len() as int;
        lemma_anchored_trace_sources(block, m - 1, c, n);
        let prev = anchored_upto(block, c, m - 1);
        let more = anchored_traces(block, tx, c, n);
        let all = anchored_upto(block, c, m);
        assert forall|k: int| 0 <= k < all.len() implies anchored_from_block(block, c, #[trigger] all[k]) by {
            if k < prev.len() {
                assert(all[k] == prev[k]);
            } else {
                assert(all[k] == more[k - prev.len()]);
                assert(anchored_from_transaction(block, c, m - 1, all[k]));
            }
        }
    }
}

/// Every anchored event of a block comes from an action trace whose receiver
/// is the contract, in a transaction that executed.
pub proof fn anchored_only_from_selected(block: Block, c: Seq<char>, k: int)
    requires
        0 <= k < block_anchored(block, c).len(),
    ensures
        exists|i: int, j: int| anchored_source(block, c, i, j, block_anchored(block, c)[k]),
{
    lemma_anchored_upto_sources(block, c, block.transactions@.len() as int);
    let v = block_anchored(block, c)[k];
    assert(anchored_from_block(block, c, v));
    let i = choose|i: int| anchored_from_transaction(block, c, i, v);
    let j = choose|j: int| anchored_source(block, c, i, j, v);
    assert(anchored_source(block, c, i, j, v));
}

} // verus!
