use polaris_indexer::aggregate::{map_stats, store_account_activity, store_stats, CounterStore};
use polaris_indexer::binary::{asset_string, name_string, read_varuint};
use polaris_indexer::chain::{Action, ActionKind, ActionTrace, Block, JsonPayload, Transaction};
use polaris_indexer::decode::decode_raw;
use polaris_indexer::events::{map_events, EventData, Events};
use polaris_indexer::identity::{event_hash, map_anchored_events, resolve};
use polaris_indexer::json::{decode_json, JsonMember, JsonValue};

fn name_value(s: &str) -> u64 {
    let mut value: u64 = 0;
    let bytes = s.as_bytes();
    for i in 0..13 {
        let c = if i < bytes.len() { bytes[i] } else { b'.' };
        let sym: u64 = match c {
            b'a'..=b'z' => (c - b'a') as u64 + 6,
            b'1'..=b'5' => (c - b'1') as u64 + 1,
            _ => 0,
        };
        if i < 12 {
            value |= (sym & 0x1f) << (64 - 5 * (i + 1));
        } else {
            value |= sym & 0x0f;
        }
    }
    value
}

fn push_varuint(buf: &mut Vec<u8>, mut v: u32) {
    loop {
        let b = (v & 0x7f) as u8;
        v >>= 7;
        if v == 0 {
            buf.push(b);
            break;
        }
        buf.push(b | 0x80);
    }
}

fn push_name(buf: &mut Vec<u8>, s: &str) {
    buf.extend_from_slice(&name_value(s).to_le_bytes());
}

fn push_string(buf: &mut Vec<u8>, s: &str) {
    push_varuint(buf, s.len() as u32);
    buf.extend_from_slice(s.as_bytes());
}

fn text(s: &str) -> JsonValue {
    JsonValue::Str(s.to_string())
}

fn object(members: Vec<(&str, JsonValue)>) -> JsonValue {
    JsonValue::Object(
        members
            .into_iter()
            .map(|(k, v)| JsonMember { key: k.to_string(), value: v })
            .collect(),
    )
}

fn action(name: &str, json: JsonPayload, raw: Vec<u8>) -> Action {
    Action { name: name.to_string(), json, raw_data: raw }
}

fn trace(receiver: &str, ordinal: u32, a: Action) -> ActionTrace {
    ActionTrace { receiver: receiver.to_string(), ordinal, action: Some(a) }
}

fn tx(id: &[u8], executed: bool, traces: Vec<ActionTrace>) -> Transaction {
    Transaction { id: id.to_vec(), executed, action_traces: traces }
}

fn block(number: u64, txs: Vec<Transaction>) -> Block {
    Block { number, id: "0000abcd".to_string(), timestamp: Some(1_700_000_000), transactions: txs }
}

fn put_json(author: &str, hash: Option<&str>) -> JsonValue {
    let mut members = vec![("author", text(author)), ("type", JsonValue::UInt(2))];
    if let Some(h) = hash {
        members.push(("hash", text(h)));
    }
    members.push(("parent", JsonValue::Null));
    members.push(("ts", JsonValue::UInt(1234)));
    members.push(("tags", JsonValue::Array(vec![text("rock"), text("live")])));
    object(members)
}

fn put_raw(author: &str, hash: &[u8; 32], parent: Option<&[u8; 32]>, ts: u32, tags: &[&str]) -> Vec<u8> {
    let mut b = Vec::new();
    push_name(&mut b, author);
    b.push(2);
    b.extend_from_slice(hash);
    match parent {
        Some(p) => {
            b.push(1);
            b.extend_from_slice(p);
        }
        None => b.push(0),
    }
    b.extend_from_slice(&ts.to_le_bytes());
    push_varuint(&mut b, tags.len() as u32);
    for t in tags {
        push_string(&mut b, t);
    }
    b
}

fn attest_raw(attestor: &str) -> Vec<u8> {
    let mut b = Vec::new();
    push_name(&mut b, attestor);
    b.extend_from_slice(&[7u8; 32]);
    b.push(1);
    b
}

#[test]
fn put_then_foreign_attest_scenario() {
    let put = trace(
        "polaris",
        1,
        action("put", JsonPayload::Document(put_json("alice", Some("abc123"))), vec![1, 2, 3]),
    );
    let attest = trace("someoneelse", 2, action("attest", JsonPayload::Absent, attest_raw("bob")));
    let b = block(500, vec![tx(b"t1", true, vec![put, attest])]);

    let events = map_events("", &b);
    assert_eq!(events.events.len(), 1);
    let e = &events.events[0];
    assert_eq!(e.event_type, ActionKind::Put);
    assert_eq!(e.block_num, 500);
    assert_eq!(e.timestamp, 1_700_000_000);
    assert_eq!(e.tx_hash, "7431");
    match &e.data {
        EventData::Put(p) => {
            assert_eq!(p.author, "alice");
            assert_eq!(p.hash, "abc123");
            assert_eq!(p.parent, "");
            assert_eq!(p.ts, 1234);
            assert_eq!(p.type_, 2);
            assert_eq!(p.tags, vec!["rock".to_string(), "live".to_string()]);
            assert_eq!(p.expires_at, 0);
        }
        _ => panic!("expected a put event"),
    }

    let anchored = map_anchored_events("", &b);
    assert_eq!(anchored.events.len(), 1);
    let a = &anchored.events[0];
    assert_eq!(a.content_hash, "abc123");
    assert_eq!(a.event_hash, event_hash(&[1, 2, 3]));
    assert_eq!(a.action_name, "put");
    assert_eq!(a.contract_account, "polaris");
    assert_eq!(a.transaction_id, "7431");
    assert_eq!(a.action_ordinal, 1);
    assert_eq!(a.block_number, 500);
    assert_eq!(a.block_id, "0000abcd");
    assert!(!a.content_hash_fallback);

    let mut store = CounterStore::new();
    store_stats(&events, &mut store);
    store_account_activity(&events, &mut store);
    assert_eq!(store.deltas.len(), 4);
    assert_eq!(store.get_last("total_events"), Some(1));
    assert_eq!(store.get_last("total_puts"), Some(1));
    assert_eq!(store.get_last("account:alice:events"), Some(1));
    assert_eq!(store.get_last("account:alice:last_block"), Some(500));
    assert_eq!(store.get_last("total_votes"), None);
}

#[test]
fn put_without_hash_falls_back() {
    let raw = vec![9u8, 8, 7];
    let put = trace("polaris", 0, action("put", JsonPayload::Document(put_json("carol", None)), raw.clone()));
    let b = block(10, vec![tx(b"x", true, vec![put])]);
    let events = map_events("polaris", &b);
    assert_eq!(events.events.len(), 1);
    let anchored = map_anchored_events("polaris", &b);
    assert_eq!(anchored.events.len(), 1);
    let a = &anchored.events[0];
    assert_eq!(a.content_hash, a.event_hash);
    assert_eq!(a.event_hash, event_hash(&raw));
    assert!(a.content_hash_fallback);
}

#[test]
fn event_hash_is_sha256_hex() {
    assert_eq!(
        event_hash(b"abc"),
        "ba7816bf8f01cfea414140de5dae2223b00361a396177a9cb410ff61f20015ad"
    );
    assert_eq!(
        event_hash(b""),
        "e3b0c44298fc1c149afbf4c8996fb92427ae41e4649b934ca495991b7852b855"
    );
}

#[test]
fn name_text_from_value() {
    assert_eq!(name_string(name_value("polaris")), "polaris");
    assert_eq!(name_string(name_value("eosio.token")), "eosio.token");
    assert_eq!(name_string(name_value("a1b2c3d4e5")), "a1b2c3d4e5");
    assert_eq!(name_string(0), "");
}

#[test]
fn asset_text_from_parts() {
    let mus = 4u64 | ((b'M' as u64) << 8) | ((b'U' as u64) << 16) | ((b'S' as u64) << 24);
    assert_eq!(asset_string(10000, mus), "1.0000 MUS");
    assert_eq!(asset_string(123456, mus), "12.3456 MUS");
    assert_eq!(asset_string(5, mus), "0.0005 MUS");
    assert_eq!(asset_string(-15000, mus), "-1.5000 MUS");
    let eos0 = (b'E' as u64) << 8 | (b'O' as u64) << 16 | (b'S' as u64) << 24;
    assert_eq!(asset_string(42, eos0), "42 EOS");
    assert_eq!(asset_string(i64::MIN, eos0), "-9223372036854775808 EOS");
}

#[test]
fn varuint_lengths() {
    assert_eq!(read_varuint(&[0x05], 0, 5), Some((5, 1)));
    assert_eq!(read_varuint(&[0x80, 0x01], 0, 5), Some((128, 2)));
    assert_eq!(read_varuint(&[0xff, 0xff, 0xff, 0xff, 0x0f], 0, 5), Some((0xffff_ffff, 5)));
    assert_eq!(read_varuint(&[0x80, 0x80], 0, 5), None);
    assert_eq!(read_varuint(&[0x80, 0x80, 0x80, 0x80, 0x80, 0x01], 0, 5), None);
}

#[test]
fn raw_put_matches_json_put() {
    let hash = [0xabu8; 32];
    let hash_hex = "ab".repeat(32);
    let raw = put_raw("alice", &hash, None, 1234, &["rock", "live"]);
    let from_raw = trace("polaris", 0, action("put", JsonPayload::Absent, raw.clone()));
    let from_json = trace(
        "polaris",
        0,
        action("put", JsonPayload::Document(put_json("alice", Some(&hash_hex))), raw.clone()),
    );
    let b = block(7, vec![tx(b"a", true, vec![from_raw, from_json])]);
    let events = map_events("", &b);
    assert_eq!(events.events.len(), 2);
    for e in &events.events {
        match &e.data {
            EventData::Put(p) => {
                assert_eq!(p.author, "alice");
                assert_eq!(p.hash, hash_hex);
                assert_eq!(p.parent, "");
                assert_eq!(p.ts, 1234);
                assert_eq!(p.type_, 2);
                assert_eq!(p.tags, vec!["rock".to_string(), "live".to_string()]);
            }
            _ => panic!("expected a put event"),
        }
    }
    let anchored = map_anchored_events("", &b);
    assert_eq!(anchored.events.len(), 2);
    assert_eq!(anchored.events[0].content_hash, hash_hex);
    assert_eq!(anchored.events[1].content_hash, hash_hex);
    assert_eq!(anchored.events[0].event_hash, anchored.events[1].event_hash);
}

#[test]
fn raw_put_with_parent() {
    let raw = put_raw("dave", &[1u8; 32], Some(&[2u8; 32]), 5, &[]);
    match decode_raw(ActionKind::Put, &raw) {
        Some(polaris_indexer::chain::ActionRecord::Put(p)) => {
            assert_eq!(p.parent, Some("02".repeat(32)));
            assert_eq!(p.hash, "01".repeat(32));
            assert!(p.tags.is_empty());
        }
        _ => panic!("expected a put record"),
    }
}

#[test]
fn raw_payload_must_be_exact() {
    let raw = put_raw("alice", &[3u8; 32], None, 1, &["x"]);
    let mut longer = raw.clone();
    longer.push(0);
    assert!(decode_raw(ActionKind::Put, &raw).is_some());
    assert!(decode_raw(ActionKind::Put, &longer).is_none());
    assert!(decode_raw(ActionKind::Put, &raw[..raw.len() - 1]).is_none());
    assert!(decode_raw(ActionKind::Finalize, &[0u8; 31]).is_none());
    let mut bad_flag = put_raw("alice", &[3u8; 32], None, 1, &[]);
    bad_flag[41] = 2;
    assert!(decode_raw(ActionKind::Put, &bad_flag).is_none());
    let mut bad_utf8 = Vec::new();
    push_name(&mut bad_utf8, "alice");
    bad_utf8.push(0);
    bad_utf8.extend_from_slice(&[3u8; 32]);
    bad_utf8.push(0);
    bad_utf8.extend_from_slice(&1u32.to_le_bytes());
    bad_utf8.push(1);
    bad_utf8.push(1);
    bad_utf8.push(0xff);
    assert!(decode_raw(ActionKind::Put, &bad_utf8).is_none());
}

#[test]
fn raw_actions_of_every_kind() {
    let mus = 4u64 | ((b'M' as u64) << 8) | ((b'U' as u64) << 16) | ((b'S' as u64) << 24);
    let mut stake = Vec::new();
    push_name(&mut stake, "erin");
    stake.extend_from_slice(&[0x11u8; 32]);
    stake.extend_from_slice(&25000i64.to_le_bytes());
    stake.extend_from_slice(&mus.to_le_bytes());

    let mut vote = Vec::new();
    push_name(&mut vote, "frank");
    vote.extend_from_slice(&[0x22u8; 32]);
    vote.push(0xff);

    let mut finalize = Vec::new();
    finalize.extend_from_slice(&[0x33u8; 32]);

    let mut like = Vec::new();
    push_name(&mut like, "gina");
    like.extend_from_slice(&[0x44u8; 32]);
    push_varuint(&mut like, 2);
    like.extend_from_slice(&[0x55u8; 32]);
    like.extend_from_slice(&[0x66u8; 32]);

    let mut unlike = Vec::new();
    push_name(&mut unlike, "gina");
    unlike.extend_from_slice(&[0x44u8; 32]);

    let mut respect = Vec::new();
    push_varuint(&mut respect, 2);
    push_name(&mut respect, "hank");
    respect.extend_from_slice(&3u32.to_le_bytes());
    push_name(&mut respect, "ivy");
    respect.extend_from_slice(&9u32.to_le_bytes());
    respect.extend_from_slice(&77u64.to_le_bytes());

    let traces = vec![
        trace("polaris", 1, action("stake", JsonPayload::Absent, stake.clone())),
        trace("polaris", 2, action("unstake", JsonPayload::Absent, stake)),
        trace("polaris", 3, action("vote", JsonPayload::Absent, vote)),
        trace("polaris", 4, action("finalize", JsonPayload::Absent, finalize)),
        trace("polaris", 5, action("like", JsonPayload::Absent, like)),
        trace("polaris", 6, action("unlike", JsonPayload::Absent, unlike)),
        trace("polaris", 7, action("updaterespect", JsonPayload::Absent, respect)),
        trace("polaris", 8, action("attest", JsonPayload::Absent, attest_raw("jack"))),
        trace("polaris", 9, action("setoracle", JsonPayload::Absent, vec![])),
    ];
    let b = block(99, vec![tx(b"z", true, traces)]);
    let events = map_events("", &b);
    let kinds: Vec<ActionKind> = events.events.iter().map(|e| e.event_type).collect();
    assert_eq!(
        kinds,
        vec![
            ActionKind::Stake,
            ActionKind::Unstake,
            ActionKind::Vote,
            ActionKind::Finalize,
            ActionKind::Like,
            ActionKind::Unlike,
            ActionKind::UpdateRespect,
            ActionKind::Attest,
        ]
    );
    match &events.events[0].data {
        EventData::Stake(s) => {
            assert_eq!(s.account, "erin");
            assert_eq!(s.quantity, "2.5000 MUS");
            assert_eq!(s.node_id, "11".repeat(32));
        }
        _ => panic!("expected a stake event"),
    }
    match &events.events[2].data {
        EventData::Vote(v) => {
            assert_eq!(v.voter, "frank");
            assert_eq!(v.val, -1);
            assert_eq!(v.weight, 0);
        }
        _ => panic!("expected a vote event"),
    }
    match &events.events[3].data {
        EventData::Finalize(f) => {
            assert_eq!(f.tx_hash, "33".repeat(32));
            assert!(!f.accepted);
            assert_eq!(f.approval_percent, 0);
            assert_eq!(f.reward_amount, 0);
        }
        _ => panic!("expected a finalize event"),
    }
    match &events.events[4].data {
        EventData::Like(l) => {
            assert_eq!(l.path, vec!["55".repeat(32), "66".repeat(32)]);
        }
        _ => panic!("expected a like event"),
    }
    match &events.events[6].data {
        EventData::UpdateRespect(u) => {
            assert_eq!(u.election_round, 77);
            assert_eq!(u.updates.len(), 2);
            assert_eq!(u.updates[0].account, "hank");
            assert_eq!(u.updates[0].respect, 3);
            assert_eq!(u.updates[1].account, "ivy");
            assert_eq!(u.updates[1].respect, 9);
        }
        _ => panic!("expected an update_respect event"),
    }
    let anchored = map_anchored_events("", &b);
    assert_eq!(anchored.events.len(), 8);
    for a in &anchored.events {
        assert_eq!(a.content_hash, a.event_hash);
        assert!(!a.content_hash_fallback);
    }
    assert_eq!(anchored.events[0].event_hash, anchored.events[1].event_hash);
}

#[test]
fn unexecuted_and_foreign_traces_are_invisible() {
    let put = |r: &str| trace(r, 0, action("put", JsonPayload::Document(put_json("zed", Some("h"))), vec![1]));
    let b = block(
        3,
        vec![tx(b"a", false, vec![put("polaris")]), tx(b"b", true, vec![put("notpolaris"), put("polaris")])],
    );
    let events = map_events("", &b);
    assert_eq!(events.events.len(), 1);
    assert_eq!(events.events[0].tx_hash, "62");
    let anchored = map_anchored_events("", &b);
    assert_eq!(anchored.events.len(), 1);
    assert_eq!(anchored.events[0].transaction_id, "62");
    let custom = map_events("notpolaris", &b);
    assert_eq!(custom.events.len(), 1);
}

#[test]
fn failures_drop_only_their_action() {
    let good = trace("polaris", 0, action("put", JsonPayload::Document(put_json("amy", Some("h1"))), vec![1]));
    let malformed = trace("polaris", 1, action("put", JsonPayload::Malformed, vec![2]));
    let wrong_shape = trace("polaris", 2, action("vote", JsonPayload::Document(text("nope")), vec![3]));
    let truncated = trace("polaris", 3, action("finalize", JsonPayload::Absent, vec![0u8; 5]));
    let no_action = ActionTrace { receiver: "polaris".to_string(), ordinal: 4, action: None };
    let last = trace("polaris", 5, action("put", JsonPayload::Document(put_json("bea", Some("h2"))), vec![4]));
    let b = block(8, vec![tx(b"q", true, vec![good, malformed, wrong_shape, truncated, no_action, last])]);
    let events = map_events("", &b);
    assert_eq!(events.events.len(), 2);
    let anchored = map_anchored_events("", &b);
    assert_eq!(anchored.events.len(), 5);
    assert!(anchored.events[1].content_hash_fallback);
    assert_eq!(anchored.events[1].content_hash, event_hash(&[2]));
    assert!(!anchored.events[2].content_hash_fallback);
}

#[test]
fn missing_timestamp_gives_nothing() {
    let put = trace("polaris", 0, action("put", JsonPayload::Document(put_json("amy", Some("h"))), vec![1]));
    let mut b = block(8, vec![tx(b"q", true, vec![put])]);
    b.timestamp = None;
    assert_eq!(map_events("", &b).events.len(), 0);
    assert_eq!(map_anchored_events("", &b).events.len(), 0);
}

#[test]
fn events_follow_execution_order_and_repeat() {
    let mk = |who: &str, ord: u32| {
        trace("polaris", ord, action("put", JsonPayload::Document(put_json(who, Some(who))), vec![ord as u8]))
    };
    let b = block(
        4,
        vec![tx(b"1", true, vec![mk("ann", 0), mk("ben", 1)]), tx(b"2", true, vec![mk("cat", 0)])],
    );
    let first = map_events("", &b);
    let second = map_events("", &b);
    let authors = |evs: &Events| -> Vec<String> {
        evs.events
            .iter()
            .map(|e| match &e.data {
                EventData::Put(p) => p.author.clone(),
                _ => String::new(),
            })
            .collect()
    };
    assert_eq!(authors(&first), vec!["ann", "ben", "cat"]);
    assert_eq!(authors(&first), authors(&second));
    let tx_hashes: Vec<String> = first.events.iter().map(|e| e.tx_hash.clone()).collect();
    assert_eq!(tx_hashes, vec!["31", "31", "32"]);
    let a1 = map_anchored_events("", &b);
    let a2 = map_anchored_events("", &b);
    let ids = |a: &polaris_indexer::identity::AnchoredEvents| -> Vec<(String, String)> {
        a.events.iter().map(|e| (e.content_hash.clone(), e.event_hash.clone())).collect()
    };
    assert_eq!(ids(&a1), ids(&a2));
}

#[test]
fn counters_add_across_ranges() {
    let mk = |who: &str| trace("polaris", 0, action("put", JsonPayload::Document(put_json(who, Some("h"))), vec![1]));
    let b1 = block(100, vec![tx(b"1", true, vec![mk("ann")])]);
    let b2 = block(200, vec![tx(b"2", true, vec![mk("ann"), mk("bob")])]);
    let e1 = map_events("", &b1);
    let e2 = map_events("", &b2);

    let mut s1 = CounterStore::new();
    store_stats(&e1, &mut s1);
    store_account_activity(&e1, &mut s1);
    let mut s2 = CounterStore::new();
    store_stats(&e2, &mut s2);
    store_account_activity(&e2, &mut s2);
    let mut whole = CounterStore::new();
    for e in [&e1, &e2] {
        store_stats(e, &mut whole);
        store_account_activity(e, &mut whole);
    }
    for key in ["total_events", "total_puts", "account:ann:events", "account:ann:last_block", "account:bob:events"] {
        let part = s1.get_last(key).unwrap_or(0) + s2.get_last(key).unwrap_or(0);
        assert_eq!(whole.get_last(key).unwrap_or(0), part, "{}", key);
    }
    assert_eq!(whole.get_last("account:ann:last_block"), Some(300));
    assert_eq!(whole.get_last("total_events"), Some(3));
}

#[test]
fn stats_snapshot() {
    let mut store = CounterStore::new();
    let empty = map_stats(&store);
    assert_eq!(empty.total_events, 0);
    assert_eq!(empty.total_staked_amount, "0.0000 MUS");
    store.add("total_events".to_string(), 5);
    store.add("total_votes".to_string(), 2);
    store.add("total_events".to_string(), 1);
    store.add("total_likes".to_string(), -1);
    let s = map_stats(&store);
    assert_eq!(s.total_events, 6);
    assert_eq!(s.total_votes, 2);
    assert_eq!(s.total_puts, 0);
    assert_eq!(s.total_stakes, 0);
    assert_eq!(s.total_likes, u64::MAX);
    assert_eq!(s.unique_contributors, 0);
}

#[test]
fn json_fields_map_onto_layouts() {
    let respect = object(vec![
        (
            "respect_data",
            JsonValue::Array(vec![
                object(vec![("key", text("hank")), ("value", JsonValue::UInt(3))]),
                object(vec![("key", text("ivy")), ("value", JsonValue::UInt(9))]),
            ]),
        ),
        ("election_round", text("18446744073709551615")),
    ]);
    match decode_json(ActionKind::UpdateRespect, &respect) {
        Some(polaris_indexer::chain::ActionRecord::UpdateRespect(u)) => {
            assert_eq!(u.election_round, u64::MAX);
            assert_eq!(u.respect_data.len(), 2);
            assert_eq!(u.respect_data[1].account, "ivy");
        }
        _ => panic!("expected an update_respect record"),
    }
    let overflow = object(vec![("respect_data", JsonValue::Array(vec![])), ("election_round", text("18446744073709551616"))]);
    assert!(decode_json(ActionKind::UpdateRespect, &overflow).is_none());
    let not_digits = object(vec![("respect_data", JsonValue::Array(vec![])), ("election_round", text("12a"))]);
    assert!(decode_json(ActionKind::UpdateRespect, &not_digits).is_none());

    let vote = object(vec![("voter", text("v")), ("tx_hash", text("aa")), ("val", JsonValue::Int(-1))]);
    assert!(decode_json(ActionKind::Vote, &vote).is_some());
    let vote_out_of_range = object(vec![("voter", text("v")), ("tx_hash", text("aa")), ("val", JsonValue::Int(-200))]);
    assert!(decode_json(ActionKind::Vote, &vote_out_of_range).is_none());
    let attest_missing = object(vec![("attestor", text("a")), ("tx_hash", text("aa"))]);
    assert!(decode_json(ActionKind::Attest, &attest_missing).is_none());
    let put_bad_tags = object(vec![
        ("author", text("a")),
        ("type", JsonValue::UInt(1)),
        ("hash", text("h")),
        ("ts", JsonValue::UInt(1)),
        ("tags", JsonValue::Array(vec![JsonValue::UInt(1)])),
    ]);
    assert!(decode_json(ActionKind::Put, &put_bad_tags).is_none());
    let put_type_too_big = object(vec![
        ("author", text("a")),
        ("type", JsonValue::UInt(256)),
        ("hash", text("h")),
        ("ts", JsonValue::UInt(1)),
        ("tags", JsonValue::Array(vec![])),
    ]);
    assert!(decode_json(ActionKind::Put, &put_type_too_big).is_none());
}

#[test]
fn resolve_gives_both_hashes() {
    let a = action("put", JsonPayload::Document(put_json("amy", Some("feed"))), vec![5, 6]);
    let (content, event, fallback) = resolve(ActionKind::Put, &a);
    assert_eq!(content, "feed");
    assert_eq!(event, event_hash(&[5, 6]));
    assert!(!fallback);
    let (content, event, fallback) = resolve(ActionKind::Vote, &a);
    assert_eq!(content, event);
    assert!(!fallback);
}
