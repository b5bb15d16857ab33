//! The JSON path of the decoder: a JSON document, already parsed into plain
//! values, mapped onto an action's field layout.
//!
//! Names, checksums, assets and strings are JSON strings; `u8`, `i8` and `u32`
//! fields are JSON integers in range; `u64` fields are JSON integers or strings
//! of decimal digits; an optional field may be `null` or missing; fields not in
//! the layout are ignored. A `put` without a `hash` gets an empty hash, which
//! the content identity treats as absent.

use vstd::prelude::*;
use crate::chain::{
    pairs_view, texts, ActionKind, ActionRecord, Attest, AttestV, Finalize, Like, LikeV, Put,
    PutV, RecordV, RespectPair, Stake, StakeV, Unlike, UpdateRespect, Vote, VoteV,
};
use crate::decode::record_as;

verus! {

/// A parsed JSON value.
pub enum JsonValue {
    Null,
    Bool(bool),
    /// A non-negative integer.
    UInt(u64),
    /// A negative integer.
    Int(i64),
    /// A number with a fraction or an exponent.
    Float,
    Str(String),
    Array(Vec<JsonValue>),
    Object(Vec<JsonMember>),
}

pub struct JsonMember {
    pub key: String,
    pub value: JsonValue,
}

/// The value of the first member named `key`.
pub open spec fn member(obj: Seq<JsonMember>, key: Seq<char>) -> Option<JsonValue>
    decreases obj.len(),
{
    if obj.len() == 0 {
        None
    } else if obj[0].key@ == key {
        Some(obj[0].value)
    } else {
        member(obj.subrange(1, obj.len() as int), key)
    }
}

pub open spec fn text_of(o: Option<JsonValue>) -> Option<Seq<char>> {
    match o {
        Some(JsonValue::Str(s)) => Some(s@),
        _ => None,
    }
}

/// An unsigned integer no greater than `max`.
pub open spec fn uint_of(o: Option<JsonValue>, max: u64) -> Option<u64> {
    match o {
        Some(JsonValue::UInt(n)) => if n <= max {
            Some(n)
        } else {
            None
        },
        _ => None,
    }
}

pub open spec fn i8_of(o: Option<JsonValue>) -> Option<i8> {
    match o {
        Some(JsonValue::UInt(n)) => if n <= 127 {
            Some(n as i8)
        } else {
            None
        },
        Some(JsonValue::Int(n)) => if n >= -128 {
            Some(n as i8)
        } else {
            None
        },
        _ => None,
    }
}

pub open spec fn is_digit(c: char) -> bool {
    '0' <= c && c <= '9'
}

/// The value of a sequence of decimal digits.
pub open spec fn digits_value(s: Seq<char>) -> nat
    decreases s.len(),
{
    if s.len() == 0 {
        0
    } else {
        10 * digits_value(s.drop_last()) + (s.last() as nat - 48) as nat
    }
}

/// A `u64` written as a JSON integer or as a string of decimal digits.
pub open spec fn u64_of(o: Option<JsonValue>) -> Option<u64> {
    match o {
        Some(JsonValue::UInt(n)) => Some(n),
        Some(JsonValue::Str(s)) => if s@.len() > 0 && (forall|i: int| 0 <= i < s@.len() ==> is_digit(#[trigger] s@[i]))
            && digits_value(s@) <= u64::MAX {
            Some(digits_value(s@) as u64)
        } else {
            None
        },
        _ => None,
    }
}

/// An optional string: missing or `null` is `None`.
pub open spec fn opt_text_of(o: Option<JsonValue>) -> Option<Option<Seq<char>>> {
    match o {
        None => Some(None),
        Some(JsonValue::Null) => Some(None),
        Some(JsonValue::Str(s)) => Some(Some(s@)),
        _ => None,
    }
}

/// The strings of an array whose items are all strings.
pub open spec fn str_items(items: Seq<JsonValue>) -> Option<Seq<Seq<char>>>
    decreases items.len(),
{
    if items.len() == 0 {
        Some(Seq::empty())
    } else {
        match (str_items(items.drop_last()), items.last()) {
            (Some(ts), JsonValue::Str(s)) => Some(ts.push(s@)),
            _ => None,
        }
    }
}

pub open spec fn text_list_of(o: Option<JsonValue>) -> Option<Seq<Seq<char>>> {
    match o {
        Some(JsonValue::Array(items)) => str_items(items@),
        _ => None,
    }
}

/// A `{"key": name, "value": u32}` object.
pub open spec fn pair_of(v: JsonValue) -> Option<(Seq<char>, u32)> {
    match v {
        JsonValue::Object(m) => match (text_of(member(m@, "key"@)), uint_of(member(m@, "value"@), 0xffff_ffff)) {
            (Some(k), Some(n)) => Some((k, n as u32)),
            _ => None,
        },
        _ => None,
    }
}

pub open spec fn pair_items(items: Seq<JsonValue>) -> Option<Seq<(Seq<char>, u32)>>
    decreases items.len(),
{
    if items.len() == 0 {
        Some(Seq::empty())
    } else {
        match (pair_items(items.drop_last()), pair_of(items.last())) {
            (Some(ps), Some(p)) => Some(ps.push(p)),
            _ => None,
        }
    }
}

pub open spec fn pair_list_of(o: Option<JsonValue>) -> Option<Seq<(Seq<char>, u32)>> {
    match o {
        Some(JsonValue::Array(items)) => pair_items(items@),
        _ => None,
    }
}

/// What a JSON document decodes to, for an action of the given kind.
pub open spec fn json_record(kind: ActionKind, doc: JsonValue) -> Option<RecordV> {
    match doc {
        JsonValue::Object(m) => {
            let f = |k: Seq<char>| member(m@, k);
            match kind {
                ActionKind::Put => match (text_of(f("author"@)), uint_of(f("type"@), 0xff), opt_text_of(f("hash"@))) {
                    (Some(author), Some(k), Some(hash)) => match (
                        opt_text_of(f("parent"@)),
                        uint_of(f("ts"@), 0xffff_ffff),
                        text_list_of(f("tags"@)),
                    ) {
                        (Some(parent), Some(ts), Some(tags)) => Some(
                            RecordV::Put(
                                PutV {
                                    author,
                                    kind: k as u8,
                                    hash: match hash {
                                        Some(h) => h,
                                        None => Seq::empty(),
                                    },
                                    parent,
                                    ts: ts as u32,
                                    tags,
                                },
                            ),
                        ),
                        _ => None,
                    },
                    _ => None,
                },
                ActionKind::Attest => match (text_of(f("attestor"@)), text_of(f("tx_hash"@)), uint_of(f("confirmed_type"@), 0xff)) {
                    (Some(attestor), Some(tx_hash), Some(c)) => Some(
                        RecordV::Attest(AttestV { attestor, tx_hash, confirmed_type: c as u8 }),
                    ),
                    _ => None,
                },
                ActionKind::Vote => match (text_of(f("voter"@)), text_of(f("tx_hash"@)), i8_of(f("val"@))) {
                    (Some(voter), Some(tx_hash), Some(val)) => Some(RecordV::Vote(VoteV { voter, tx_hash, val })),
                    _ => None,
                },
                ActionKind::Finalize => match text_of(f("tx_hash"@)) {
                    Some(tx_hash) => Some(RecordV::Finalize(tx_hash)),
                    None => None,
                },
                ActionKind::Stake | ActionKind::Unstake => match (
                    text_of(f("account"@)),
                    text_of(f("node_id"@)),
                    text_of(f("quantity"@)),
                ) {
                    (Some(account), Some(node_id), Some(quantity)) => {
                        let s = StakeV { account, node_id, quantity };
                        if kind == ActionKind::Stake {
                            Some(RecordV::Stake(s))
                        } else {
                            Some(RecordV::Unstake(s))
                        }
                    },
                    _ => None,
                },
                ActionKind::Like => match (text_of(f("account"@)), text_of(f("node_id"@)), text_list_of(f("node_path"@))) {
                    (Some(account), Some(node_id), Some(node_path)) => Some(
                        RecordV::Like(LikeV { account, node_id, node_path }),
                    ),
                    _ => None,
                },
                ActionKind::Unlike => match (text_of(f("account"@)), text_of(f("node_id"@))) {
                    (Some(account), Some(node_id)) => Some(RecordV::Unlike(account, node_id)),
                    _ => None,
                },
                ActionKind::UpdateRespect => match (pair_list_of(f("respect_data"@)), u64_of(f("election_round"@))) {
                    (Some(pairs), Some(round)) => Some(RecordV::UpdateRespect(pairs, round)),
                    _ => None,
                },
            }
        },
        _ => None,
    }
}

/// Finds the first member named `key`.
fn find_member<'a>(obj: &'a Vec<JsonMember>, key: &str) -> (r: Option<&'a JsonValue>)
    ensures
        match r {
            Some(v) => member(obj@, key@) == Some(*v),
            None => member(obj@, key@) is None,
        },
{
    let mut i: usize = 0;
    assert(obj@.subrange(0, obj@.len() as int) =~= obj@);
    while i < obj.len()
        invariant
            i <= obj@.len(),
            member(obj@, key@) == member(obj@.subrange(i as int, obj@.len() as int), key@),
        decreases obj@.len() - i,
    {
        let ghost rest = obj@.subrange(i as int, obj@.len() as int);
        assert(rest.subrange(1, rest.len() as int) =~= obj@.subrange(i + 1, obj@.len() as int));
        if crate::text::same_text(obj[i].key.as_str(), key) {
            return Some(&obj[i].value);
        }
        i = i + 1;
    }
    None
}

fn text_field(o: Option<&JsonValue>) -> (r: Option<String>)
    ensures
        match r {
            Some(s) => text_of(deref(o)) == Some(s@),
            None => text_of(deref(o)) is None,
        },
{
    match o {
        Some(JsonValue::Str(s)) => Some(s.clone()),
        _ => None,
    }
}

/// Lifts an optional reference to the optional value it refers to.
pub open spec fn deref(o: Option<&JsonValue>) -> Option<JsonValue> {
    match o {
        Some(v) => Some(*v),
        None => None,
    }
}

fn uint_field(o: Option<&JsonValue>, max: u64) -> (r: Option<u64>)
    ensures
        r == uint_of(deref(o), max),
{
    match o {
        Some(JsonValue::UInt(n)) => if *n <= max {
            Some(*n)
        } else {
            None
        },
        _ => None,
    }
}

fn i8_field(o: Option<&JsonValue>) -> (r: Option<i8>)
    ensures
        r == i8_of(deref(o)),
{
    match o {
        Some(JsonValue::UInt(n)) => if *n <= 127 {
            Some(*n as i8)
        } else {
            None
        },
        Some(JsonValue::Int(n)) => if *n >= -128 {
            Some(*n as i8)
        } else {
            None
        },
        _ => None,
    }
}

proof fn lemma_digits_grow(s: Seq<char>, i: int)
    requires
        0 <= i <= s.len(),
        forall|j: int| 0 <= j < s.len() ==> is_digit(#[trigger] s[j]),
    ensures
        digits_value(s.take(i)) <= digits_value(s),
    decreases s.len() - i,
{
    if i < s.len() {
        lemma_digits_grow(s, i + 1);
        assert(s.take(i + 1).drop_last() =~= s.take(i));
        assert(is_digit(s[i]));
    } else {
        assert(s.take(i) =~= s);
    }
}

/// Reads a string of decimal digits as a `u64`.
fn parse_u64(s: &String) -> (r: Option<u64>)
    ensures
        r == u64_of(Some(JsonValue::Str(*s))),
{
    let n = s.as_str().unicode_len();
    if n == 0 {
        return None;
    }
    let mut v: u64 = 0;
    let mut i: usize = 0;
    while i < n
        invariant
            n == s@.len(),
            i <= n,
            forall|j: int| 0 <= j < i ==> is_digit(#[trigger] s@[j]),
            v == digits_value(s@.take(i as int)),
        decreases n - i,
    {
        let c = s.as_str().get_char(i);
        if c < '0' || c > '9' {
            return None;
        }
        let d = (c as u32 - 48) as u64;
        assert(s@.take(i + 1).drop_last() =~= s@.take(i as int));
        if v > (u64::MAX - d) / 10 {
            proof {
                assert(10 * (v as int) + d > u64::MAX) by (nonlinear_arith)
                    requires
                        v > (u64::MAX - d) / 10,
                        d <= 9,
                ;
                // the remaining characters can only make the value larger
                if forall|j: int| 0 <= j < s@.len() ==> is_digit(#[trigger] s@[j]) {
                    lemma_digits_grow(s@, i + 1);
                }
            }
            return None;
        }
        assert(10 * (v as int) + d <= u64::MAX) by (nonlinear_arith)
            requires
                v <= (u64::MAX - d) / 10,
                d <= 9,
        ;
        v = 10 * v + d;
        i = i + 1;
    }
    assert(s@.take(n as int) =~= s@);
    Some(v)
}

fn u64_field(o: Option<&JsonValue>) -> (r: Option<u64>)
    ensures
        r == u64_of(deref(o)),
{
    match o {
        Some(JsonValue::UInt(n)) => Some(*n),
        Some(JsonValue::Str(s)) => parse_u64(s),
        _ => None,
    }
}

fn opt_text_field(o: Option<&JsonValue>) -> (r: Option<Option<String>>)
    ensures
        match r {
            Some(x) => opt_text_of(deref(o)) == Some(crate::chain::opt_text(x)),
            None => opt_text_of(deref(o)) is None,
        },
{
    match o {
        None => Some(None),
        Some(JsonValue::Null) => Some(None),
        Some(JsonValue::Str(s)) => Some(Some(s.clone())),
        _ => None,
    }
}

fn text_list_field(o: Option<&JsonValue>) -> (r: Option<Vec<String>>)
    ensures
        match r {
            Some(v) => text_list_of(deref(o)) == Some(texts(v@)),
            None => text_list_of(deref(o)) is None,
        },
{
    match o {
        Some(JsonValue::Array(items)) => text_items(items),
        _ => None,
    }
}

fn text_items(items: &Vec<JsonValue>) -> (r: Option<Vec<String>>)
    ensures
        match r {
            Some(v) => str_items(items@) == Some(texts(v@)),
            None => str_items(items@) is None,
        },
{
    let mut out: Vec<String> = Vec::new();
    let mut i: usize = 0;
    while i < items.len()
        invariant
            i <= items@.len(),
            str_items(items@.take(i as int)) == Some(texts(out@)),
        decreases items@.len() - i,
    {
        assert(items@.take(i + 1).drop_last() =~= items@.take(i as int));
        match &items[i] {
            JsonValue::Str(s) => {
                assert(items@.take(i + 1).last() == items@[i as int]);
                let ghost before = out@;
                out.push(s.clone());
                assert(texts(out@) =~= texts(before).push(s@));
            },
            _ => {
                proof {
                    assert(items@.take(i + 1).last() == items@[i as int]);
                    assert(str_items(items@.take(i + 1)) is None);
                    lemma_str_items_prefix(items@, i + 1);
                }
                return None;
            },
        }
        i = i + 1;
    }
    assert(items@.take(items@.len() as int) =~= items@);
    Some(out)
}

proof fn lemma_str_items_prefix(items: Seq<JsonValue>, i: int)
    requires
        0 <= i <= items.len(),
        str_items(items.take(i)) is None,
    ensures
        str_items(items) is None,
    decreases items.len() - i,
{
    if i < items.len() {
        assert(items.take(i + 1).drop_last() =~= items.take(i));
        lemma_str_items_prefix(items, i + 1);
    } else {
        assert(items.take(i) =~= items);
    }
}

proof fn lemma_pair_items_prefix(items: Seq<JsonValue>, i: int)
    requires
        0 <= i <= items.len(),
        pair_items(items.take(i)) is None,
    ensures
        pair_items(items) is None,
    decreases items.len() - i,
{
    if i < items.len() {
        assert(items.take(i + 1).drop_last() =~= items.take(i));
        lemma_pair_items_prefix(items, i + 1);
    } else {
        assert(items.take(i) =~= items);
    }
}

fn pair_list_field(o: Option<&JsonValue>) -> (r: Option<Vec<RespectPair>>)
    ensures
        match r {
            Some(v) => pair_list_of(deref(o)) == Some(pairs_view(v@)),
            None => pair_list_of(deref(o)) is None,
        },
{
    match o {
        Some(JsonValue::Array(items)) => respect_items(items),
        _ => None,
    }
}

fn respect_items(items: &Vec<JsonValue>) -> (r: Option<Vec<RespectPair>>)
    ensures
        match r {
            Some(v) => pair_items(items@) == Some(pairs_view(v@)),
            None => pair_items(items@) is None,
        },
{
    let mut out: Vec<RespectPair> = Vec::new();
    let mut i: usize = 0;
    while i < items.len()
        invariant
            i <= items@.len(),
            pair_items(items@.take(i as int)) == Some(pairs_view(out@)),
        decreases items@.len() - i,
    {
        assert(items@.take(i + 1).drop_last() =~= items@.take(i as int));
        let pair = match &items[i] {
            JsonValue::Object(m) => {
                let k = text_field(find_member(m, "key"));
                let v = uint_field(find_member(m, "value"), 0xffff_ffff);
                match (k, v) {
                    (Some(k), Some(v)) => Some(RespectPair { account: k, respect: v as u32 }),
                    _ => None,
                }
            },
            _ => None,
        };
        match pair {
            Some(p) => {
                assert(items@.take(i + 1).last() == items@[i as int]);
                assert(pair_of(items@[i as int]) == Some((p.account@, p.respect)));
                let ghost before = out@;
                out.push(p);
                assert(pairs_view(out@) =~= pairs_view(before).push((p.account@, p.respect)));
            },
            None => {
                proof {
                    assert(items@.take(i + 1).last() == items@[i as int]);
                    assert(pair_of(items@[i as int]) is None);
                    assert(pair_items(items@.take(i + 1)) is None);
                    lemma_pair_items_prefix(items@, i + 1);
                }
                return None;
            },
        }
        i = i + 1;
    }
    assert(items@.take(items@.len() as int) =~= items@);
    Some(out)
}

/// Decodes a JSON document into the record of an action of the given kind.
pub fn decode_json(kind: ActionKind, doc: &JsonValue) -> (r: Option<ActionRecord>)
    ensures
        record_as(r, json_record(kind, *doc)),
{
    let m = match doc {
        JsonValue::Object(m) => m,
        _ => return None,
    };
    proof {
        assert(*doc == JsonValue::Object(*m));
    }
    match kind {
        ActionKind::Put => {
            let author = text_field(find_member(m, "author"));
            let k = uint_field(find_member(m, "type"), 0xff);
            let hash = opt_text_field(find_member(m, "hash"));
            let parent = opt_text_field(find_member(m, "parent"));
            let ts = uint_field(find_member(m, "ts"), 0xffff_ffff);
            let tags = text_list_field(find_member(m, "tags"));
            match (author, k, hash, parent, ts, tags) {
                (Some(author), Some(k), Some(hash), Some(parent), Some(ts), Some(tags)) => {
                    let hash = match hash {
                        Some(h) => h,
                        None => String::new(),
                    };
                    Some(ActionRecord::Put(Put { author, kind: k as u8, hash, parent, ts: ts as u32, tags }))
                },
                _ => None,
            }
        },
        ActionKind::Attest => {
            let attestor = text_field(find_member(m, "attestor"));
            let tx_hash = text_field(find_member(m, "tx_hash"));
            let c = uint_field(find_member(m, "confirmed_type"), 0xff);
            match (attestor, tx_hash, c) {
                (Some(attestor), Some(tx_hash), Some(c)) => Some(
                    ActionRecord::Attest(Attest { attestor, tx_hash, confirmed_type: c as u8 }),
                ),
                _ => None,
            }
        },
        ActionKind::Vote => {
            let voter = text_field(find_member(m, "voter"));
            let tx_hash = text_field(find_member(m, "tx_hash"));
            let val = i8_field(find_member(m, "val"));
            match (voter, tx_hash, val) {
                (Some(voter), Some(tx_hash), Some(val)) => Some(ActionRecord::Vote(Vote { voter, tx_hash, val })),
                _ => None,
            }
        },
        ActionKind::Finalize => match text_field(find_member(m, "tx_hash")) {
            Some(tx_hash) => Some(ActionRecord::Finalize(Finalize { tx_hash })),
            None => None,
        },
        ActionKind::Stake | ActionKind::Unstake => {
            let account = text_field(find_member(m, "account"));
            let node_id = text_field(find_member(m, "node_id"));
            let quantity = text_field(find_member(m, "quantity"));
            match (account, node_id, quantity) {
                (Some(account), Some(node_id), Some(quantity)) => {
                    let s = Stake { account, node_id, quantity };
                    if kind == ActionKind::Stake {
                        Some(ActionRecord::Stake(s))
                    } else {
                        Some(ActionRecord::Unstake(s))
                    }
                },
                _ => None,
            }
        },
        ActionKind::Like => {
            let account = text_field(find_member(m, "account"));
            let node_id = text_field(find_member(m, "node_id"));
            let node_path = text_list_field(find_member(m, "node_path"));
            match (account, node_id, node_path) {
                (Some(account), Some(node_id), Some(node_path)) => Some(
                    ActionRecord::Like(Like { account, node_id, node_path }),
                ),
                _ => None,
            }
        },
        ActionKind::Unlike => {
            let account = text_field(find_member(m, "account"));
            let node_id = text_field(find_member(m, "node_id"));
            match (account, node_id) {
                (Some(account), Some(node_id)) => Some(ActionRecord::Unlike(Unlike { account, node_id })),
                _ => None,
            }
        },
        ActionKind::UpdateRespect => {
            let pairs = pair_list_field(find_member(m, "respect_data"));
            let round = u64_field(find_member(m, "election_round"));
            match (pairs, round) {
                (Some(respect_data), Some(election_round)) => Some(
                    ActionRecord::UpdateRespect(UpdateRespect { respect_data, election_round }),
                ),
                _ => None,
            }
        },
    }
}

} // verus!
