//! Additive counters over the event feed, and the statistics read from them.
//!
//! A [`CounterStore`] holds the additions made to it, in order; the value of a
//! key is the sum of the additions to that key. Stores of disjoint block
//! ranges combine by putting their additions together.

use vstd::prelude::*;
use crate::events::{EventData, EventDataV, EventV, Events, events_view};

verus! {

/// One addition to a counter.
pub struct Delta {
    pub key: String,
    pub value: i64,
}

pub open spec fn deltas_view(v: Seq<Delta>) -> Seq<(Seq<char>, i64)> {
    v.map_values(|d: Delta| (d.key@, d.value))
}

/// The sum of the additions to a key.
pub open spec fn total(d: Seq<(Seq<char>, i64)>, key: Seq<char>) -> int
    decreases d.len(),
{
    if d.len() == 0 {
        0
    } else {
        total(d.drop_last(), key) + if d.last().0 == key {
            d.last().1 as int
        } else {
            0
        }
    }
}

/// Whether some addition was made to a key.
pub open spec fn has_key(d: Seq<(Seq<char>, i64)>, key: Seq<char>) -> bool {
    exists|i: int| 0 <= i < d.len() && (#[trigger] d[i]).0 == key
}

/// A store of additive counters.
pub struct CounterStore {
    pub deltas: Vec<Delta>,
}

impl View for CounterStore {
    type V = Seq<(Seq<char>, i64)>;

    open spec fn view(&self) -> Seq<(Seq<char>, i64)> {
        deltas_view(self.deltas@)
    }
}

impl CounterStore {
    /// An empty store.
    pub fn new() -> (r: CounterStore)
        ensures
            r@ == Seq::<(Seq<char>, i64)>::empty(),
    {
        let r = CounterStore { deltas: Vec::new() };
        assert(r@ =~= Seq::<(Seq<char>, i64)>::empty());
        r
    }

    /// Adds `value` to the counter `key`.
    pub fn add(&mut self, key: String, value: i64)
        ensures
            final(self)@ == old(self)@.push((key@, value)),
    {
        let ghost before = self.deltas@;
        self.deltas.push(Delta { key, value });
        assert(deltas_view(self.deltas@) =~= deltas_view(before).push((key@, value)));
    }

    /// The value of the counter `key`, wrapped to 64 bits, or `None` where
    /// nothing was added to it.
    pub fn get_last(&self, key: &str) -> (r: Option<i64>)
        ensures
            r is Some <==> has_key(self@, key@),
            r matches Some(v) ==> v == total(self@, key@) as i64,
    {
        let n = self.deltas.len();
        let mut sum: i128 = 0;
        let mut found = false;
        let mut i: usize = 0;
        while i < n
            invariant
                n == self.deltas@.len(),
                i <= n,
                sum == total(self@.take(i as int), key@),
                -(i as int) * 0x8000_0000_0000_0000 <= sum <= (i as int) * 0x8000_0000_0000_0000,
                found <==> has_key(self@.take(i as int), key@),
            decreases n - i,
        {
            let d = &self.deltas[i];
            assert(self@.take(i + 1).drop_last() =~= self@.take(i as int));
            if crate::text::same_text(d.key.as_str(), key) {
                assert(-(i as int) * 0x8000_0000_0000_0000 + (d.value as int) >= -((i + 1) as int) * 0x8000_0000_0000_0000
                    && (i as int) * 0x8000_0000_0000_0000 + (d.value as int) <= ((i + 1) as int) * 0x8000_0000_0000_0000)
                    by (nonlinear_arith)
                    requires
                        -0x8000_0000_0000_0000 <= d.value <= 0x7fff_ffff_ffff_ffff,
                ;
                assert(((i + 1) as int) * 0x8000_0000_0000_0000 <= 0x7fff_ffff_ffff_ffff_ffff_ffff_ffff_ffff) by (nonlinear_arith)
                    requires
                        i < 0xffff_ffff_ffff_ffff,
                ;
                sum = sum + d.value as i128;
                found = true;
                assert(has_key(self@.take(i + 1), key@)) by {
                    assert(self@.take(i + 1)[i as int].0 == key@);
                }
            } else {
                assert(-(i as int) * 0x8000_0000_0000_0000 >= -((i + 1) as int) * 0x8000_0000_0000_0000
                    && (i as int) * 0x8000_0000_0000_0000 <= ((i + 1) as int) * 0x8000_0000_0000_0000)
                    by (nonlinear_arith);
                assert(has_key(self@.take(i + 1), key@) ==> has_key(self@.take(i as int), key@)) by {
                    if has_key(self@.take(i + 1), key@) {
                        let j = choose|j: int| 0 <= j < i + 1 && (#[trigger] self@.take(i + 1)[j]).0 == key@;
                        assert(self@.take(i as int)[j].0 == key@);
                    }
                }
            }
            assert(has_key(self@.take(i as int), key@) ==> has_key(self@.take(i + 1), key@)) by {
                if has_key(self@.take(i as int), key@) {
                    let j = choose|j: int| 0 <= j < i && (#[trigger] self@.take(i as int)[j]).0 == key@;
                    assert(self@.take(i + 1)[j].0 == key@);
                }
            }
            i = i + 1;
        }
        assert(self@.take(n as int) =~= self@);
        if found {
            Some(#[verifier::truncate] (sum as i64))
        } else {
            None
        }
    }
}

/// The global counters that an event adds one to.
pub open spec fn stat_keys(e: EventV) -> Seq<Seq<char>> {
    seq!["total_events"@] + match e.data {
        EventDataV::Put(_) => seq!["total_puts"@],
        EventDataV::Vote(_) => seq!["total_votes"@],
        EventDataV::Stake(_) => seq!["total_stakes"@],
        EventDataV::Like(_) => seq!["total_likes"@],
        _ => Seq::empty(),
    }
}

/// The additions that the global statistics make for a sequence of events.
pub open spec fn stats_deltas(evs: Seq<EventV>) -> Seq<(Seq<char>, i64)>
    decreases evs.len(),
{
    if evs.len() == 0 {
        Seq::empty()
    } else {
        stats_deltas(evs.drop_last()) + stat_keys(evs.last()).map_values(|k: Seq<char>| (k, 1i64))
    }
}

/// The account that an event is counted for: the author of a `put`, the voter
/// of a `vote`, the account of a `stake` or a `like`.
pub open spec fn account_of(e: EventV) -> Option<Seq<char>> {
    match e.data {
        EventDataV::Put(p) => Some(p.author),
        EventDataV::Vote(v) => Some(v.voter),
        EventDataV::Stake(s) => Some(s.account),
        EventDataV::Like(l) => Some(l.account),
        _ => None,
    }
}

pub open spec fn account_key(id: Seq<char>, suffix: Seq<char>) -> Seq<char> {
    "account:"@ + id + suffix
}

/// The additions that per-account activity makes for one event: one event,
/// and the block number added to `last_block`.
///
/// `last_block` accumulates by addition like every other counter, so over
/// several events it holds the sum of their block numbers, not the latest
/// one; whether it should instead keep the latest is left open, since readers
/// of the store may depend on the sum.
pub open spec fn activity_of(e: EventV) -> Seq<(Seq<char>, i64)> {
    match account_of(e) {
        Some(id) => seq![
            (account_key(id, ":events"@), 1i64),
            (account_key(id, ":last_block"@), e.block_num as i64),
        ],
        None => Seq::empty(),
    }
}

/// The additions that per-account activity makes for a sequence of events.
pub open spec fn activity_deltas(evs: Seq<EventV>) -> Seq<(Seq<char>, i64)>
    decreases evs.len(),
{
    if evs.len() == 0 {
        Seq::empty()
    } else {
        activity_deltas(evs.drop_last()) + activity_of(evs.last())
    }
}

/// Counts the events into the global statistics.
pub fn store_stats(events: &Events, store: &mut CounterStore)
    ensures
        final(store)@ == old(store)@ + stats_deltas(events_view(events.events@)),
{
    let ghost evs = events_view(events.events@);
    let mut i: usize = 0;
    assert(old(store)@ + stats_deltas(evs.take(0)) =~= old(store)@) by {
        assert(evs.take(0) =~= Seq::<EventV>::empty());
    }
    while i < events.events.len()
        invariant
            i <= events.events@.len(),
            evs == events_view(events.events@),
            store@ == old(store)@ + stats_deltas(evs.take(i as int)),
        decreases events.events@.len() - i,
    {
        let e = &events.events[i];
        let ghost before = store@;
        assert(evs.take(i + 1).drop_last() =~= evs.take(i as int));
        assert(evs.take(i + 1).last() == e@);
        store.add(String::from_str("total_events"), 1);
        match &e.data {
            EventData::Put(_) => store.add(String::from_str("total_puts"), 1),
            EventData::Vote(_) => store.add(String::from_str("total_votes"), 1),
            EventData::Stake(_) => store.add(String::from_str("total_stakes"), 1),
            EventData::Like(_) => store.add(String::from_str("total_likes"), 1),
            _ => {},
        }
        assert(store@ =~= before + stat_keys(e@).map_values(|k: Seq<char>| (k, 1i64)));
        i = i + 1;
    }
    assert(evs.take(i as int) =~= evs);
}

fn key_for(id: &String, suffix: &str) -> (r: String)
    ensures
        r@ == account_key(id@, suffix@),
{
    let mut k = String::from_str("account:");
    k.append(id.as_str());
    k.append(suffix);
    k
}

/// Counts the events into per-account activity.
pub fn store_account_activity(events: &Events, store: &mut CounterStore)
    ensures
        final(store)@ == old(store)@ + activity_deltas(events_view(events.events@)),
{
    let ghost evs = events_view(events.events@);
    let mut i: usize = 0;
    assert(old(store)@ + activity_deltas(evs.take(0)) =~= old(store)@) by {
        assert(evs.take(0) =~= Seq::<EventV>::empty());
    }
    while i < events.events.len()
        invariant
            i <= events.events@.len(),
            evs == events_view(events.events@),
            store@ == old(store)@ + activity_deltas(evs.take(i as int)),
        decreases events.events@.len() - i,
    {
        let e = &events.events[i];
        let ghost before = store@;
        assert(evs.take(i + 1).drop_last() =~= evs.take(i as int));
        assert(evs.take(i + 1).last() == e@);
        let account: Option<&String> = match &e.data {
            EventData::Put(p) => Some(&p.author),
            EventData::Vote(v) => Some(&v.voter),
            EventData::Stake(s) => Some(&s.account),
            EventData::Like(l) => Some(&l.account),
            _ => None,
        };
        match account {
            Some(id) => {
                store.add(key_for(id, ":events"), 1);
                store.add(key_for(id, ":last_block"), #[verifier::truncate] (e.block_num as i64));
            },
            None => {},
        }
        assert(store@ =~= before + activity_of(e@));
        i = i + 1;
    }
    assert(evs.take(i as int) =~= evs);
}

/// A snapshot of the global statistics.
pub struct Stats {
    pub total_events: u64,
    pub total_puts: u64,
    pub total_votes: u64,
    pub total_stakes: u64,
    pub total_likes: u64,
    /// Not tracked: always 0.
    pub unique_contributors: u64,
    /// Not tracked: always `0.0000 MUS`.
    pub total_staked_amount: String,
}

/// A counter's value read as unsigned, 0 where nothing was added to it.
pub open spec fn stat_value(d: Seq<(Seq<char>, i64)>, key: Seq<char>) -> u64 {
    if has_key(d, key) {
        (total(d, key) as i64) as u64
    } else {
        0
    }
}

fn read_stat(store: &CounterStore, key: &str) -> (r: u64)
    ensures
        r == stat_value(store@, key@),
{
    match store.get_last(key) {
        Some(v) => #[verifier::truncate] (v as u64),
        None => 0,
    }
}

/// Reads the statistics snapshot from the global counters.
pub fn map_stats(store: &CounterStore) -> (r: Stats)
    ensures
        r.total_events == stat_value(store@, "total_events"@),
        r.total_puts == stat_value(store@, "total_puts"@),
        r.total_votes == stat_value(store@, "total_votes"@),
        r.total_stakes == stat_value(store@, "total_stakes"@),
        r.total_likes == stat_value(store@, "total_likes"@),
        r.unique_contributors == 0,
        r.total_staked_amount@ == "0.0000 MUS"@,
{
    Stats {
        total_events: read_stat(store, "total_events"),
        total_puts: read_stat(store, "total_puts"),
        total_votes: read_stat(store, "total_votes"),
        total_stakes: read_stat(store, "total_stakes"),
        total_likes: read_stat(store, "total_likes"),
        unique_contributors: 0,
        total_staked_amount: String::from_str("0.0000 MUS"),
    }
}

} // verus!
