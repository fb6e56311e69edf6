//! Per-key usage rollup deltas of a batch of usage events: the token
//! counters each key gains, how many of its events lacked credit usage, and
//! its latest use. Keys come out in the order in which they first occur.
use vstd::prelude::*;
use crate::text::str_equals;
use crate::usage_row::UsageEventRow;

verus! {

/// What one key gains from a batch of usage events. `event_positions`
/// lists, in order, the positions in the batch of that key's events, whose
/// credit usage the caller sums.
#[derive(Debug, Clone)]
pub struct UsageRollupDelta {
    pub input_uncached_tokens: i64,
    pub input_cached_tokens: i64,
    pub output_tokens: i64,
    pub billable_tokens: i64,
    pub credit_missing_events: i64,
    pub last_used_at_ms: i64,
    pub event_positions: Vec<usize>,
}

/// The counters of a delta: uncached, cached, output and billable tokens,
/// events without credit usage, last use.
pub type RollupCounters = (i64, i64, i64, i64, i64, i64);

/// `acc.saturating_add(v.max(0))`.
pub open spec fn add_clamped(acc: i64, v: i64) -> i64 {
    let s = acc + (if v > 0 { v as int } else { 0 });
    if s > i64::MAX { i64::MAX } else if s < i64::MIN { i64::MIN } else { s as i64 }
}

/// The counters after one more event of the key.
pub open spec fn counters_step(c: RollupCounters, e: UsageEventRow) -> RollupCounters {
    (
        add_clamped(c.0, e.input_uncached_tokens),
        add_clamped(c.1, e.input_cached_tokens),
        add_clamped(c.2, e.output_tokens),
        add_clamped(c.3, e.billable_tokens),
        add_clamped(c.4, if e.credit_usage_missing { 1 } else { 0 }),
        if e.created_at_ms > c.5 { e.created_at_ms } else { c.5 },
    )
}

/// The counters of `key` over `events`, starting from zero.
pub open spec fn key_counters(events: Seq<UsageEventRow>, key: Seq<char>) -> RollupCounters
    decreases events.len(),
{
    if events.len() == 0 {
        (0, 0, 0, 0, 0, 0)
    } else {
        let before = key_counters(events.drop_last(), key);
        if events.last().key_id@ == key {
            counters_step(before, events.last())
        } else {
            before
        }
    }
}

/// The positions of `key`'s events in `events`, ascending.
pub open spec fn key_positions(events: Seq<UsageEventRow>, key: Seq<char>) -> Seq<int>
    decreases events.len(),
{
    if events.len() == 0 {
        Seq::empty()
    } else {
        let before = key_positions(events.drop_last(), key);
        if events.last().key_id@ == key {
            before.push(events.len() - 1)
        } else {
            before
        }
    }
}

/// The distinct keys of `events` in the order of their first occurrence.
pub open spec fn first_seen_keys(events: Seq<UsageEventRow>) -> Seq<Seq<char>>
    decreases events.len(),
{
    if events.len() == 0 {
        Seq::empty()
    } else {
        let before = first_seen_keys(events.drop_last());
        if before.contains(events.last().key_id@) {
            before
        } else {
            before.push(events.last().key_id@)
        }
    }
}

pub open spec fn delta_counters(d: UsageRollupDelta) -> RollupCounters {
    (d.input_uncached_tokens, d.input_cached_tokens, d.output_tokens, d.billable_tokens,
        d.credit_missing_events, d.last_used_at_ms)
}

pub open spec fn positions_view(v: Seq<usize>) -> Seq<int> {
    v.map_values(|p: usize| p as int)
}

/// The first-seen keys hold each key of the batch exactly once.
pub proof fn lemma_first_seen_keys(events: Seq<UsageEventRow>)
    ensures
        forall|i: int, j: int|
            0 <= i < j < first_seen_keys(events).len() ==> first_seen_keys(events)[i] != first_seen_keys(events)[j],
        forall|k: int| 0 <= k < events.len() ==> first_seen_keys(events).contains(#[trigger] events[k].key_id@),
        forall|i: int| 0 <= i < first_seen_keys(events).len()
            ==> exists|k: int| 0 <= k < events.len() && #[trigger] events[k].key_id@ == #[trigger] first_seen_keys(events)[i],
    decreases events.len(),
{
    if events.len() > 0 {
        let prefix = events.drop_last();
        lemma_first_seen_keys(prefix);
        let before = first_seen_keys(prefix);
        let last = events.last().key_id@;
        assert forall|k: int| 0 <= k < events.len() implies first_seen_keys(events).contains(#[trigger] events[k].key_id@) by {
            if k < events.len() - 1 {
                assert(prefix[k] == events[k]);
                assert(before.contains(prefix[k].key_id@));
                if !before.contains(last) {
                    let w = before.index_of(prefix[k].key_id@);
                    assert(before.push(last)[w] == prefix[k].key_id@);
                }
            } else {
                if !before.contains(last) {
                    assert(before.push(last)[before.len() as int] == last);
                }
            }
        }
        assert forall|i: int| 0 <= i < first_seen_keys(events).len()
            implies exists|k: int| 0 <= k < events.len() && #[trigger] events[k].key_id@ == #[trigger] first_seen_keys(events)[i] by {
            if i < before.len() {
                let k = choose|k: int| 0 <= k < prefix.len() && #[trigger] prefix[k].key_id@ == #[trigger] before[i];
                assert(events[k] == prefix[k]);
            } else {
                assert(events[events.len() - 1].key_id@ == first_seen_keys(events)[i]);
            }
        }
    }
}

/// Per-key rollup deltas of a batch of usage events, keys in the order in
/// which they first occur. Token counters add each event's non-negative
/// count and saturate at `i64::MAX`; `last_used_at_ms` is the latest event
/// time, and zero where every event is older than the epoch.
pub fn aggregate_usage_rollup_deltas(events: &[UsageEventRow]) -> (r: Vec<(String, UsageRollupDelta)>)
    ensures
        r@.len() == first_seen_keys(events@).len(),
        forall|j: int| #![trigger r@[j]] 0 <= j < r@.len() ==> {
            &&& r@[j].0@ == first_seen_keys(events@)[j]
            &&& delta_counters(r@[j].1) == key_counters(events@, r@[j].0@)
            &&& positions_view(r@[j].1.event_positions@) == key_positions(events@, r@[j].0@)
        },
{
    // The distinct keys, in first-seen order.
    let mut keys: Vec<String> = Vec::new();
    let mut i: usize = 0;
    while i < events.len()
        invariant
            i <= events.len(),
            keys@.len() == first_seen_keys(events@.subrange(0, i as int)).len(),
            forall|j: int| 0 <= j < keys@.len() ==> #[trigger] keys@[j]@ == first_seen_keys(events@.subrange(0, i as int))[j],
        decreases events.len() - i,
    {
        let ghost before = first_seen_keys(events@.subrange(0, i as int));
        assert(events@.subrange(0, i + 1).drop_last() =~= events@.subrange(0, i as int));
        assert(events@.subrange(0, i + 1).last() == events@[i as int]);
        let key = &events[i].key_id;
        let mut found = false;
        let mut j: usize = 0;
        while j < keys.len()
            invariant
                j <= keys@.len(),
                keys@.len() == before.len(),
                forall|t: int| 0 <= t < keys@.len() ==> #[trigger] keys@[t]@ == before[t],
                found <==> exists|t: int| 0 <= t < j && #[trigger] before[t] == key@,
            decreases keys.len() - j,
        {
            if str_equals(keys[j].as_str(), key.as_str()) {
                found = true;
            }
            j = j + 1;
        }
        proof {
            if before.contains(key@) {
                let t = before.index_of(key@);
                assert(before[t] == key@);
            }
        }
        if !found {
            keys.push(key.clone());
        }
        i = i + 1;
        proof {
            assert(events@.subrange(0, i as int).last().key_id@ == key@);
        }
    }
    assert(events@.subrange(0, events@.len() as int) =~= events@);
    // One delta per key, folded over the whole batch.
    let mut out: Vec<(String, UsageRollupDelta)> = Vec::new();
    let mut k: usize = 0;
    while k < keys.len()
        invariant
            k <= keys@.len(),
            keys@.len() == first_seen_keys(events@).len(),
            forall|j: int| 0 <= j < keys@.len() ==> #[trigger] keys@[j]@ == first_seen_keys(events@)[j],
            out@.len() == k,
            forall|j: int| #![trigger out@[j]] 0 <= j < k ==> {
                &&& out@[j].0@ == first_seen_keys(events@)[j]
                &&& delta_counters(out@[j].1) == key_counters(events@, out@[j].0@)
                &&& positions_view(out@[j].1.event_positions@) == key_positions(events@, out@[j].0@)
            },
        decreases keys.len() - k,
    {
        let key = keys[k].clone();
        let delta = key_delta(events, key.as_str());
        out.push((key, delta));
        k = k + 1;
    }
    out
}

fn add_clamped_exec(acc: i64, v: i64) -> (r: i64)
    ensures
        r == add_clamped(acc, v),
{
    let add: i64 = if v > 0 { v } else { 0 };
    if acc > 0 && add > i64::MAX - acc {
        i64::MAX
    } else {
        acc + add
    }
}

/// The delta of one key over the whole batch.
fn key_delta(events: &[UsageEventRow], key: &str) -> (d: UsageRollupDelta)
    ensures
        delta_counters(d) == key_counters(events@, key@),
        positions_view(d.event_positions@) == key_positions(events@, key@),
{
    let mut d = UsageRollupDelta {
        input_uncached_tokens: 0,
        input_cached_tokens: 0,
        output_tokens: 0,
        billable_tokens: 0,
        credit_missing_events: 0,
        last_used_at_ms: 0,
        event_positions: Vec::new(),
    };
    let mut i: usize = 0;
    assert(positions_view(d.event_positions@) =~= Seq::<int>::empty());
    while i < events.len()
        invariant
            i <= events.len(),
            delta_counters(d) == key_counters(events@.subrange(0, i as int), key@),
            positions_view(d.event_positions@) == key_positions(events@.subrange(0, i as int), key@),
        decreases events.len() - i,
    {
        let ghost prev = d.event_positions@;
        assert(events@.subrange(0, i + 1).drop_last() =~= events@.subrange(0, i as int));
        assert(events@.subrange(0, i + 1).last() == events@[i as int]);
        let e = &events[i];
        if str_equals(e.key_id.as_str(), key) {
            d.input_uncached_tokens = add_clamped_exec(d.input_uncached_tokens, e.input_uncached_tokens);
            d.input_cached_tokens = add_clamped_exec(d.input_cached_tokens, e.input_cached_tokens);
            d.output_tokens = add_clamped_exec(d.output_tokens, e.output_tokens);
            d.billable_tokens = add_clamped_exec(d.billable_tokens, e.billable_tokens);
            let missing: i64 = if e.credit_usage_missing { 1 } else { 0 };
            d.credit_missing_events = add_clamped_exec(d.credit_missing_events, missing);
            if e.created_at_ms > d.last_used_at_ms {
                d.last_used_at_ms = e.created_at_ms;
            }
            d.event_positions.push(i);
            assert(positions_view(d.event_positions@) =~= positions_view(prev).push(i as int));
        }
        i = i + 1;
    }
    assert(events@.subrange(0, events@.len() as int) =~= events@);
    d
}

/// A key's rollup counters over a batch: zero before any event; each event
/// of another key leaves them unchanged; each event of the key adds its
/// token counts (negative counts as zero) to the token counters, stopping at
/// `i64::MAX`, counts one more event without credit usage when its credit
/// usage is missing, and moves the last use to the event's time when that
/// is later. The token and missing-credit counters never go below zero.
pub proof fn lemma_key_counters_add_each_event(events: Seq<UsageEventRow>, key: Seq<char>)
    ensures
        ({
            let after = key_counters(events, key);
            &&& 0 <= after.0 && 0 <= after.1 && 0 <= after.2 && 0 <= after.3 && 0 <= after.4
            &&& events.len() == 0 ==> after == (0i64, 0i64, 0i64, 0i64, 0i64, 0i64)
            &&& events.len() > 0 ==> {
                let before = key_counters(events.drop_last(), key);
                let e = events.last();
                &&& (e.key_id@ != key ==> after == before)
                &&& (e.key_id@ == key ==> {
                    let u = before.0 + (if e.input_uncached_tokens > 0 { e.input_uncached_tokens as int } else { 0 });
                    let c = before.1 + (if e.input_cached_tokens > 0 { e.input_cached_tokens as int } else { 0 });
                    let o = before.2 + (if e.output_tokens > 0 { e.output_tokens as int } else { 0 });
                    let b = before.3 + (if e.billable_tokens > 0 { e.billable_tokens as int } else { 0 });
                    &&& after.0 == (if u > i64::MAX { i64::MAX as int } else { u })
                    &&& after.1 == (if c > i64::MAX { i64::MAX as int } else { c })
                    &&& after.2 == (if o > i64::MAX { i64::MAX as int } else { o })
                    &&& after.3 == (if b > i64::MAX { i64::MAX as int } else { b })
                    &&& after.4 == before.4 + (if e.credit_usage_missing && before.4 < i64::MAX { 1int } else { 0 })
                    &&& after.5 == (if e.created_at_ms > before.5 { e.created_at_ms } else { before.5 })
                })
            }
        }),
    decreases events.len(),
{
    if events.len() > 0 {
        lemma_key_counters_add_each_event(events.drop_last(), key);
    }
}

/// A key's positions in a batch are exactly the positions of its events, in
/// ascending order.
pub proof fn lemma_key_positions_are_the_key_events(events: Seq<UsageEventRow>, key: Seq<char>)
    ensures
        forall|j: int| 0 <= j < key_positions(events, key).len() ==> {
            let p = #[trigger] key_positions(events, key)[j];
            0 <= p < events.len() && events[p].key_id@ == key
        },
        forall|i: int, j: int| 0 <= i < j < key_positions(events, key).len() ==> #[trigger] key_positions(events, key)[i]
            < #[trigger] key_positions(events, key)[j],
        forall|p: int| 0 <= p < events.len() && #[trigger] events[p].key_id@ == key ==> key_positions(events, key).contains(p),
    decreases events.len(),
{
    if events.len() > 0 {
        let prefix = events.drop_last();
        lemma_key_positions_are_the_key_events(prefix, key);
        let before = key_positions(prefix, key);
        let after = key_positions(events, key);
        assert forall|j: int| 0 <= j < after.len() implies {
            let p = #[trigger] after[j];
            0 <= p < events.len() && events[p].key_id@ == key
        } by {
            if j < before.len() {
                assert(after[j] == before[j]);
                assert(events[before[j]] == prefix[before[j]]);
            }
        }
        assert forall|p: int| 0 <= p < events.len() && #[trigger] events[p].key_id@ == key implies after.contains(p) by {
            if p < events.len() - 1 {
                assert(prefix[p] == events[p]);
                assert(before.contains(p));
                let w = choose|w: int| 0 <= w < before.len() && before[w] == p;
                assert(after[w] == p);
            } else {
                assert(after[after.len() - 1] == p);
            }
        }
    }
}

} // verus!
