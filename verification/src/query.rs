//! Read-path planning: page windows over one partition, page fetch plans
//! across tiered partitions, totals merging and in-call deduplication.
use vstd::prelude::*;
use crate::usage_row::UsageEventRow;

verus! {

/// The largest page a usage event listing returns.
pub const USAGE_EVENT_PAGE_MAX_LIMIT: usize = 200;

/// Count and token totals of a set of usage events.
#[derive(Debug, Clone, Copy, PartialEq, Eq, Default)]
pub struct UsageEventTotals {
    /// Number of events.
    pub event_count: usize,
    /// Uncached input tokens.
    pub input_uncached_tokens: u64,
    /// Cached input tokens.
    pub input_cached_tokens: u64,
    /// Output tokens.
    pub output_tokens: u64,
    /// Billable tokens.
    pub billable_tokens: u64,
}

/// `a + b`, saturating at `max`.
pub open spec fn saturating_add_spec(a: int, b: int, max: int) -> int {
    if a + b > max { max } else { a + b }
}

/// Element-wise saturating sum of two totals.
pub open spec fn merged_totals(target: UsageEventTotals, added: UsageEventTotals) -> UsageEventTotals {
    UsageEventTotals {
        event_count: saturating_add_spec(
            target.event_count as int,
            added.event_count as int,
            usize::MAX as int,
        ) as usize,
        input_uncached_tokens: saturating_add_spec(
            target.input_uncached_tokens as int,
            added.input_uncached_tokens as int,
            u64::MAX as int,
        ) as u64,
        input_cached_tokens: saturating_add_spec(
            target.input_cached_tokens as int,
            added.input_cached_tokens as int,
            u64::MAX as int,
        ) as u64,
        output_tokens: saturating_add_spec(
            target.output_tokens as int,
            added.output_tokens as int,
            u64::MAX as int,
        ) as u64,
        billable_tokens: saturating_add_spec(
            target.billable_tokens as int,
            added.billable_tokens as int,
            u64::MAX as int,
        ) as u64,
    }
}

/// Adds `added` into `target`, each counter saturating.
pub fn merge_usage_event_totals(target: &mut UsageEventTotals, added: &UsageEventTotals)
    ensures
        *final(target) == merged_totals(*old(target), *added),
{
    target.event_count = target.event_count.saturating_add(added.event_count);
    target.input_uncached_tokens = target.input_uncached_tokens.saturating_add(
        added.input_uncached_tokens,
    );
    target.input_cached_tokens = target.input_cached_tokens.saturating_add(
        added.input_cached_tokens,
    );
    target.output_tokens = target.output_tokens.saturating_add(added.output_tokens);
    target.billable_tokens = target.billable_tokens.saturating_add(added.billable_tokens);
}

/// Merging two totals adds each counter, stopping at the counter type's
/// maximum.
pub proof fn lemma_merged_totals_add(a: UsageEventTotals, b: UsageEventTotals)
    ensures
        ({
            let m = merged_totals(a, b);
            &&& (a.event_count + b.event_count <= usize::MAX ==> m.event_count == a.event_count + b.event_count)
            &&& (a.event_count + b.event_count > usize::MAX ==> m.event_count == usize::MAX)
            &&& (a.input_uncached_tokens + b.input_uncached_tokens <= u64::MAX ==> m.input_uncached_tokens == a.input_uncached_tokens + b.input_uncached_tokens)
            &&& (a.input_uncached_tokens + b.input_uncached_tokens > u64::MAX ==> m.input_uncached_tokens == u64::MAX)
            &&& (a.input_cached_tokens + b.input_cached_tokens <= u64::MAX ==> m.input_cached_tokens == a.input_cached_tokens + b.input_cached_tokens)
            &&& (a.input_cached_tokens + b.input_cached_tokens > u64::MAX ==> m.input_cached_tokens == u64::MAX)
            &&& (a.output_tokens + b.output_tokens <= u64::MAX ==> m.output_tokens == a.output_tokens + b.output_tokens)
            &&& (a.output_tokens + b.output_tokens > u64::MAX ==> m.output_tokens == u64::MAX)
            &&& (a.billable_tokens + b.billable_tokens <= u64::MAX ==> m.billable_tokens == a.billable_tokens + b.billable_tokens)
            &&& (a.billable_tokens + b.billable_tokens > u64::MAX ==> m.billable_tokens == u64::MAX)
        }),
{
}

/// Merging totals does not depend on the order in which partitions are
/// merged: it is commutative and associative, and zero totals change
/// nothing.
pub proof fn lemma_merged_totals_order_free(a: UsageEventTotals, b: UsageEventTotals, c: UsageEventTotals)
    ensures
        merged_totals(a, b) == merged_totals(b, a),
        merged_totals(merged_totals(a, b), c) == merged_totals(a, merged_totals(b, c)),
        merged_totals(a, UsageEventTotals {
            event_count: 0,
            input_uncached_tokens: 0,
            input_cached_tokens: 0,
            output_tokens: 0,
            billable_tokens: 0,
        }) == a,
{
}

/// One partition fetch of a tiered page: `limit` events starting at the
/// `local_newest_offset`-th newest event of partition `partition_index`.
#[derive(Debug, Clone, Copy, PartialEq, Eq, Structural)]
pub struct TieredUsagePageFetch {
    /// Index of the partition in newest-first partition order.
    pub partition_index: usize,
    /// Number of the partition's newest events to skip.
    pub local_newest_offset: usize,
    /// Number of events to take.
    pub limit: usize,
}

/// Number of events in the partitions before partition `p`.
pub open spec fn events_before(counts: Seq<usize>, p: int) -> int
    decreases p,
{
    if p <= 0 || counts.len() == 0 {
        0
    } else {
        events_before(counts, p - 1) + counts[p - 1]
    }
}

/// The fetch of partition `p` for the global window
/// `[offset, offset + limit)`, when that window meets the partition.
pub open spec fn window_fetch(counts: Seq<usize>, offset: int, limit: int, p: int) -> Option<
    TieredUsagePageFetch,
> {
    let start = events_before(counts, p);
    let end = start + counts[p];
    let lo = if offset > start { offset } else { start };
    let hi = if offset + limit < end { offset + limit } else { end };
    if lo < hi {
        Some(
            TieredUsagePageFetch {
                partition_index: p as usize,
                local_newest_offset: (lo - start) as usize,
                limit: (hi - lo) as usize,
            },
        )
    } else {
        None
    }
}

/// The fetches of the first `n` partitions, in partition order: one per
/// partition that the window `[offset, offset + limit)` meets.
pub open spec fn page_plan(counts: Seq<usize>, offset: int, limit: int, n: int) -> Seq<
    TieredUsagePageFetch,
>
    decreases n,
{
    if n <= 0 {
        Seq::empty()
    } else {
        page_plan(counts, offset, limit, n - 1) + match window_fetch(counts, offset, limit, n - 1) {
            Some(f) => seq![f],
            None => Seq::empty(),
        }
    }
}

proof fn lemma_events_before_monotonic(counts: Seq<usize>, p: int, q: int)
    requires
        0 <= p <= q <= counts.len(),
    ensures
        events_before(counts, p) <= events_before(counts, q),
    decreases q - p,
{
    if p < q {
        lemma_events_before_monotonic(counts, p, q - 1);
    }
}

proof fn lemma_plan_stops(counts: Seq<usize>, offset: int, limit: int, k: int, n: int)
    requires
        0 <= k <= n <= counts.len(),
        events_before(counts, k) >= offset + limit,
    ensures
        page_plan(counts, offset, limit, n) == page_plan(counts, offset, limit, k),
    decreases n - k,
{
    if n > k {
        lemma_plan_stops(counts, offset, limit, k, n - 1);
        lemma_events_before_monotonic(counts, k, n - 1);
        assert(window_fetch(counts, offset, limit, n - 1) is None);
        assert(page_plan(counts, offset, limit, n) =~= page_plan(counts, offset, limit, n - 1));
    }
}

proof fn lemma_plan_without_limit(counts: Seq<usize>, offset: int, n: int)
    requires
        0 <= n <= counts.len(),
    ensures
        page_plan(counts, offset, 0, n) == Seq::<TieredUsagePageFetch>::empty(),
    decreases n,
{
    if n > 0 {
        lemma_plan_without_limit(counts, offset, n - 1);
        assert(window_fetch(counts, offset, 0, n - 1) is None);
        assert(page_plan(counts, offset, 0, n) =~= Seq::<TieredUsagePageFetch>::empty());
    }
}

/// The number of events a plan fetches.
pub open spec fn fetched_events(plan: Seq<TieredUsagePageFetch>) -> int
    decreases plan.len(),
{
    if plan.len() == 0 {
        0
    } else {
        fetched_events(plan.drop_last()) + plan.last().limit
    }
}

/// The number of events of the window `[offset, offset + limit)` that
/// `total` events hold.
pub open spec fn window_size(total: int, offset: int, limit: int) -> int {
    let hi = if offset + limit < total { offset + limit } else { total };
    if hi > offset { hi - offset } else { 0 }
}

/// A page plan fetches exactly the events of the page window that the
/// partitions hold: `min(limit, total - offset)` events, or none past the
/// end.
pub proof fn lemma_page_plan_covers_window(counts: Seq<usize>, offset: int, limit: int, n: int)
    requires
        0 <= offset,
        0 <= limit,
        0 <= n <= counts.len(),
        counts.len() <= usize::MAX,
    ensures
        fetched_events(page_plan(counts, offset, limit, n)) == window_size(events_before(counts, n), offset, limit),
    decreases n,
{
    if n > 0 {
        lemma_page_plan_covers_window(counts, offset, limit, n - 1);
        lemma_events_before_monotonic(counts, n - 1, n);
        let prev = page_plan(counts, offset, limit, n - 1);
        let cur = page_plan(counts, offset, limit, n);
        match window_fetch(counts, offset, limit, n - 1) {
            Some(f) => {
                assert(cur == prev + seq![f]);
                assert(cur.drop_last() =~= prev);
            },
            None => {
                assert(cur =~= prev);
            },
        }
    }
}

/// Splits the global page `[offset, offset + limit)` over partitions holding
/// `partition_counts` events each (newest partition first): one fetch per
/// partition that the page meets, in partition order.
pub fn plan_tiered_usage_page_fetches(partition_counts: &Vec<usize>, offset: usize, limit: usize) -> (r:
    Vec<TieredUsagePageFetch>)
    ensures
        r@ == page_plan(partition_counts@, offset as int, limit as int, partition_counts@.len() as int),
{
    let ghost counts = partition_counts@;
    if limit == 0 {
        proof {
            lemma_plan_without_limit(counts, offset as int, counts.len() as int);
        }
        return Vec::new();
    }
    let mut remaining_offset = offset;
    let mut remaining_limit = limit;
    let mut fetches: Vec<TieredUsagePageFetch> = Vec::new();
    let mut i: usize = 0;
    while i < partition_counts.len()
        invariant
            counts == partition_counts@,
            i <= counts.len(),
            0 < remaining_limit <= limit,
            remaining_offset == (if offset >= events_before(counts, i as int) {
                offset - events_before(counts, i as int)
            } else {
                0
            }),
            remaining_offset > 0 ==> events_before(counts, i as int) <= offset,
            remaining_limit == limit - (if events_before(counts, i as int) > offset {
                events_before(counts, i as int) - offset
            } else {
                0
            }),
            fetches@ == page_plan(counts, offset as int, limit as int, i as int),
        decreases counts.len() - i,
    {
        let count = partition_counts[i];
        let ghost start = events_before(counts, i as int);
        assert(events_before(counts, i + 1) == start + count);
        if count == 0 {
            assert(window_fetch(counts, offset as int, limit as int, i as int) is None);
            assert(page_plan(counts, offset as int, limit as int, i + 1) =~= fetches@);
            i = i + 1;
            continue;
        }
        if remaining_offset >= count {
            remaining_offset = remaining_offset - count;
            assert(window_fetch(counts, offset as int, limit as int, i as int) is None);
            assert(page_plan(counts, offset as int, limit as int, i + 1) =~= fetches@);
            i = i + 1;
            continue;
        }
        let available = count - remaining_offset;
        let fetch_limit = if available < remaining_limit { available } else { remaining_limit };
        let fetch = TieredUsagePageFetch {
            partition_index: i,
            local_newest_offset: remaining_offset,
            limit: fetch_limit,
        };
        assert(window_fetch(counts, offset as int, limit as int, i as int) == Some(fetch));
        fetches.push(fetch);
        assert(fetches@ =~= page_plan(counts, offset as int, limit as int, i + 1));
        remaining_limit = remaining_limit - fetch_limit;
        remaining_offset = 0;
        if remaining_limit == 0 {
            proof {
                lemma_plan_stops(counts, offset as int, limit as int, i + 1, counts.len() as int);
            }
            return fetches;
        }
        i = i + 1;
    }
    fetches
}

/// What one partition's page listing fetches: `fetch_count` events, skipping
/// `reverse_offset` events from the oldest end; `None` for an empty page.
pub open spec fn page_window(total: usize, offset: usize, limit: usize) -> Option<(usize, usize)> {
    let safe_limit = if limit < USAGE_EVENT_PAGE_MAX_LIMIT { limit } else { USAGE_EVENT_PAGE_MAX_LIMIT };
    if safe_limit == 0 || offset >= total {
        None
    } else {
        let fetch_count: int = if total - offset < safe_limit { total - offset } else { safe_limit as int };
        Some((fetch_count as usize, (total - offset - fetch_count) as usize))
    }
}

/// The fetch window of a single-partition page listing: the page holds the
/// events `offset..offset + fetch_count` counted from the newest, which are
/// read oldest-first after skipping `reverse_offset` events.
pub fn usage_event_page_window(total: usize, offset: usize, limit: usize) -> (r: Option<(usize, usize)>)
    ensures
        r == page_window(total, offset, limit),
        r matches Some((fetch_count, reverse_offset)) ==> fetch_count > 0 && reverse_offset
            + fetch_count + offset == total,
{
    let safe_limit = if limit < USAGE_EVENT_PAGE_MAX_LIMIT { limit } else { USAGE_EVENT_PAGE_MAX_LIMIT };
    if safe_limit == 0 || offset >= total {
        return None;
    }
    let fetch_count = if total - offset < safe_limit { total - offset } else { safe_limit };
    Some((fetch_count, total - offset - fetch_count))
}

/// Whether events remain after a page of `returned` events at `offset`.
pub fn page_has_more(offset: usize, returned: usize, total: usize) -> (r: bool)
    ensures
        r == (offset + returned < total),
{
    offset.saturating_add(returned) < total
}

/// Whether an earlier row of `rows` has the event id of row `i`.
pub open spec fn seen_before(rows: Seq<UsageEventRow>, i: int) -> bool {
    exists|j: int| 0 <= j < i && #[trigger] rows[j].event_id@ == rows[i].event_id@
}

/// `rows` keeping only the first row of each event id, in order.
pub open spec fn first_occurrences(rows: Seq<UsageEventRow>) -> Seq<UsageEventRow>
    decreases rows.len(),
{
    if rows.len() == 0 {
        Seq::empty()
    } else {
        first_occurrences(rows.drop_last()) + (if seen_before(rows, rows.len() - 1) {
            Seq::empty()
        } else {
            seq![rows.last()]
        })
    }
}

/// Whether some row of `rows` has event id `id`.
pub open spec fn has_event_id(rows: Seq<UsageEventRow>, id: Seq<char>) -> bool {
    exists|j: int| 0 <= j < rows.len() && #[trigger] rows[j].event_id@ == id
}

proof fn lemma_first_occurrences_ids(rows: Seq<UsageEventRow>, k: int)
    requires
        0 <= k <= rows.len(),
    ensures
        forall|x: Seq<char>|
            #[trigger] has_event_id(first_occurrences(rows.subrange(0, k)), x) == has_event_id(
                rows.subrange(0, k),
                x,
            ),
    decreases k,
{
    let s = rows.subrange(0, k);
    if k > 0 {
        lemma_first_occurrences_ids(rows, k - 1);
        assert(s.drop_last() =~= rows.subrange(0, k - 1));
        let ps = rows.subrange(0, k - 1);
        let prev = first_occurrences(ps);
        let cur = first_occurrences(s);
        assert forall|x: Seq<char>| #[trigger] has_event_id(cur, x) == has_event_id(s, x) by {
            if has_event_id(s, x) {
                let j = choose|j: int| 0 <= j < s.len() && #[trigger] s[j].event_id@ == x;
                if j < k - 1 {
                    assert(ps[j].event_id@ == x);
                    assert(has_event_id(ps, x));
                    assert(has_event_id(prev, x));
                    let a = choose|a: int| 0 <= a < prev.len() && #[trigger] prev[a].event_id@ == x;
                    assert(cur[a] == prev[a]);
                } else if seen_before(s, k - 1) {
                    let j2 = choose|j2: int| 0 <= j2 < k - 1 && #[trigger] s[j2].event_id@
                        == s[k - 1].event_id@;
                    assert(ps[j2].event_id@ == x);
                    assert(has_event_id(ps, x));
                    assert(has_event_id(prev, x));
                    let a = choose|a: int| 0 <= a < prev.len() && #[trigger] prev[a].event_id@ == x;
                    assert(cur[a] == prev[a]);
                } else {
                    assert(cur[prev.len() as int] == s[k - 1]);
                }
            }
            if has_event_id(cur, x) {
                let a = choose|a: int| 0 <= a < cur.len() && #[trigger] cur[a].event_id@ == x;
                if a < prev.len() {
                    assert(prev[a] == cur[a]);
                    assert(has_event_id(prev, x));
                    let j = choose|j: int| 0 <= j < ps.len() && #[trigger] ps[j].event_id@ == x;
                    assert(s[j] == ps[j]);
                } else {
                    assert(cur[a] == s[k - 1]);
                }
            }
        }
    } else {
        assert(first_occurrences(s) =~= Seq::<UsageEventRow>::empty());
    }
}

fn contains_id(ids: &Vec<String>, id: &String) -> (r: bool)
    ensures
        r == exists|j: int| 0 <= j < ids@.len() && #[trigger] ids@[j]@ == id@,
{
    let mut i: usize = 0;
    while i < ids.len()
        invariant
            i <= ids.len(),
            forall|j: int| 0 <= j < i ==> ids@[j]@ != id@,
        decreases ids.len() - i,
    {
        if ids[i] == *id {
            return true;
        }
        i = i + 1;
    }
    false
}

/// Drops every row whose event id already occurred earlier in the batch,
/// keeping the first row of each id and the batch order.
pub fn dedupe_usage_event_rows(rows: &Vec<UsageEventRow>) -> (r: Vec<UsageEventRow>)
    ensures
        r@ == first_occurrences(rows@),
{
    let mut seen: Vec<String> = Vec::new();
    let mut out: Vec<UsageEventRow> = Vec::new();
    let mut i: usize = 0;
    while i < rows.len()
        invariant
            i <= rows.len(),
            out@ == first_occurrences(rows@.subrange(0, i as int)),
            seen@.len() == out@.len(),
            forall|a: int| 0 <= a < seen@.len() ==> #[trigger] seen@[a]@ == out@[a].event_id@,
        decreases rows.len() - i,
    {
        let row = &rows[i];
        proof {
            lemma_first_occurrences_ids(rows@, i as int);
        }
        let dup = contains_id(&seen, &row.event_id);
        let ghost s = rows@.subrange(0, i + 1);
        assert(s.drop_last() =~= rows@.subrange(0, i as int));
        if dup {
            proof {
                let a = choose|a: int| 0 <= a < seen@.len() && #[trigger] seen@[a]@ == row.event_id@;
                assert(out@[a].event_id@ == row.event_id@);
                assert(has_event_id(out@, row.event_id@));
                let ps = rows@.subrange(0, i as int);
                assert(has_event_id(ps, row.event_id@));
                let j = choose|j: int| 0 <= j < ps.len() && #[trigger] ps[j].event_id@
                    == row.event_id@;
                assert(s[j].event_id@ == s[i as int].event_id@);
                assert(seen_before(s, i as int));
            }
            assert(first_occurrences(s) =~= out@);
        } else {
            proof {
                if seen_before(s, i as int) {
                    let j = choose|j: int| 0 <= j < i && #[trigger] s[j].event_id@
                        == s[i as int].event_id@;
                    let ps = rows@.subrange(0, i as int);
                    assert(ps[j].event_id@ == row.event_id@);
                    assert(has_event_id(ps, row.event_id@));
                    assert(has_event_id(out@, row.event_id@));
                    let a = choose|a: int| 0 <= a < out@.len() && #[trigger] out@[a].event_id@
                        == row.event_id@;
                    assert(seen@[a]@ == row.event_id@);
                }
            }
            seen.push(row.event_id.clone());
            out.push(row.duplicate());
            assert(first_occurrences(s) =~= out@);
        }
        i = i + 1;
    }
    assert(rows@.subrange(0, rows.len() as int) =~= rows@);
    out
}

} // verus!
