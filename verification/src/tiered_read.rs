//! Page reads over tiered storage: the partitions a listing reads (the
//! active segment, then archived segments newest first), their counts and
//! totals, and the reads that assemble one page from them.
use vstd::prelude::*;
use crate::catalog::{ArchivedUsageSegment, UsageEventQuery, fully_inside, segment_fully_inside};
use crate::catalog_query::{UsageCatalogSegment, UsageCatalogSegmentMatch};
use crate::query::{
    TieredUsagePageFetch, USAGE_EVENT_PAGE_MAX_LIMIT, UsageEventTotals, merge_usage_event_totals, merged_totals,
    page_plan, plan_tiered_usage_page_fetches, saturating_add_spec,
};

verus! {

/// Whether a partition is the active segment or an archived one.
#[derive(Debug, Clone, Copy, PartialEq, Eq, Structural)]
pub enum TieredUsagePartitionKind {
    Active,
    Archive,
}

/// A segment that holds events of a listing, with their count and totals.
#[derive(Debug, Clone)]
pub struct TieredUsagePartition {
    pub path: String,
    pub count: usize,
    pub totals: UsageEventTotals,
    pub kind: TieredUsagePartitionKind,
}

/// The archived segment of a catalog match.
pub fn archived_segment_from_match(segment: &UsageCatalogSegment) -> (r: ArchivedUsageSegment)
    ensures
        r.archive_path@ == segment.archive_path@,
        r.start_ms == segment.start_ms,
        r.end_ms == segment.end_ms,
{
    ArchivedUsageSegment { archive_path: segment.archive_path.clone(), start_ms: segment.start_ms, end_ms: segment.end_ms }
}

/// The totals of a matched archived segment when the catalog's totals can
/// stand for scanning it: the segment lies wholly inside the query window
/// and the catalog gave totals; `None` when the segment must be scanned.
pub fn catalog_partition_totals(segment_match: &UsageCatalogSegmentMatch, query: &UsageEventQuery) -> (r: Option<UsageEventTotals>)
    ensures
        r == (if fully_inside(
            ArchivedUsageSegment { archive_path: segment_match.segment.archive_path, start_ms: segment_match.segment.start_ms, end_ms: segment_match.segment.end_ms },
            query.start_ms,
            query.end_ms,
        ) {
            segment_match.matching_totals
        } else {
            None
        }),
{
    let segment = archived_segment_from_match(&segment_match.segment);
    if segment_fully_inside(&segment, query) {
        segment_match.matching_totals
    } else {
        None
    }
}

/// One read of a page: `limit` events of partition `partition_index`,
/// read oldest first after skipping `reverse_offset` events from its oldest
/// end (the events are then reversed to newest first).
#[derive(Debug, Clone, Copy, PartialEq, Eq, Structural)]
pub struct PartitionRead {
    pub partition_index: usize,
    pub limit: usize,
    pub reverse_offset: usize,
}

/// How a page of a tiered listing is read.
#[derive(Debug, Clone)]
pub struct UsageEventPagePlan {
    /// The partitions holding events, active first.
    pub partitions: Vec<TieredUsagePartition>,
    /// The number of matching events (saturating).
    pub total: usize,
    /// The totals of the matching events.
    pub totals: UsageEventTotals,
    /// The page offset.
    pub offset: usize,
    /// The page size, at most `USAGE_EVENT_PAGE_MAX_LIMIT`.
    pub limit: usize,
    /// The reads, in page order.
    pub reads: Vec<PartitionRead>,
}

/// The count of each partition.
pub open spec fn partition_counts(parts: Seq<TieredUsagePartition>) -> Seq<usize> {
    Seq::new(parts.len(), |i: int| parts[i].count)
}

/// The saturating sum of counts.
pub open spec fn count_sum(counts: Seq<usize>, n: int) -> usize
    decreases n,
{
    if n <= 0 {
        0
    } else {
        saturating_add_spec(count_sum(counts, n - 1) as int, counts[n - 1] as int, usize::MAX as int) as usize
    }
}

/// The totals folded over partitions, starting from `start`.
pub open spec fn totals_fold(start: UsageEventTotals, parts: Seq<TieredUsagePartition>, n: int) -> UsageEventTotals
    decreases n,
{
    if n <= 0 {
        start
    } else {
        merged_totals(totals_fold(start, parts, n - 1), parts[n - 1].totals)
    }
}

/// The read of one fetch.
pub open spec fn fetch_read(f: TieredUsagePageFetch, parts: Seq<TieredUsagePartition>) -> PartitionRead {
    let count = parts[f.partition_index as int].count as int;
    let newest = f.local_newest_offset + f.limit;
    PartitionRead {
        partition_index: f.partition_index,
        limit: f.limit,
        reverse_offset: (if count > newest { count - newest } else { 0 }) as usize,
    }
}

/// The empty totals.
pub open spec fn no_totals() -> UsageEventTotals {
    UsageEventTotals { event_count: 0, input_uncached_tokens: 0, input_cached_tokens: 0, output_tokens: 0, billable_tokens: 0 }
}

/// Plans one page of a tiered listing. `active` holds the active segment's
/// path and totals when the listing reads it; `archive` holds the archived
/// partitions with events, newest first. The active segment counts toward
/// the totals always and is read only when it holds events.
pub fn plan_usage_event_page(
    active: Option<(String, UsageEventTotals)>,
    archive: Vec<TieredUsagePartition>,
    offset: usize,
    limit: usize,
) -> (r: UsageEventPagePlan)
    ensures
        ({
            let start = match active { Some((_, t)) => t, None => no_totals() };
            let start_count: usize = match active { Some((_, t)) => t.event_count, None => 0 };
            let parts = r.partitions@;
            let safe_limit: usize = if limit < USAGE_EVENT_PAGE_MAX_LIMIT { limit } else { USAGE_EVENT_PAGE_MAX_LIMIT };
            &&& parts == (match active {
                Some((p, t)) => if t.event_count > 0 {
                    seq![TieredUsagePartition { path: p, count: t.event_count, totals: t, kind: TieredUsagePartitionKind::Active }]
                } else {
                    Seq::empty()
                },
                None => Seq::empty(),
            }) + archive@
            &&& r.total == count_sum(seq![start_count] + partition_counts(archive@), archive@.len() + 1int)
            &&& r.totals == totals_fold(start, archive@, archive@.len() as int)
            &&& r.offset == offset
            &&& r.limit == safe_limit
            &&& r.reads@ == (if safe_limit > 0 && offset < r.total {
                page_plan(partition_counts(parts), offset as int, safe_limit as int, parts.len() as int).map_values(
                    |f: TieredUsagePageFetch| fetch_read(f, parts))
            } else {
                Seq::empty()
            })
        }),
{
    let safe_limit = if limit < USAGE_EVENT_PAGE_MAX_LIMIT { limit } else { USAGE_EVENT_PAGE_MAX_LIMIT };
    let mut partitions: Vec<TieredUsagePartition> = Vec::new();
    let mut total: usize = 0;
    let mut totals = UsageEventTotals { event_count: 0, input_uncached_tokens: 0, input_cached_tokens: 0, output_tokens: 0, billable_tokens: 0 };
    match active {
        Some((path, t)) => {
            total = t.event_count;
            totals = t;
            if t.event_count > 0 {
                partitions.push(TieredUsagePartition { path, count: t.event_count, totals: t, kind: TieredUsagePartitionKind::Active });
            }
        },
        None => {},
    }
    let ghost start_count: usize = total;
    let ghost start = totals;
    let ghost counts_all = seq![start_count] + partition_counts(archive@);
    let ghost head = partitions@;
    proof {
        assert(counts_all[0] == start_count);
        assert(count_sum(counts_all, 1) == start_count) by {
            assert(count_sum(counts_all, 0) == 0);
        }
    }
    let mut i: usize = 0;
    while i < archive.len()
        invariant
            i <= archive@.len(),
            counts_all == seq![start_count] + partition_counts(archive@),
            total == count_sum(counts_all, i + 1),
            totals == totals_fold(start, archive@, i as int),
            partitions@ == head + archive@.take(i as int),
        decreases archive.len() - i,
    {
        let count = archive[i].count;
        total = total.saturating_add(count);
        merge_usage_event_totals(&mut totals, &archive[i].totals);
        let p = TieredUsagePartition {
            path: archive[i].path.clone(),
            count: archive[i].count,
            totals: archive[i].totals,
            kind: archive[i].kind,
        };
        partitions.push(p);
        proof {
            assert(counts_all[i + 1] == count);
            assert(archive@.take(i + 1) =~= archive@.take(i as int).push(archive@[i as int]));
            assert(partitions@ =~= head + archive@.take(i + 1));
        }
        i = i + 1;
    }
    assert(archive@.take(i as int) =~= archive@);
    let mut reads: Vec<PartitionRead> = Vec::new();
    if safe_limit > 0 && offset < total {
        let mut counts: Vec<usize> = Vec::new();
        let mut k: usize = 0;
        while k < partitions.len()
            invariant
                k <= partitions@.len(),
                counts@ == partition_counts(partitions@).take(k as int),
            decreases partitions.len() - k,
        {
            counts.push(partitions[k].count);
            assert(counts@ =~= partition_counts(partitions@).take(k + 1));
            k = k + 1;
        }
        assert(counts@ =~= partition_counts(partitions@));
        let plan = plan_tiered_usage_page_fetches(&counts, offset, safe_limit);
        let mut j: usize = 0;
        let plen = partitions.len();
        assert(partitions@.len() == plen);
        while j < plan.len()
            invariant
                j <= plan@.len(),
                partitions@.len() == plen,
                plan@ == page_plan(partition_counts(partitions@), offset as int, safe_limit as int, partitions@.len() as int),
                reads@ == plan@.take(j as int).map_values(|f: TieredUsagePageFetch| fetch_read(f, partitions@)),
            decreases plan.len() - j,
        {
            let f = plan[j];
            proof {
                crate::tiered_read::lemma_plan_indices(partition_counts(partitions@), offset as int, safe_limit as int, partitions@.len() as int, j as int);
            }
            let count = partitions[f.partition_index].count;
            let newest = f.local_newest_offset.saturating_add(f.limit);
            let reverse_offset = count.saturating_sub(newest);
            proof {
                crate::tiered_read::lemma_plan_window(partition_counts(partitions@), offset as int, safe_limit as int, partitions@.len() as int, j as int);
            }
            reads.push(PartitionRead { partition_index: f.partition_index, limit: f.limit, reverse_offset });
            assert(reads@ =~= plan@.take(j + 1).map_values(|f: TieredUsagePageFetch| fetch_read(f, partitions@)));
            j = j + 1;
        }
        assert(plan@.take(j as int) =~= plan@);
    }
    UsageEventPagePlan { partitions, total, totals, offset, limit: safe_limit, reads }
}

/// Every fetch of a plan names one of the partitions.
pub proof fn lemma_plan_indices(counts: Seq<usize>, offset: int, limit: int, n: int, j: int)
    requires
        0 <= n <= counts.len(),
        counts.len() <= usize::MAX,
        0 <= j < page_plan(counts, offset, limit, n).len(),
    ensures
        page_plan(counts, offset, limit, n)[j].partition_index < n,
    decreases n,
{
    let prev = page_plan(counts, offset, limit, n - 1);
    if j < prev.len() {
        lemma_plan_indices(counts, offset, limit, n - 1, j);
        assert(page_plan(counts, offset, limit, n)[j] == prev[j]);
    } else {
        let f = crate::query::window_fetch(counts, offset, limit, n - 1);
        assert(page_plan(counts, offset, limit, n) == prev + seq![f->0]);
        assert(page_plan(counts, offset, limit, n)[j] == f->0);
    }
}

/// Every fetch of a plan lies inside its partition.
pub proof fn lemma_plan_window(counts: Seq<usize>, offset: int, limit: int, n: int, j: int)
    requires
        0 <= n <= counts.len(),
        counts.len() <= usize::MAX,
        0 <= j < page_plan(counts, offset, limit, n).len(),
    ensures
        page_plan(counts, offset, limit, n)[j].local_newest_offset + page_plan(counts, offset, limit, n)[j].limit
            <= counts[page_plan(counts, offset, limit, n)[j].partition_index as int],
    decreases n,
{
    let prev = page_plan(counts, offset, limit, n - 1);
    if j < prev.len() {
        lemma_plan_window(counts, offset, limit, n - 1, j);
        assert(page_plan(counts, offset, limit, n)[j] == prev[j]);
    } else {
        let p = n - 1;
        let start = crate::query::events_before(counts, p);
        let end = start + counts[p];
        let lo = if offset > start { offset } else { start };
        let hi = if offset + limit < end { offset + limit } else { end };
        let f = crate::query::window_fetch(counts, offset, limit, p);
        assert(f is Some);
        assert(0 <= lo - start <= counts[p]);
        assert(0 <= hi - lo <= counts[p]);
        assert(f->0.local_newest_offset == lo - start);
        assert(f->0.limit == hi - lo);
        assert(page_plan(counts, offset, limit, n) == prev + seq![f->0]);
        assert(page_plan(counts, offset, limit, n)[j] == f->0);
        assert(f->0.partition_index as int == p);
    }
}

} // verus!
