//! Usage charts: token totals of one key in consecutive time buckets, and
//! the queries that collect them.
use vstd::prelude::*;
use crate::catalog::{UsageEventQuery, UsageEventSource};
use crate::metrics::clamp_i64;
use crate::query::USAGE_EVENT_PAGE_MAX_LIMIT;

verus! {

/// The tokens of one chart bucket.
#[derive(Debug, Clone, Copy, PartialEq, Eq, Structural)]
pub struct UsageChartPoint {
    pub bucket_start_ms: i64,
    pub tokens: u64,
}

/// The start of bucket `index`: `start + index * bucket`, each step
/// saturating.
pub open spec fn bucket_start(start_ms: i64, bucket_ms: i64, index: int) -> i64 {
    clamp_i64(start_ms + clamp_i64(index * bucket_ms))
}

/// The empty bucket `index`.
pub open spec fn empty_point(start_ms: i64, bucket_ms: i64, index: int) -> UsageChartPoint {
    UsageChartPoint { bucket_start_ms: bucket_start(start_ms, bucket_ms, index), tokens: 0 }
}

/// `a * b` saturating in `i64`.
fn saturating_mul_i64(a: i64, b: i64) -> (r: i64)
    ensures
        r == clamp_i64(a * b),
{
    let x = a as i128;
    let y = b as i128;
    assert(-0x8000_0000_0000_0000 * 0x8000_0000_0000_0000 <= x * y <= 0x8000_0000_0000_0000 * 0x8000_0000_0000_0000) by (nonlinear_arith)
        requires
            -0x8000_0000_0000_0000 <= x <= 0x7fff_ffff_ffff_ffff,
            -0x8000_0000_0000_0000 <= y <= 0x7fff_ffff_ffff_ffff,
    ;
    let p = x * y;
    if p > i64::MAX as i128 {
        i64::MAX
    } else if p < i64::MIN as i128 {
        i64::MIN
    } else {
        p as i64
    }
}

/// `a + b` saturating in `i64`.
fn saturating_add_i64(a: i64, b: i64) -> (r: i64)
    ensures
        r == clamp_i64(a + b),
{
    let s = (a as i128) + (b as i128);
    if s > i64::MAX as i128 {
        i64::MAX
    } else if s < i64::MIN as i128 {
        i64::MIN
    } else {
        s as i64
    }
}

/// `bucket_count` empty buckets from `start_ms`, `bucket_ms` apart.
pub fn empty_usage_chart_points(start_ms: i64, bucket_ms: i64, bucket_count: usize) -> (r: Vec<UsageChartPoint>)
    requires
        bucket_count <= i64::MAX,
    ensures
        r@.len() == bucket_count,
        forall|i: int| 0 <= i < bucket_count ==> #[trigger] r@[i] == empty_point(start_ms, bucket_ms, i),
{
    let mut points: Vec<UsageChartPoint> = Vec::new();
    let mut i: usize = 0;
    while i < bucket_count
        invariant
            i <= bucket_count,
            bucket_count <= i64::MAX,
            points@.len() == i,
            forall|k: int| 0 <= k < i ==> #[trigger] points@[k] == empty_point(start_ms, bucket_ms, k),
        decreases bucket_count - i,
    {
        let offset = saturating_mul_i64(i as i64, bucket_ms);
        let at = saturating_add_i64(start_ms, offset);
        points.push(UsageChartPoint { bucket_start_ms: at, tokens: 0 });
        i = i + 1;
    }
    points
}

/// The end of the charted window: the end of the last bucket, or the start
/// when there is no bucket.
pub fn chart_window_end_ms(points: &Vec<UsageChartPoint>, start_ms: i64, bucket_ms: i64) -> (r: i64)
    ensures
        r == (if points@.len() == 0 { start_ms } else { clamp_i64(points@.last().bucket_start_ms + bucket_ms) }),
{
    if points.len() == 0 {
        start_ms
    } else {
        saturating_add_i64(points[points.len() - 1].bucket_start_ms, bucket_ms)
    }
}

/// Whether the chart reads the hourly rollups: whole-hour buckets and a
/// non-empty rollup table.
pub fn chart_uses_hourly_rollups(bucket_ms: i64, rollups_exist: bool, rollups_have_rows: bool) -> (r: bool)
    ensures
        r == (bucket_ms % 3_600_000 == 0 && rollups_exist && rollups_have_rows),
{
    bucket_ms % 3_600_000 == 0 && rollups_exist && rollups_have_rows
}

/// The chart after adding one `(bucket index, tokens)` row: a bucket inside
/// the chart gains the tokens (negative counts as zero), saturating.
pub open spec fn points_after_row(points: Seq<UsageChartPoint>, row: (i64, i64)) -> Seq<UsageChartPoint> {
    if 0 <= row.0 < points.len() {
        let p = points[row.0 as int];
        let add: int = if row.1 < 0 { 0 } else { row.1 as int };
        let t: int = if p.tokens + add > u64::MAX { u64::MAX as int } else { p.tokens + add };
        points.update(row.0 as int, UsageChartPoint { bucket_start_ms: p.bucket_start_ms, tokens: t as u64 })
    } else {
        points
    }
}

/// The chart after adding rows in order.
pub open spec fn points_after_rows(points: Seq<UsageChartPoint>, rows: Seq<(i64, i64)>) -> Seq<UsageChartPoint>
    decreases rows.len(),
{
    if rows.len() == 0 {
        points
    } else {
        points_after_row(points_after_rows(points, rows.drop_last()), rows.last())
    }
}

/// Adds the `(bucket index, tokens)` rows of one partition to a chart.
pub fn add_usage_chart_rows(points: &mut Vec<UsageChartPoint>, rows: &Vec<(i64, i64)>)
    ensures
        final(points)@ == points_after_rows(old(points)@, rows@),
{
    let ghost start = points@;
    let mut i: usize = 0;
    while i < rows.len()
        invariant
            i <= rows@.len(),
            points@ == points_after_rows(start, rows@.take(i as int)),
        decreases rows.len() - i,
    {
        let (index, tokens) = rows[i];
        if 0 <= index && (index as u64) < (points.len() as u64) {
            let k = index as usize;
            let p = points[k];
            let add: u64 = if tokens < 0 { 0 } else { tokens as u64 };
            points.set(k, UsageChartPoint { bucket_start_ms: p.bucket_start_ms, tokens: p.tokens.saturating_add(add) });
        }
        proof {
            assert(rows@.take(i + 1).drop_last() =~= rows@.take(i as int));
            assert(rows@.take(i + 1).last() == rows@[i as int]);
        }
        i = i + 1;
    }
    assert(rows@.take(i as int) =~= rows@);
}

/// The archive query of a chart: the key's events from the chart start to
/// the end of its last bucket (each step saturating).
pub fn chart_archive_query(key_id: &str, start_ms: i64, bucket_ms: i64, bucket_count: usize) -> (r: UsageEventQuery)
    requires
        bucket_count <= i64::MAX,
    ensures
        r.key_id matches Some(k) && k@ == key_id@,
        r.provider_type is None && r.model is None && r.account_name is None && r.endpoint is None,
        r.status_code is None && r.status_kind is None,
        r.source == UsageEventSource::Archive,
        r.start_ms == Some(start_ms),
        r.end_ms == Some(clamp_i64(start_ms + clamp_i64(bucket_count * bucket_ms))),
        r.limit == USAGE_EVENT_PAGE_MAX_LIMIT,
        r.offset == 0,
{
    let span = saturating_mul_i64(bucket_count as i64, bucket_ms);
    UsageEventQuery {
        key_id: Some(key_id.to_owned()),
        provider_type: None,
        model: None,
        account_name: None,
        endpoint: None,
        status_code: None,
        status_kind: None,
        source: UsageEventSource::Archive,
        start_ms: Some(start_ms),
        end_ms: Some(saturating_add_i64(start_ms, span)),
        limit: USAGE_EVENT_PAGE_MAX_LIMIT,
        offset: 0,
    }
}

/// Adding a row to a chart: the row's bucket, when it is inside the chart,
/// gains the row's tokens (negative counts as zero), stopping at
/// `u64::MAX`, and keeps its start; every other bucket is unchanged; a row
/// outside the chart changes nothing.
pub proof fn lemma_points_after_row_adds_tokens(points: Seq<UsageChartPoint>, row: (i64, i64))
    ensures
        ({
            let r = points_after_row(points, row);
            let add: int = if row.1 < 0 { 0 } else { row.1 as int };
            &&& r.len() == points.len()
            &&& (forall|k: int| 0 <= k < points.len() && k != row.0 ==> #[trigger] r[k] == points[k])
            &&& (0 <= row.0 < points.len() ==> {
                let k = row.0 as int;
                &&& r[k].bucket_start_ms == points[k].bucket_start_ms
                &&& (points[k].tokens + add <= u64::MAX ==> r[k].tokens == points[k].tokens + add)
                &&& (points[k].tokens + add > u64::MAX ==> r[k].tokens == u64::MAX)
            })
            &&& (!(0 <= row.0 < points.len()) ==> r == points)
        }),
{
}

/// Bucket `index` starts `index` buckets after the chart start, when that
/// stays in the `i64` range.
pub proof fn lemma_bucket_start_offsets(start_ms: i64, bucket_ms: i64, index: int)
    requires
        i64::MIN <= index * bucket_ms <= i64::MAX,
        i64::MIN <= start_ms + index * bucket_ms <= i64::MAX,
    ensures
        bucket_start(start_ms, bucket_ms, index) == start_ms + index * bucket_ms,
{
}

} // verus!
