//! The life of a tiered segment: the active segment's rollover and expiry,
//! the id a sealed segment gets, the catalog records built from a segment's
//! statistics, the check that compaction kept a segment whole, and the
//! retention cutoff.
use vstd::prelude::*;
use crate::catalog::{
    UsageCatalogFieldName, UsageCatalogFieldRollupRecord, UsageCatalogKeyRollupRecord, UsageCatalogSegmentRecord,
};
use crate::catalog_state::{
    CatalogSegmentEntry, TestTieredUsageCatalog, published_locators, string_views,
};
use crate::model::TieredDuckDbUsageConfig;
use crate::scan::{parse_i64_chars, parse_i64_spec, parse_u64_spec, second_field};
use crate::segment_paths::{active_segment_name, joined_path, next_after, segment_sequence};
use crate::text::{decimal, push_decimal, push_zero_padded, signed_decimal, string_push, zero_padded};

verus! {

#[verifier::external_type_specification]
#[verifier::external_body]
pub struct ExSystemTime(std::time::SystemTime);

/// `SystemTime::now`: the system clock's current time. Nothing is claimed
/// of it.
#[verifier::external_body]
fn system_time_now() -> (r: std::time::SystemTime) {
    std::time::SystemTime::now()
}

/// `SystemTime::duration_since(UNIX_EPOCH)`: the time elapsed since the
/// epoch, or `None` when the time lies before it. Nothing is claimed of the
/// value.
#[verifier::external_body]
fn time_since_epoch(t: &std::time::SystemTime) -> (r: Option<std::time::Duration>) {
    match t.duration_since(std::time::UNIX_EPOCH) {
        Ok(elapsed) => Some(elapsed),
        Err(_) => None,
    }
}

/// `Duration::as_millis`: the whole milliseconds of a duration. Nothing is
/// claimed of the value.
#[verifier::external_body]
fn duration_as_millis(d: &std::time::Duration) -> (r: u128) {
    d.as_millis()
}

/// The current time in milliseconds since the epoch, saturated to `i64`
/// (zero when the clock is before the epoch).
pub fn now_ms() -> (r: i64)
    ensures
        r >= 0,
{
    let now = system_time_now();
    match time_since_epoch(&now) {
        Some(elapsed) => {
            let ms = duration_as_millis(&elapsed);
            if ms > i64::MAX as u128 { i64::MAX } else { ms as i64 }
        },
        None => 0,
    }
}

/// The sealing time written in a segment id `usage-<ms>-<sequence>`: its
/// second `-`-separated field, parsed as `i64`.
pub open spec fn sealed_at_in_id(segment_id: Seq<char>) -> Option<i64> {
    match second_field(segment_id, '-') {
        Some(f) => parse_i64_spec(f),
        None => None,
    }
}

/// The sealing time written in a segment id.
pub fn sealed_at_ms_from_segment_id(segment_id: &str) -> (r: Option<i64>)
    ensures
        r == sealed_at_in_id(segment_id@),
{
    match crate::scan::second_split_field(segment_id, '-') {
        Some(field) => parse_i64_chars(&field),
        None => None,
    }
}

/// The sealing time of a segment: the one in its id, or now.
pub fn sealed_at_ms_for_segment(segment_id: &str) -> (r: i64)
    ensures
        sealed_at_in_id(segment_id@) matches Some(t) ==> r == t,
        sealed_at_in_id(segment_id@) is None ==> r >= 0,
{
    match sealed_at_ms_from_segment_id(segment_id) {
        Some(t) => t,
        None => now_ms(),
    }
}

/// The id a sealed active segment gets: `usage-<now_ms>-<sequence:012>`.
pub open spec fn sealed_segment_id(now_ms: i64, sequence: u64) -> Seq<char> {
    "usage-"@ + signed_decimal(now_ms as int) + "-"@ + zero_padded(decimal(sequence as nat), 12)
}

/// The id a sealed active segment gets.
pub fn rollover_segment_id(now_ms: i64, sequence: u64) -> (r: String)
    ensures
        r@ == sealed_segment_id(now_ms, sequence),
{
    let mut s = String::new();
    s.append("usage-");
    let t = crate::text::format_i64(now_ms);
    s.append(t.as_str());
    string_push(&mut s, '-');
    push_zero_padded(&mut s, sequence, 12);
    proof {
        reveal_strlit("-");
    }
    assert(s@ =~= sealed_segment_id(now_ms, sequence));
    s
}

/// The sequence a sealed active segment keeps: the one in its file name, or
/// the next one.
pub fn rollover_sequence(active_path: &str, next_sequence: u64) -> (r: u64)
    ensures
        r == (match segment_sequence(active_path@) { Some(v) => v, None => next_sequence }),
{
    match crate::segment_paths::parse_segment_sequence(active_path) {
        Some(v) => v,
        None => next_sequence,
    }
}

/// The pending path of a sealed segment: `<segment_id>.duckdb` in the
/// pending directory.
pub fn pending_segment_path(config: &TieredDuckDbUsageConfig, segment_id: &str) -> (r: String)
    ensures
        r@ == joined_path(joined_path(config.active_dir@, "pending"@), segment_id@ + ".duckdb"@),
{
    let dir = crate::segment_paths::tiered_pending_dir(config);
    let name = crate::segment_paths::archive_segment_file_name(segment_id);
    crate::segment_paths::path_join(dir.as_str(), name.as_str())
}

/// Whether the active segment has reached the rollover size (at least one
/// byte).
pub fn rollover_due(active_disk_bytes: u64, rollover_bytes: u64) -> (r: bool)
    ensures
        r == (active_disk_bytes >= (if rollover_bytes < 1 { 1 } else { rollover_bytes })),
{
    let threshold = if rollover_bytes < 1 { 1 } else { rollover_bytes };
    active_disk_bytes >= threshold
}

/// The writable state of tiered storage: the active segment file, the next
/// sequence number and whether the active segment holds rows.
#[derive(Debug, Clone)]
pub struct TieredDuckDbUsageState {
    pub active_path: String,
    pub next_sequence: u64,
    pub active_has_rows: bool,
}

impl TieredDuckDbUsageState {
    /// Starts a fresh active segment at the next sequence number (after the
    /// previous one was sealed or discarded).
    pub fn advance_active_segment(&mut self, config: &TieredDuckDbUsageConfig)
        ensures
            final(self).active_path@ == joined_path(config.active_dir@, active_segment_name(old(self).next_sequence)),
            final(self).next_sequence == next_after(old(self).next_sequence),
            !final(self).active_has_rows,
    {
        self.active_path = crate::segment_paths::active_segment_path(config, self.next_sequence);
        self.next_sequence = self.next_sequence.saturating_add(1);
        self.active_has_rows = false;
    }
}

/// What retention does with the active segment: nothing when it is empty,
/// marks it empty when it has no rows after all, discards it when its
/// newest event is older than the cutoff.
#[derive(Debug, Clone, Copy, PartialEq, Eq, Structural)]
pub enum ActiveSegmentRetention {
    Keep,
    MarkEmpty,
    Discard,
}

/// Decides what retention does with the active segment from its statistics
/// (`None` when it holds no rows, so none were read).
pub fn active_segment_retention(active_has_rows: bool, row_count: usize, end_ms: Option<i64>, cutoff_ms: i64) -> (r: ActiveSegmentRetention)
    ensures
        r == (if !active_has_rows {
            ActiveSegmentRetention::Keep
        } else if row_count == 0 {
            ActiveSegmentRetention::MarkEmpty
        } else if end_ms matches Some(e) && e < cutoff_ms {
            ActiveSegmentRetention::Discard
        } else {
            ActiveSegmentRetention::Keep
        }),
{
    if !active_has_rows {
        ActiveSegmentRetention::Keep
    } else if row_count == 0 {
        ActiveSegmentRetention::MarkEmpty
    } else {
        match end_ms {
            Some(e) => if e < cutoff_ms { ActiveSegmentRetention::Discard } else { ActiveSegmentRetention::Keep },
            None => ActiveSegmentRetention::Keep,
        }
    }
}

/// Milliseconds in one retention day.
pub const USAGE_ANALYTICS_RETENTION_DAY_MS: i64 = 86_400_000;

/// `x` clamped into the `i64` range.
pub open spec fn clamp_i64(x: int) -> i64 {
    if x < i64::MIN { i64::MIN } else if x > i64::MAX { i64::MAX } else { x as i64 }
}

/// The retention cutoff: `now` less the retained days (at least one), each
/// arithmetic step saturating.
pub open spec fn retention_cutoff(now_ms: i64, retention_days: u64) -> i64 {
    let days: int = if retention_days < 1 { 1 } else if retention_days > i64::MAX { i64::MAX as int } else { retention_days as int };
    clamp_i64(now_ms - clamp_i64(days * 86_400_000))
}

/// The oldest event time that retention keeps.
pub fn usage_analytics_retention_cutoff_ms(now_ms: i64, retention_days: u64) -> (r: i64)
    ensures
        r == retention_cutoff(now_ms, retention_days),
{
    let days: i128 = if retention_days < 1 {
        1
    } else if retention_days > i64::MAX as u64 {
        i64::MAX as i128
    } else {
        retention_days as i128
    };
    assert(days * 86_400_000 <= 0x7fff_ffff_ffff_ffff * 86_400_000) by (nonlinear_arith)
        requires
            1 <= days <= 0x7fff_ffff_ffff_ffff,
    ;
    let product: i128 = days * (USAGE_ANALYTICS_RETENTION_DAY_MS as i128);
    let span: i128 = if product > i64::MAX as i128 { i64::MAX as i128 } else { product };
    let diff: i128 = now_ms as i128 - span;
    if diff < i64::MIN as i128 {
        i64::MIN
    } else if diff > i64::MAX as i128 {
        i64::MAX
    } else {
        diff as i64
    }
}

/// Keeping more days never moves the cutoff later, and a retention of zero
/// days keeps one day.
pub proof fn lemma_retention_cutoff_monotone(now_ms: i64, fewer_days: u64, more_days: u64)
    requires
        fewer_days <= more_days,
    ensures
        retention_cutoff(now_ms, more_days) <= retention_cutoff(now_ms, fewer_days),
        retention_cutoff(now_ms, 0) == retention_cutoff(now_ms, 1),
{
    let d1: int = if fewer_days < 1 { 1 } else if fewer_days > i64::MAX { i64::MAX as int } else { fewer_days as int };
    let d2: int = if more_days < 1 { 1 } else if more_days > i64::MAX { i64::MAX as int } else { more_days as int };
    assert(d1 <= d2);
    assert(d1 * 86_400_000 <= d2 * 86_400_000) by (nonlinear_arith)
        requires
            d1 <= d2,
    ;
}

/// The cutoff is exactly the retained number of days (at least one) before
/// `now`, whenever that span and that time are in the `i64` range; and it
/// is never after `now`.
pub proof fn lemma_retention_cutoff_is_days_before_now(now_ms: i64, retention_days: u64)
    ensures
        ({
            let days: int = if retention_days == 0 { 1 } else { retention_days as int };
            &&& (days * 86_400_000 <= i64::MAX && i64::MIN <= now_ms - days * 86_400_000 ==> retention_cutoff(
                now_ms,
                retention_days,
            ) == now_ms - days * 86_400_000)
            &&& retention_cutoff(now_ms, retention_days) <= now_ms
        }),
{
    let days: int = if retention_days < 1 { 1 } else if retention_days > i64::MAX { i64::MAX as int } else { retention_days as int };
    assert(days * 86_400_000 >= 86_400_000) by (nonlinear_arith)
        requires
            days >= 1,
    ;
    if retention_days > i64::MAX {
        assert(retention_days * 86_400_000 > i64::MAX) by (nonlinear_arith)
            requires
                retention_days > i64::MAX,
        ;
    }
}

/// Statistics of one key and provider in a segment.
#[derive(Debug, Clone)]
pub struct SegmentKeyRollup {
    pub key_id: String,
    pub provider_type: String,
    pub row_count: usize,
    pub input_uncached_tokens: i64,
    pub input_cached_tokens: i64,
    pub output_tokens: i64,
    pub billable_tokens: i64,
    pub credit_total: String,
    pub credit_missing_events: i64,
    pub first_used_at_ms: Option<i64>,
    pub last_used_at_ms: Option<i64>,
}

/// Statistics of one field value in a segment.
#[derive(Debug, Clone)]
pub struct SegmentFieldRollup {
    pub key_id: Option<String>,
    pub provider_type: Option<String>,
    pub field_name: UsageCatalogFieldName,
    pub field_value: String,
    pub row_count: usize,
    pub input_uncached_tokens: i64,
    pub input_cached_tokens: i64,
    pub output_tokens: i64,
    pub billable_tokens: i64,
    pub first_used_at_ms: Option<i64>,
    pub last_used_at_ms: Option<i64>,
}

/// Statistics of a segment file.
#[derive(Debug, Clone)]
pub struct SegmentStats {
    pub start_ms: Option<i64>,
    pub end_ms: Option<i64>,
    pub row_count: usize,
    pub event_id_count: usize,
    pub input_uncached_tokens: i64,
    pub input_cached_tokens: i64,
    pub output_tokens: i64,
    pub billable_tokens: i64,
    pub rollups: Vec<SegmentKeyRollup>,
    pub field_rollups: Vec<SegmentFieldRollup>,
}

/// The counts that compaction must keep: rows, event ids and the interval.
pub open spec fn stats_agree(a: SegmentStats, b: SegmentStats) -> bool {
    a.row_count == b.row_count && a.event_id_count == b.event_id_count && a.start_ms == b.start_ms
        && a.end_ms == b.end_ms
}

/// Compaction changed a segment: rows, event ids or interval differ.
#[derive(Debug, Clone)]
pub struct CompactedSegmentMismatch {
    pub source: SegmentStats,
    pub compacted: SegmentStats,
}

/// Accepts a compacted segment whose rows, event ids and interval match its
/// source, returning the compacted statistics.
pub fn validate_compacted_segment_matches_source(source: SegmentStats, compacted: SegmentStats)
    -> (r: Result<SegmentStats, CompactedSegmentMismatch>)
    ensures
        r is Ok <==> stats_agree(source, compacted),
        r matches Ok(s) ==> s == compacted,
        r matches Err(e) ==> e.source == source && e.compacted == compacted,
{
    if source.row_count != compacted.row_count || source.event_id_count != compacted.event_id_count
        || source.start_ms != compacted.start_ms || source.end_ms != compacted.end_ms
    {
        return Err(CompactedSegmentMismatch { source, compacted });
    }
    Ok(compacted)
}

/// The timestamp an archived segment is bucketed by: its newest event, else
/// its oldest, else now.
pub fn archive_bucket_timestamp_ms(stats: &SegmentStats) -> (r: i64)
    ensures
        stats.end_ms matches Some(e) ==> r == e,
        stats.end_ms is None ==> (stats.start_ms matches Some(s) ==> r == s),
{
    match stats.end_ms {
        Some(e) => e,
        None => match stats.start_ms {
            Some(s) => s,
            None => now_ms(),
        },
    }
}

/// The catalog rollup of a key rollup.
pub open spec fn key_rollup_record(r: SegmentKeyRollup) -> UsageCatalogKeyRollupRecord {
    UsageCatalogKeyRollupRecord {
        key_id: r.key_id,
        provider_type: r.provider_type,
        row_count: r.row_count,
        input_uncached_tokens: r.input_uncached_tokens,
        input_cached_tokens: r.input_cached_tokens,
        output_tokens: r.output_tokens,
        billable_tokens: r.billable_tokens,
        credit_total: r.credit_total,
        credit_missing_events: r.credit_missing_events,
        first_used_at_ms: r.first_used_at_ms,
        last_used_at_ms: r.last_used_at_ms,
    }
}

/// The catalog rollup of a field rollup.
pub open spec fn field_rollup_record(r: SegmentFieldRollup) -> UsageCatalogFieldRollupRecord {
    UsageCatalogFieldRollupRecord {
        key_id: r.key_id,
        provider_type: r.provider_type,
        field_name: r.field_name,
        field_value: r.field_value,
        row_count: r.row_count,
        input_uncached_tokens: r.input_uncached_tokens,
        input_cached_tokens: r.input_cached_tokens,
        output_tokens: r.output_tokens,
        billable_tokens: r.billable_tokens,
        first_used_at_ms: r.first_used_at_ms,
        last_used_at_ms: r.last_used_at_ms,
    }
}

fn dup_opt(v: &Option<String>) -> (r: Option<String>)
    ensures
        r == *v,
{
    match v {
        Some(s) => Some(s.clone()),
        None => None,
    }
}

/// The catalog entry of a segment built from its statistics.
pub open spec fn stats_entry(
    segment_id: Seq<char>,
    archive_path: Seq<char>,
    stats: SegmentStats,
    size_bytes: u64,
    sealed_at_ms: i64,
    record: UsageCatalogSegmentRecord,
    entry: CatalogSegmentEntry,
) -> bool {
    &&& entry.record == record
    &&& record.segment_id@ == segment_id
    &&& record.archive_path@ == archive_path
    &&& record.start_ms == stats.start_ms
    &&& record.end_ms == stats.end_ms
    &&& record.row_count == stats.row_count
    &&& record.input_uncached_tokens == stats.input_uncached_tokens
    &&& record.input_cached_tokens == stats.input_cached_tokens
    &&& record.output_tokens == stats.output_tokens
    &&& record.billable_tokens == stats.billable_tokens
    &&& record.size_bytes == size_bytes
    &&& record.sealed_at_ms == sealed_at_ms
    &&& entry.rollups@ == stats.rollups@.map_values(|r: SegmentKeyRollup| key_rollup_record(r))
    &&& entry.field_rollups@ == stats.field_rollups@.map_values(|r: SegmentFieldRollup| field_rollup_record(r))
}

/// Publishes a segment's statistics to the catalog under its id and archive
/// path, with its event ids; the sealing time comes from the id (or now).
pub fn publish_segment_catalog(
    catalog: &mut TestTieredUsageCatalog,
    segment_id: &str,
    archive_path: &str,
    stats: &SegmentStats,
    size_bytes: u64,
    event_ids: &Vec<String>,
)
    requires
        old(catalog).wf(),
    ensures
        final(catalog).wf(),
        final(catalog).path == old(catalog).path,
        exists|entry: CatalogSegmentEntry, sealed: i64| {
            &&& #[trigger] stats_entry(segment_id@, archive_path@, *stats, size_bytes, sealed, entry.record, entry)
            &&& (sealed_at_in_id(segment_id@) matches Some(t) ==> sealed == t)
            &&& final(catalog).state.segment_map() == old(catalog).state.segment_map().insert(segment_id@, entry)
        },
        final(catalog).state.locator_map() == published_locators(old(catalog).state.locator_map(), segment_id@, string_views(event_ids@)),
{
    let sealed = sealed_at_ms_for_segment(segment_id);
    let record = UsageCatalogSegmentRecord {
        segment_id: segment_id.to_owned(),
        archive_path: archive_path.to_owned(),
        start_ms: stats.start_ms,
        end_ms: stats.end_ms,
        row_count: stats.row_count,
        input_uncached_tokens: stats.input_uncached_tokens,
        input_cached_tokens: stats.input_cached_tokens,
        output_tokens: stats.output_tokens,
        billable_tokens: stats.billable_tokens,
        size_bytes,
        sealed_at_ms: sealed,
    };
    let mut rollups: Vec<UsageCatalogKeyRollupRecord> = Vec::new();
    let mut i: usize = 0;
    while i < stats.rollups.len()
        invariant
            i <= stats.rollups.len(),
            rollups@ == stats.rollups@.take(i as int).map_values(|r: SegmentKeyRollup| key_rollup_record(r)),
        decreases stats.rollups.len() - i,
    {
        let r = &stats.rollups[i];
        rollups.push(UsageCatalogKeyRollupRecord {
            key_id: r.key_id.clone(),
            provider_type: r.provider_type.clone(),
            row_count: r.row_count,
            input_uncached_tokens: r.input_uncached_tokens,
            input_cached_tokens: r.input_cached_tokens,
            output_tokens: r.output_tokens,
            billable_tokens: r.billable_tokens,
            credit_total: r.credit_total.clone(),
            credit_missing_events: r.credit_missing_events,
            first_used_at_ms: r.first_used_at_ms,
            last_used_at_ms: r.last_used_at_ms,
        });
        assert(rollups@ =~= stats.rollups@.take(i + 1).map_values(|r: SegmentKeyRollup| key_rollup_record(r)));
        i = i + 1;
    }
    assert(stats.rollups@.take(i as int) =~= stats.rollups@);
    let mut field_rollups: Vec<UsageCatalogFieldRollupRecord> = Vec::new();
    let mut k: usize = 0;
    while k < stats.field_rollups.len()
        invariant
            k <= stats.field_rollups.len(),
            field_rollups@ == stats.field_rollups@.take(k as int).map_values(|r: SegmentFieldRollup| field_rollup_record(r)),
        decreases stats.field_rollups.len() - k,
    {
        let r = &stats.field_rollups[k];
        field_rollups.push(UsageCatalogFieldRollupRecord {
            key_id: dup_opt(&r.key_id),
            provider_type: dup_opt(&r.provider_type),
            field_name: r.field_name,
            field_value: r.field_value.clone(),
            row_count: r.row_count,
            input_uncached_tokens: r.input_uncached_tokens,
            input_cached_tokens: r.input_cached_tokens,
            output_tokens: r.output_tokens,
            billable_tokens: r.billable_tokens,
            first_used_at_ms: r.first_used_at_ms,
            last_used_at_ms: r.last_used_at_ms,
        });
        assert(field_rollups@ =~= stats.field_rollups@.take(k + 1).map_values(|r: SegmentFieldRollup| field_rollup_record(r)));
        k = k + 1;
    }
    assert(stats.field_rollups@.take(k as int) =~= stats.field_rollups@);
    let ghost entry = CatalogSegmentEntry { record, rollups, field_rollups };
    proof {
        assert(stats_entry(segment_id@, archive_path@, *stats, size_bytes, sealed, entry.record, entry));
    }
    catalog.publish_segment(record, rollups, field_rollups, event_ids);
}

/// The id a sealed segment gets gives back its sealing time (for a time
/// at or after the epoch) and its sequence number.
pub proof fn lemma_rollover_id_round_trip(now_ms: i64, sequence: u64)
    requires
        now_ms >= 0,
    ensures
        sealed_at_in_id(sealed_segment_id(now_ms, sequence)) == Some(now_ms),
        parse_u64_spec(crate::scan::after_last(sealed_segment_id(now_ms, sequence), '-')) == Some(sequence),
{
    reveal_strlit("usage-");
    reveal_strlit("-");
    let d = decimal(now_ms as nat);
    let p = zero_padded(decimal(sequence as nat), 12);
    let id = sealed_segment_id(now_ms, sequence);
    crate::scan::lemma_decimal_digits(now_ms as nat);
    crate::scan::lemma_decimal_digits(sequence as nat);
    if decimal(sequence as nat).len() < 12 {
        crate::scan::lemma_leading_zeros_value((12 - decimal(sequence as nat).len()) as nat, decimal(sequence as nat));
    }
    crate::scan::lemma_digits_have_no(d, '-');
    crate::scan::lemma_digits_have_no(p, '-');
    let head = seq!['u', 's', 'a', 'g', 'e'];
    assert(!head.contains('-')) by {
        if head.contains('-') {
            let i = head.index_of('-');
        }
    }
    assert(id =~= head + seq!['-'] + (d + seq!['-'] + p));
    crate::scan::lemma_first_field(head, d + seq!['-'] + p, '-');
    crate::scan::lemma_first_field(d, p, '-');
    crate::scan::lemma_parse_i64_decimal(now_ms);
    assert(id =~= (head + seq!['-'] + d) + seq!['-'] + p);
    crate::scan::lemma_after_last_sep(head + seq!['-'] + d, p, '-');
    crate::scan::lemma_parse_zero_padded(sequence, 12);
}

} // verus!
