//! The archive catalog: segment records with per-key and per-field rollups,
//! catalog queries derived from usage event queries, and the rules deciding
//! which archived segments a query must read and what totals they add.
use vstd::prelude::*;
use crate::text::{format_i64, signed_decimal};
use crate::query::{UsageEventTotals, saturating_add_spec};

verus! {

/// The usage event fields that the catalog keeps per-value rollups of.
#[derive(Debug, Clone, Copy, PartialEq, Eq, Structural)]
pub enum UsageCatalogFieldName {
    Model,
    AccountName,
    Endpoint,
    StatusCode,
    StatusKind,
}

/// A field whose values a usage listing offers as filter options.
#[derive(Debug, Clone, Copy, PartialEq, Eq, Structural)]
pub enum UsageFilterOptionField {
    Model,
    Account,
    Endpoint,
}

impl UsageFilterOptionField {
    /// The catalog rollup field that holds this option's values.
    pub fn catalog_field_name(self) -> (r: UsageCatalogFieldName)
        ensures
            r == (match self {
                UsageFilterOptionField::Model => UsageCatalogFieldName::Model,
                UsageFilterOptionField::Account => UsageCatalogFieldName::AccountName,
                UsageFilterOptionField::Endpoint => UsageCatalogFieldName::Endpoint,
            }),
    {
        match self {
            UsageFilterOptionField::Model => UsageCatalogFieldName::Model,
            UsageFilterOptionField::Account => UsageCatalogFieldName::AccountName,
            UsageFilterOptionField::Endpoint => UsageCatalogFieldName::Endpoint,
        }
    }
}

/// Whether a usage event succeeded (`200`) or not.
#[derive(Debug, Clone, Copy, PartialEq, Eq, Structural)]
pub enum UsageEventStatusKind {
    Success,
    Failure,
}

impl UsageEventStatusKind {
    /// The filter value of this status kind.
    pub open spec fn query_value(self) -> Seq<char> {
        match self {
            UsageEventStatusKind::Success => "ok"@,
            UsageEventStatusKind::Failure => "non_ok"@,
        }
    }

    /// The filter value of this status kind: `ok` or `non_ok`.
    pub fn as_query_value(self) -> (r: &'static str)
        ensures
            r@ == self.query_value(),
    {
        match self {
            UsageEventStatusKind::Success => "ok",
            UsageEventStatusKind::Failure => "non_ok",
        }
    }
}

/// Which storage tiers a usage query reads.
#[derive(Debug, Clone, Copy, PartialEq, Eq, Structural)]
pub enum UsageEventSource {
    /// The active segment and the archive.
    All,
    /// Only the active segment.
    Hot,
    /// Only archived segments.
    Archive,
}

impl UsageEventSource {
    /// Whether the active segment is read.
    pub fn includes_hot(self) -> (r: bool)
        ensures
            r == (self != UsageEventSource::Archive),
    {
        match self {
            UsageEventSource::Archive => false,
            _ => true,
        }
    }

    /// Whether archived segments are read.
    pub fn includes_archive(self) -> (r: bool)
        ensures
            r == (self != UsageEventSource::Hot),
    {
        match self {
            UsageEventSource::Hot => false,
            _ => true,
        }
    }
}

/// A usage event listing query.
#[derive(Debug, Clone)]
pub struct UsageEventQuery {
    pub key_id: Option<String>,
    pub provider_type: Option<String>,
    pub model: Option<String>,
    pub account_name: Option<String>,
    pub endpoint: Option<String>,
    pub status_code: Option<i64>,
    pub status_kind: Option<UsageEventStatusKind>,
    pub source: UsageEventSource,
    pub start_ms: Option<i64>,
    pub end_ms: Option<i64>,
    pub limit: usize,
    pub offset: usize,
}

/// One field/value filter of a catalog query.
#[derive(Debug, Clone)]
pub struct UsageCatalogFieldFilter {
    pub field_name: UsageCatalogFieldName,
    pub field_value: String,
}

/// The catalog side of a usage event query.
#[derive(Debug, Clone)]
pub struct UsageCatalogQuery {
    pub start_ms: Option<i64>,
    pub end_ms: Option<i64>,
    pub key_id: Option<String>,
    pub provider_type: Option<String>,
    pub field_filters: Vec<UsageCatalogFieldFilter>,
}

/// A field filter by its contents.
pub open spec fn filter_view(f: UsageCatalogFieldFilter) -> (UsageCatalogFieldName, Seq<char>) {
    (f.field_name, f.field_value@)
}

/// The field filters a usage event query implies, in the order model,
/// account, endpoint, status code, status kind.
pub open spec fn query_field_filters(q: UsageEventQuery) -> Seq<(UsageCatalogFieldName, Seq<char>)> {
    (match q.model {
        Some(v) => seq![(UsageCatalogFieldName::Model, v@)],
        None => Seq::empty(),
    }) + (match q.account_name {
        Some(v) => seq![(UsageCatalogFieldName::AccountName, v@)],
        None => Seq::empty(),
    }) + (match q.endpoint {
        Some(v) => seq![(UsageCatalogFieldName::Endpoint, v@)],
        None => Seq::empty(),
    }) + (match q.status_code {
        Some(v) => seq![(UsageCatalogFieldName::StatusCode, signed_decimal(v as int))],
        None => Seq::empty(),
    }) + (match q.status_kind {
        Some(k) => seq![(UsageCatalogFieldName::StatusKind, k.query_value())],
        None => Seq::empty(),
    })
}

/// The catalog query of a usage event query: same window and scope, plus
/// the field filters.
pub fn catalog_query_from_usage_query(query: &UsageEventQuery) -> (r: UsageCatalogQuery)
    ensures
        r.start_ms == query.start_ms,
        r.end_ms == query.end_ms,
        r.key_id.deep_view() == query.key_id.deep_view(),
        r.provider_type.deep_view() == query.provider_type.deep_view(),
        r.field_filters@.map_values(|f: UsageCatalogFieldFilter| filter_view(f)) == query_field_filters(*query),
{
    let mut field_filters: Vec<UsageCatalogFieldFilter> = Vec::new();
    let ghost expected = query_field_filters(*query);
    if let Some(model) = &query.model {
        field_filters.push(UsageCatalogFieldFilter { field_name: UsageCatalogFieldName::Model, field_value: model.clone() });
    }
    if let Some(account_name) = &query.account_name {
        field_filters.push(UsageCatalogFieldFilter { field_name: UsageCatalogFieldName::AccountName, field_value: account_name.clone() });
    }
    if let Some(endpoint) = &query.endpoint {
        field_filters.push(UsageCatalogFieldFilter { field_name: UsageCatalogFieldName::Endpoint, field_value: endpoint.clone() });
    }
    if let Some(status_code) = query.status_code {
        field_filters.push(UsageCatalogFieldFilter { field_name: UsageCatalogFieldName::StatusCode, field_value: format_i64(status_code) });
    }
    if let Some(status_kind) = query.status_kind {
        field_filters.push(UsageCatalogFieldFilter { field_name: UsageCatalogFieldName::StatusKind, field_value: status_kind.as_query_value().to_owned() });
    }
    assert(field_filters@.map_values(|f: UsageCatalogFieldFilter| filter_view(f)) =~= expected);
    UsageCatalogQuery {
        start_ms: query.start_ms,
        end_ms: query.end_ms,
        key_id: crate::usage_row::dup_opt_string(&query.key_id),
        provider_type: crate::usage_row::dup_opt_string(&query.provider_type),
        field_filters,
    }
}

/// Whether catalog rollups give exact totals for a query (at most one field
/// filter).
pub fn catalog_query_has_exact_totals(query: &UsageCatalogQuery) -> (r: bool)
    ensures
        r == (query.field_filters@.len() <= 1),
{
    query.field_filters.len() <= 1
}

/// Catalog row of one archived segment.
#[derive(Debug, Clone)]
pub struct UsageCatalogSegmentRecord {
    pub segment_id: String,
    pub archive_path: String,
    pub start_ms: Option<i64>,
    pub end_ms: Option<i64>,
    pub row_count: usize,
    pub input_uncached_tokens: i64,
    pub input_cached_tokens: i64,
    pub output_tokens: i64,
    pub billable_tokens: i64,
    pub size_bytes: u64,
    pub sealed_at_ms: i64,
}

/// Per key and provider rollup of one segment.
#[derive(Debug, Clone)]
pub struct UsageCatalogKeyRollupRecord {
    pub key_id: String,
    pub provider_type: String,
    pub row_count: usize,
    pub input_uncached_tokens: i64,
    pub input_cached_tokens: i64,
    pub output_tokens: i64,
    pub billable_tokens: i64,
    pub credit_total: String,
    pub credit_missing_events: i64,
    pub first_used_at_ms: Option<i64>,
    pub last_used_at_ms: Option<i64>,
}

/// Per field value rollup of one segment, global (no key or provider) or
/// scoped to a key and provider.
#[derive(Debug, Clone)]
pub struct UsageCatalogFieldRollupRecord {
    pub key_id: Option<String>,
    pub provider_type: Option<String>,
    pub field_name: UsageCatalogFieldName,
    pub field_value: String,
    pub row_count: usize,
    pub input_uncached_tokens: i64,
    pub input_cached_tokens: i64,
    pub output_tokens: i64,
    pub billable_tokens: i64,
    pub first_used_at_ms: Option<i64>,
    pub last_used_at_ms: Option<i64>,
}

/// Whether an optional scope value is absent or equal to `value`.
pub open spec fn scope_admits(scope: Option<String>, value: Seq<char>) -> bool {
    match scope {
        Some(s) => s@ == value,
        None => true,
    }
}

fn opt_matches(scope: &Option<String>, value: &String) -> (r: bool)
    ensures
        r == scope_admits(*scope, value@),
{
    match scope {
        Some(s) => *s == *value,
        None => true,
    }
}

/// Whether a key rollup lies in the query's key and provider scope.
pub open spec fn key_rollup_in_scope(rollup: UsageCatalogKeyRollupRecord, query: UsageCatalogQuery) -> bool {
    scope_admits(query.key_id, rollup.key_id@) && scope_admits(query.provider_type, rollup.provider_type@)
}

/// Whether a key rollup lies in the query's key and provider scope.
pub fn test_key_rollup_matches_scope(rollup: &UsageCatalogKeyRollupRecord, query: &UsageCatalogQuery) -> (r: bool)
    ensures
        r == key_rollup_in_scope(*rollup, *query),
{
    opt_matches(&query.key_id, &rollup.key_id) && opt_matches(&query.provider_type, &rollup.provider_type)
}

/// Whether a field rollup serves the query's scope: an unscoped query reads
/// the global rollups, a scoped query the rollups of its key and provider.
pub open spec fn field_rollup_in_scope(rollup: UsageCatalogFieldRollupRecord, query: UsageCatalogQuery) -> bool {
    if query.key_id is None && query.provider_type is None {
        rollup.key_id is None && rollup.provider_type is None
    } else {
        (query.key_id matches Some(k) ==> (rollup.key_id matches Some(rk) && rk@ == k@))
            && (query.provider_type matches Some(p) ==> (rollup.provider_type matches Some(rp) && rp@ == p@))
    }
}

fn scoped_equal(scope: &Option<String>, value: &Option<String>) -> (r: bool)
    ensures
        r == (scope matches Some(s) ==> (value matches Some(v) && v@ == s@)),
{
    match scope {
        Some(s) => match value {
            Some(v) => *v == *s,
            None => false,
        },
        None => true,
    }
}

/// Whether a field rollup serves the query's scope.
pub fn test_field_rollup_matches_scope(rollup: &UsageCatalogFieldRollupRecord, query: &UsageCatalogQuery) -> (r: bool)
    ensures
        r == field_rollup_in_scope(*rollup, *query),
{
    if query.key_id.is_none() && query.provider_type.is_none() {
        rollup.key_id.is_none() && rollup.provider_type.is_none()
    } else {
        scoped_equal(&query.key_id, &rollup.key_id) && scoped_equal(&query.provider_type, &rollup.provider_type)
    }
}

/// Whether a usage interval `[first, last]` meets the window `[start, end)`;
/// unknown bounds always meet.
pub open spec fn interval_meets_window(
    first: Option<i64>,
    last: Option<i64>,
    start: Option<i64>,
    end: Option<i64>,
) -> bool {
    (start is None || last is None || last->0 >= start->0) && (end is None || first is None
        || first->0 < end->0)
}

/// Whether a rollup's usage interval meets a time window.
pub fn test_rollup_matches_time(
    first_used_at_ms: Option<i64>,
    last_used_at_ms: Option<i64>,
    start_ms: Option<i64>,
    end_ms: Option<i64>,
) -> (r: bool)
    ensures
        r == interval_meets_window(first_used_at_ms, last_used_at_ms, start_ms, end_ms),
{
    let lower = match (start_ms, last_used_at_ms) {
        (Some(start), Some(last)) => last >= start,
        _ => true,
    };
    let upper = match (end_ms, first_used_at_ms) {
        (Some(end), Some(first)) => first < end,
        _ => true,
    };
    lower && upper
}

/// Whether a segment's interval meets a time window.
pub fn segment_matches_time_window(
    segment: &UsageCatalogSegmentRecord,
    start_ms: Option<i64>,
    end_ms: Option<i64>,
) -> (r: bool)
    ensures
        r == interval_meets_window(segment.start_ms, segment.end_ms, start_ms, end_ms),
{
    test_rollup_matches_time(segment.start_ms, segment.end_ms, start_ms, end_ms)
}

/// An archived segment as the read path sees it.
#[derive(Debug, Clone)]
pub struct ArchivedUsageSegment {
    pub archive_path: String,
    pub start_ms: Option<i64>,
    pub end_ms: Option<i64>,
}

/// The archived segment of a catalog row.
pub fn archived_segment_from_record(record: &UsageCatalogSegmentRecord) -> (r: ArchivedUsageSegment)
    ensures
        r.archive_path@ == record.archive_path@,
        r.start_ms == record.start_ms,
        r.end_ms == record.end_ms,
{
    ArchivedUsageSegment { archive_path: record.archive_path.clone(), start_ms: record.start_ms, end_ms: record.end_ms }
}

/// Whether a segment lies wholly inside the query window, so catalog totals
/// can stand for scanning it.
pub open spec fn fully_inside(segment: ArchivedUsageSegment, start: Option<i64>, end: Option<i64>) -> bool {
    (match start {
        Some(s) => segment.start_ms matches Some(ss) && ss >= s,
        None => true,
    }) && (match end {
        Some(e) => segment.end_ms matches Some(se) && se < e,
        None => true,
    })
}

/// Whether a segment lies wholly inside the query window.
pub fn segment_fully_inside(segment: &ArchivedUsageSegment, query: &UsageEventQuery) -> (r: bool)
    ensures
        r == fully_inside(*segment, query.start_ms, query.end_ms),
{
    let lower_ok = match (query.start_ms, segment.start_ms) {
        (Some(start), Some(segment_start)) => segment_start >= start,
        (Some(_), None) => false,
        (None, _) => true,
    };
    let upper_ok = match (query.end_ms, segment.end_ms) {
        (Some(end), Some(segment_end)) => segment_end < end,
        (Some(_), None) => false,
        (None, _) => true,
    };
    lower_ok && upper_ok
}

/// A segment that lies wholly inside a query window, and whose interval is
/// ordered, meets that window: catalog totals stand only for segments the
/// query selects.
pub proof fn lemma_fully_inside_meets_window(segment: ArchivedUsageSegment, start: Option<i64>, end: Option<i64>)
    requires
        fully_inside(segment, start, end),
        segment.start_ms is Some && segment.end_ms is Some ==> segment.start_ms->0 <= segment.end_ms->0,
    ensures
        interval_meets_window(segment.start_ms, segment.end_ms, start, end),
{
}

/// A stored signed counter clamped at zero.
pub open spec fn nonneg_u64(value: i64) -> u64 {
    if value < 0 { 0 } else { value as u64 }
}

/// A stored signed counter clamped at zero (`i64` to `u64`).
pub fn i64_to_u64(value: i64) -> (r: u64)
    ensures
        r == nonneg_u64(value),
{
    if value < 0 { 0 } else { value as u64 }
}

/// A stored signed count clamped at zero (`i64` to `usize`, saturating).
pub fn i64_to_usize(value: i64) -> (r: usize)
    ensures
        r == (if value < 0 { 0 } else if value > usize::MAX { usize::MAX as int } else { value as int }),
{
    if value < 0 {
        0
    } else if value as u64 > usize::MAX as u64 {
        usize::MAX
    } else {
        value as usize
    }
}

/// Totals with one rollup's counts added, saturating.
pub open spec fn totals_plus(
    t: UsageEventTotals,
    row_count: usize,
    input_uncached: i64,
    input_cached: i64,
    output: i64,
    billable: i64,
) -> UsageEventTotals {
    UsageEventTotals {
        event_count: saturating_add_spec(t.event_count as int, row_count as int, usize::MAX as int) as usize,
        input_uncached_tokens: saturating_add_spec(t.input_uncached_tokens as int, nonneg_u64(input_uncached) as int, u64::MAX as int) as u64,
        input_cached_tokens: saturating_add_spec(t.input_cached_tokens as int, nonneg_u64(input_cached) as int, u64::MAX as int) as u64,
        output_tokens: saturating_add_spec(t.output_tokens as int, nonneg_u64(output) as int, u64::MAX as int) as u64,
        billable_tokens: saturating_add_spec(t.billable_tokens as int, nonneg_u64(billable) as int, u64::MAX as int) as u64,
    }
}

fn add_counts(
    t: &mut UsageEventTotals,
    row_count: usize,
    input_uncached: i64,
    input_cached: i64,
    output: i64,
    billable: i64,
)
    ensures
        *final(t) == totals_plus(*old(t), row_count, input_uncached, input_cached, output, billable),
{
    t.event_count = t.event_count.saturating_add(row_count);
    t.input_uncached_tokens = t.input_uncached_tokens.saturating_add(i64_to_u64(input_uncached));
    t.input_cached_tokens = t.input_cached_tokens.saturating_add(i64_to_u64(input_cached));
    t.output_tokens = t.output_tokens.saturating_add(i64_to_u64(output));
    t.billable_tokens = t.billable_tokens.saturating_add(i64_to_u64(billable));
}

/// The empty totals.
pub open spec fn zero_totals() -> UsageEventTotals {
    UsageEventTotals { event_count: 0, input_uncached_tokens: 0, input_cached_tokens: 0, output_tokens: 0, billable_tokens: 0 }
}

/// The sum of the first `n` key rollups in the query's scope.
pub open spec fn key_rollup_totals(rollups: Seq<UsageCatalogKeyRollupRecord>, query: UsageCatalogQuery, n: int) -> UsageEventTotals
    decreases n,
{
    if n <= 0 {
        zero_totals()
    } else {
        let t = key_rollup_totals(rollups, query, n - 1);
        let r = rollups[n - 1];
        if key_rollup_in_scope(r, query) {
            totals_plus(t, r.row_count, r.input_uncached_tokens, r.input_cached_tokens, r.output_tokens, r.billable_tokens)
        } else {
            t
        }
    }
}

/// Whether a field rollup is of the given field and value and in scope.
pub open spec fn field_rollup_selected(
    r: UsageCatalogFieldRollupRecord,
    name: UsageCatalogFieldName,
    value: Seq<char>,
    query: UsageCatalogQuery,
) -> bool {
    r.field_name == name && r.field_value@ == value && field_rollup_in_scope(r, query)
}

/// The sum of the first `n` field rollups of one field value in scope.
pub open spec fn field_rollup_totals(
    rollups: Seq<UsageCatalogFieldRollupRecord>,
    name: UsageCatalogFieldName,
    value: Seq<char>,
    query: UsageCatalogQuery,
    n: int,
) -> UsageEventTotals
    decreases n,
{
    if n <= 0 {
        zero_totals()
    } else {
        let t = field_rollup_totals(rollups, name, value, query, n - 1);
        let r = rollups[n - 1];
        if field_rollup_selected(r, name, value, query) {
            totals_plus(t, r.row_count, r.input_uncached_tokens, r.input_cached_tokens, r.output_tokens, r.billable_tokens)
        } else {
            t
        }
    }
}

fn new_totals() -> (r: UsageEventTotals)
    ensures
        r == zero_totals(),
{
    UsageEventTotals { event_count: 0, input_uncached_tokens: 0, input_cached_tokens: 0, output_tokens: 0, billable_tokens: 0 }
}

/// The sum of the key rollups in the query's scope.
pub fn sum_key_rollups(rollups: &Vec<UsageCatalogKeyRollupRecord>, query: &UsageCatalogQuery) -> (r: UsageEventTotals)
    ensures
        r == key_rollup_totals(rollups@, *query, rollups@.len() as int),
{
    let mut t = new_totals();
    let mut i: usize = 0;
    while i < rollups.len()
        invariant
            i <= rollups.len(),
            t == key_rollup_totals(rollups@, *query, i as int),
        decreases rollups.len() - i,
    {
        let r = &rollups[i];
        if test_key_rollup_matches_scope(r, query) {
            add_counts(&mut t, r.row_count, r.input_uncached_tokens, r.input_cached_tokens, r.output_tokens, r.billable_tokens);
        }
        i = i + 1;
    }
    t
}

fn field_selected(
    r: &UsageCatalogFieldRollupRecord,
    filter: &UsageCatalogFieldFilter,
    query: &UsageCatalogQuery,
) -> (b: bool)
    ensures
        b == field_rollup_selected(*r, filter.field_name, filter.field_value@, *query),
{
    r.field_name == filter.field_name && r.field_value == filter.field_value && test_field_rollup_matches_scope(r, query)
}

/// The sum of the field rollups of one field value in the query's scope.
pub fn sum_field_rollups(
    rollups: &Vec<UsageCatalogFieldRollupRecord>,
    filter: &UsageCatalogFieldFilter,
    query: &UsageCatalogQuery,
) -> (r: UsageEventTotals)
    ensures
        r == field_rollup_totals(rollups@, filter.field_name, filter.field_value@, *query, rollups@.len() as int),
{
    let mut t = new_totals();
    let mut i: usize = 0;
    while i < rollups.len()
        invariant
            i <= rollups.len(),
            t == field_rollup_totals(rollups@, filter.field_name, filter.field_value@, *query, i as int),
        decreases rollups.len() - i,
    {
        let r = &rollups[i];
        if field_selected(r, filter, query) {
            add_counts(&mut t, r.row_count, r.input_uncached_tokens, r.input_cached_tokens, r.output_tokens, r.billable_tokens);
        }
        i = i + 1;
    }
    t
}

/// Adding a key rollup to totals adds its row count and its token counts
/// (negative counts as zero), each stopping at its type's maximum.
pub proof fn lemma_totals_plus_adds_rollup(
    t: UsageEventTotals,
    row_count: usize,
    input_uncached: i64,
    input_cached: i64,
    output: i64,
    billable: i64,
)
    ensures
        ({
            let r = totals_plus(t, row_count, input_uncached, input_cached, output, billable);
            &&& (t.event_count + row_count <= usize::MAX ==> r.event_count == t.event_count + row_count)
            &&& (t.event_count + row_count > usize::MAX ==> r.event_count == usize::MAX)
            &&& ({
                let add: int = if input_uncached < 0 { 0 } else { input_uncached as int };
                &&& (t.input_uncached_tokens + add <= u64::MAX ==> r.input_uncached_tokens == t.input_uncached_tokens + add)
                &&& (t.input_uncached_tokens + add > u64::MAX ==> r.input_uncached_tokens == u64::MAX)
            })
            &&& ({
                let add: int = if input_cached < 0 { 0 } else { input_cached as int };
                &&& (t.input_cached_tokens + add <= u64::MAX ==> r.input_cached_tokens == t.input_cached_tokens + add)
                &&& (t.input_cached_tokens + add > u64::MAX ==> r.input_cached_tokens == u64::MAX)
            })
            &&& ({
                let add: int = if output < 0 { 0 } else { output as int };
                &&& (t.output_tokens + add <= u64::MAX ==> r.output_tokens == t.output_tokens + add)
                &&& (t.output_tokens + add > u64::MAX ==> r.output_tokens == u64::MAX)
            })
            &&& ({
                let add: int = if billable < 0 { 0 } else { billable as int };
                &&& (t.billable_tokens + add <= u64::MAX ==> r.billable_tokens == t.billable_tokens + add)
                &&& (t.billable_tokens + add > u64::MAX ==> r.billable_tokens == u64::MAX)
            })
        }),
{
}

/// The totals of the first rollups in scope: zero before any rollup; a
/// rollup out of the query's scope changes nothing, and one in scope adds
/// its counts.
pub proof fn lemma_key_rollup_totals_step(rollups: Seq<UsageCatalogKeyRollupRecord>, query: UsageCatalogQuery, n: int)
    requires
        0 <= n < rollups.len(),
    ensures
        key_rollup_totals(rollups, query, 0) == (UsageEventTotals {
            event_count: 0,
            input_uncached_tokens: 0,
            input_cached_tokens: 0,
            output_tokens: 0,
            billable_tokens: 0,
        }),
        !key_rollup_in_scope(rollups[n], query) ==> key_rollup_totals(rollups, query, n + 1) == key_rollup_totals(
            rollups,
            query,
            n,
        ),
        key_rollup_in_scope(rollups[n], query) ==> ({
            let before = key_rollup_totals(rollups, query, n);
            let after = key_rollup_totals(rollups, query, n + 1);
            let r = rollups[n];
            &&& (before.event_count + r.row_count <= usize::MAX ==> after.event_count == before.event_count + r.row_count)
            &&& (before.output_tokens + (if r.output_tokens < 0 { 0 } else { r.output_tokens as int }) <= u64::MAX
                ==> after.output_tokens == before.output_tokens + (if r.output_tokens < 0 { 0 } else { r.output_tokens as int }))
            &&& (before.input_uncached_tokens + (if r.input_uncached_tokens < 0 { 0 } else { r.input_uncached_tokens as int })
                <= u64::MAX ==> after.input_uncached_tokens == before.input_uncached_tokens + (if r.input_uncached_tokens < 0 {
                0
            } else {
                r.input_uncached_tokens as int
            }))
            &&& (before.input_cached_tokens + (if r.input_cached_tokens < 0 { 0 } else { r.input_cached_tokens as int })
                <= u64::MAX ==> after.input_cached_tokens == before.input_cached_tokens + (if r.input_cached_tokens < 0 {
                0
            } else {
                r.input_cached_tokens as int
            }))
            &&& (before.billable_tokens + (if r.billable_tokens < 0 { 0 } else { r.billable_tokens as int }) <= u64::MAX
                ==> after.billable_tokens == before.billable_tokens + (if r.billable_tokens < 0 { 0 } else { r.billable_tokens as int }))
        }),
{
    lemma_totals_plus_adds_rollup(
        key_rollup_totals(rollups, query, n),
        rollups[n].row_count,
        rollups[n].input_uncached_tokens,
        rollups[n].input_cached_tokens,
        rollups[n].output_tokens,
        rollups[n].billable_tokens,
    );
}

} // verus!
