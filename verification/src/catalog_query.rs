//! Reads of the archive catalog: which segments a query must open, the
//! totals the catalog can answer alone, the values offered as filter
//! options, and the newest-first order the read path walks segments in.
use vstd::prelude::*;
use crate::catalog::{
    ArchivedUsageSegment, UsageCatalogFieldFilter, UsageCatalogFieldName, UsageCatalogFieldRollupRecord,
    UsageCatalogKeyRollupRecord, UsageCatalogQuery, UsageCatalogSegmentRecord, archived_segment_from_record,
    field_rollup_selected, field_rollup_totals, i64_to_u64, interval_meets_window, key_rollup_in_scope,
    key_rollup_totals, nonneg_u64, sum_field_rollups, sum_key_rollups, test_field_rollup_matches_scope,
    test_key_rollup_matches_scope, test_rollup_matches_time, segment_matches_time_window, zero_totals,
};
use crate::catalog_state::{CatalogSegmentEntry, TestTieredUsageCatalog, TestTieredUsageCatalogState};
use crate::query::UsageEventTotals;
use crate::scan::{seq_less, lemma_seq_less_irreflexive, lemma_seq_less_transitive, lemma_seq_less_total};

verus! {

/// The sort key of a segment on the read path: its end (zero when
/// unknown) and its archive path.
pub open spec fn newest_first_key(end_ms: Option<i64>, path: Seq<char>) -> (int, Seq<char>) {
    (match end_ms { Some(e) => e as int, None => 0 }, path)
}

/// Whether key `a` is read strictly before key `b`: later end first, then
/// the larger path first.
pub open spec fn newest_first_less(a: (int, Seq<char>), b: (int, Seq<char>)) -> bool {
    a.0 > b.0 || (a.0 == b.0 && seq_less(b.1, a.1))
}

/// `perm` lists the positions of `keys` newest first; equal keys keep their
/// order (a stable sort).
pub open spec fn newest_first_arrangement(keys: Seq<(int, Seq<char>)>, perm: Seq<int>) -> bool {
    &&& perm.len() == keys.len()
    &&& forall|i: int| 0 <= i < perm.len() ==> 0 <= #[trigger] perm[i] < keys.len()
    &&& forall|i: int, j: int| 0 <= i < perm.len() && 0 <= j < perm.len() && i != j ==> perm[i] != perm[j]
    &&& forall|i: int, j: int| 0 <= i < j < perm.len() ==> !newest_first_less(keys[#[trigger] perm[j]], keys[#[trigger] perm[i]])
    &&& forall|i: int, j: int| 0 <= i < j < perm.len() && keys[#[trigger] perm[i]] == keys[#[trigger] perm[j]] ==> perm[i] < perm[j]
}

proof fn lemma_newest_first_transitive(a: (int, Seq<char>), b: (int, Seq<char>), c: (int, Seq<char>))
    requires
        newest_first_less(a, b),
        newest_first_less(b, c),
    ensures
        newest_first_less(a, c),
{
    if a.0 == b.0 && b.0 == c.0 {
        lemma_seq_less_transitive(c.1, b.1, a.1);
    }
}

proof fn lemma_newest_first_irreflexive(a: (int, Seq<char>))
    ensures
        !newest_first_less(a, a),
{
    lemma_seq_less_irreflexive(a.1);
}

/// Keys of `(end, path)` pairs as the order sees them.
pub open spec fn key_views(keys: Seq<(i64, String)>) -> Seq<(int, Seq<char>)> {
    Seq::new(keys.len(), |i: int| (keys[i].0 as int, keys[i].1@))
}

/// The positions of `keys` in newest-first order, ties kept in input order.
pub fn newest_first_order(keys: &Vec<(i64, String)>) -> (perm: Vec<usize>)
    ensures
        newest_first_arrangement(key_views(keys@), Seq::new(perm@.len(), |i: int| perm@[i] as int)),
{
    let ghost kv = key_views(keys@);
    let mut perm: Vec<usize> = Vec::new();
    let mut x: usize = 0;
    while x < keys.len()
        invariant
            x <= keys.len(),
            kv == key_views(keys@),
            perm@.len() == x,
            forall|i: int| 0 <= i < perm@.len() ==> #[trigger] perm@[i] < x,
            forall|i: int, j: int| 0 <= i < perm@.len() && 0 <= j < perm@.len() && i != j ==> perm@[i] != perm@[j],
            forall|i: int, j: int| 0 <= i < j < perm@.len() ==> !newest_first_less(kv[#[trigger] perm@[j] as int], kv[#[trigger] perm@[i] as int]),
            forall|i: int, j: int| 0 <= i < j < perm@.len() && kv[#[trigger] perm@[i] as int] == kv[#[trigger] perm@[j] as int] ==> perm@[i] < perm@[j],
        decreases keys.len() - x,
    {
        let mut p: usize = 0;
        while p < perm.len() && !key_before(&keys[x], &keys[perm[p]])
            invariant
                p <= perm@.len(),
                x < keys.len(),
                kv == key_views(keys@),
                forall|i: int| 0 <= i < perm@.len() ==> #[trigger] perm@[i] < x,
                forall|q: int| 0 <= q < p ==> !newest_first_less(kv[x as int], kv[#[trigger] perm@[q] as int]),
            decreases perm@.len() - p,
        {
            p = p + 1;
        }
        let ghost old_perm = perm@;
        proof {
            if p < old_perm.len() {
                assert(newest_first_less(kv[x as int], kv[old_perm[p as int] as int]));
            }
        }
        perm.insert(p, x);
        proof {
            let np = perm@;
            assert(np =~= old_perm.insert(p as int, x));
            assert forall|i: int, j: int| 0 <= i < j < np.len() implies !newest_first_less(kv[#[trigger] np[j] as int], kv[#[trigger] np[i] as int]) by {
                if j < p {
                } else if j == p {
                    assert(np[i] == old_perm[i]);
                } else if i < p {
                    assert(np[j] == old_perm[j - 1]);
                    assert(np[i] == old_perm[i]);
                } else if i == p {
                    assert(np[j] == old_perm[j - 1]);
                    if newest_first_less(kv[np[j] as int], kv[x as int]) {
                        if j - 1 > p {
                            lemma_newest_first_transitive(kv[np[j] as int], kv[x as int], kv[old_perm[p as int] as int]);
                        } else {
                            lemma_newest_first_transitive(kv[np[j] as int], kv[x as int], kv[old_perm[p as int] as int]);
                            lemma_newest_first_irreflexive(kv[old_perm[p as int] as int]);
                        }
                    }
                } else {
                    assert(np[j] == old_perm[j - 1]);
                    assert(np[i] == old_perm[i - 1]);
                }
            }
            assert forall|i: int, j: int| 0 <= i < j < np.len() && kv[#[trigger] np[i] as int] == kv[#[trigger] np[j] as int] implies np[i] < np[j] by {
                if j < p {
                } else if j == p {
                    assert(np[i] == old_perm[i]);
                } else if i < p {
                    assert(np[j] == old_perm[j - 1]);
                    assert(np[i] == old_perm[i]);
                } else if i == p {
                    assert(np[j] == old_perm[j - 1]);
                    if j - 1 > p {
                        assert(!newest_first_less(kv[old_perm[j - 1] as int], kv[old_perm[p as int] as int]));
                    }
                    lemma_newest_first_irreflexive(kv[x as int]);
                } else {
                    assert(np[j] == old_perm[j - 1]);
                    assert(np[i] == old_perm[i - 1]);
                }
            }
            assert forall|i: int, j: int| 0 <= i < np.len() && 0 <= j < np.len() && i != j implies np[i] != np[j] by {
                if i != p && j != p {
                    let i2 = if i < p { i } else { i - 1 };
                    let j2 = if j < p { j } else { j - 1 };
                    assert(np[i] == old_perm[i2]);
                    assert(np[j] == old_perm[j2]);
                } else if i == p {
                    let j2 = if j < p { j } else { j - 1 };
                    assert(np[j] == old_perm[j2]);
                } else {
                    let i2 = if i < p { i } else { i - 1 };
                    assert(np[i] == old_perm[i2]);
                }
            }
            assert forall|i: int| 0 <= i < np.len() implies #[trigger] np[i] < x + 1 by {
                if i < p {
                    assert(np[i] == old_perm[i]);
                } else if i > p {
                    assert(np[i] == old_perm[i - 1]);
                }
            }
        }
        x = x + 1;
    }
    proof {
        let pv = Seq::new(perm@.len(), |i: int| perm@[i] as int);
        assert forall|i: int, j: int| 0 <= i < j < pv.len() implies !newest_first_less(kv[#[trigger] pv[j]], kv[#[trigger] pv[i]]) by {
            assert(pv[j] == perm@[j] as int);
            assert(pv[i] == perm@[i] as int);
        }
        assert forall|i: int, j: int| 0 <= i < j < pv.len() && kv[#[trigger] pv[i]] == kv[#[trigger] pv[j]] implies pv[i] < pv[j] by {
            assert(pv[j] == perm@[j] as int);
            assert(pv[i] == perm@[i] as int);
        }
        assert forall|i: int| 0 <= i < pv.len() implies 0 <= #[trigger] pv[i] < kv.len() by {
            assert(pv[i] == perm@[i] as int);
        }
    }
    perm
}

/// Whether key `a` is read strictly before key `b`.
fn key_before(a: &(i64, String), b: &(i64, String)) -> (r: bool)
    ensures
        r == newest_first_less((a.0 as int, a.1@), (b.0 as int, b.1@)),
{
    a.0 > b.0 || (a.0 == b.0 && crate::scan::str_less(b.1.as_str(), a.1.as_str()))
}

/// The entry catalogued under `segment_id`.
pub open spec fn segment_entry(state: TestTieredUsageCatalogState, segment_id: Seq<char>) -> Option<CatalogSegmentEntry> {
    if state.segment_map().dom().contains(segment_id) {
        Some(state.segment_map()[segment_id])
    } else {
        None
    }
}

/// Whether a key rollup lies in the query's scope and meets its window.
pub open spec fn key_rollup_hit(r: UsageCatalogKeyRollupRecord, query: UsageCatalogQuery) -> bool {
    key_rollup_in_scope(r, query) && interval_meets_window(r.first_used_at_ms, r.last_used_at_ms, query.start_ms, query.end_ms)
}

/// Whether a field rollup carries the filter's value in the query's scope
/// and meets its window.
pub open spec fn field_rollup_hit(r: UsageCatalogFieldRollupRecord, filter: UsageCatalogFieldFilter, query: UsageCatalogQuery) -> bool {
    field_rollup_selected(r, filter.field_name, filter.field_value@, query)
        && interval_meets_window(r.first_used_at_ms, r.last_used_at_ms, query.start_ms, query.end_ms)
}

/// Whether some field rollup of a segment hits the filter.
pub open spec fn filter_hit(e: CatalogSegmentEntry, filter: UsageCatalogFieldFilter, query: UsageCatalogQuery) -> bool {
    exists|i: int| 0 <= i < e.field_rollups@.len() && field_rollup_hit(#[trigger] e.field_rollups@[i], filter, query)
}

/// Whether a catalogued segment can hold events that the query selects:
/// without field filters, any segment of an unscoped query and any segment
/// with a key rollup in scope and window; with field filters, a segment
/// whose field rollups hit every filter.
pub open spec fn catalog_segment_matches(entry: Option<CatalogSegmentEntry>, query: UsageCatalogQuery) -> bool {
    if query.field_filters@.len() == 0 {
        if query.key_id is None && query.provider_type is None {
            true
        } else {
            entry matches Some(e) && exists|i: int| 0 <= i < e.rollups@.len() && key_rollup_hit(#[trigger] e.rollups@[i], query)
        }
    } else {
        entry matches Some(e) && forall|f: int| 0 <= f < query.field_filters@.len() ==>
            filter_hit(e, #[trigger] query.field_filters@[f], query)
    }
}

/// The totals a segment record carries.
pub open spec fn record_totals(segment: UsageCatalogSegmentRecord) -> UsageEventTotals {
    UsageEventTotals {
        event_count: segment.row_count,
        input_uncached_tokens: nonneg_u64(segment.input_uncached_tokens),
        input_cached_tokens: nonneg_u64(segment.input_cached_tokens),
        output_tokens: nonneg_u64(segment.output_tokens),
        billable_tokens: nonneg_u64(segment.billable_tokens),
    }
}

/// The exact totals of the query's events in a segment, when the catalog
/// alone can give them: with no field filter, the segment's totals (unscoped)
/// or the sum of its key rollups in scope; with one field filter, the sum of
/// the field rollups of that value in scope; with more, none.
pub open spec fn catalog_segment_totals(
    entry: Option<CatalogSegmentEntry>,
    segment: UsageCatalogSegmentRecord,
    query: UsageCatalogQuery,
) -> Option<UsageEventTotals> {
    if query.field_filters@.len() > 1 {
        None
    } else if query.field_filters@.len() == 0 {
        if query.key_id is None && query.provider_type is None {
            Some(record_totals(segment))
        } else {
            Some(match entry {
                Some(e) => key_rollup_totals(e.rollups@, query, e.rollups@.len() as int),
                None => zero_totals(),
            })
        }
    } else {
        let f = query.field_filters@[0];
        Some(match entry {
            Some(e) => field_rollup_totals(e.field_rollups@, f.field_name, f.field_value@, query, e.field_rollups@.len() as int),
            None => zero_totals(),
        })
    }
}

fn any_key_rollup_hit(rollups: &Vec<UsageCatalogKeyRollupRecord>, query: &UsageCatalogQuery) -> (r: bool)
    ensures
        r == exists|i: int| 0 <= i < rollups@.len() && key_rollup_hit(#[trigger] rollups@[i], *query),
{
    let mut i: usize = 0;
    while i < rollups.len()
        invariant
            i <= rollups.len(),
            forall|j: int| 0 <= j < i ==> !key_rollup_hit(#[trigger] rollups@[j], *query),
        decreases rollups.len() - i,
    {
        let r = &rollups[i];
        if test_key_rollup_matches_scope(r, query)
            && test_rollup_matches_time(r.first_used_at_ms, r.last_used_at_ms, query.start_ms, query.end_ms)
        {
            return true;
        }
        i = i + 1;
    }
    false
}

fn any_field_rollup_hit(
    rollups: &Vec<UsageCatalogFieldRollupRecord>,
    filter: &UsageCatalogFieldFilter,
    query: &UsageCatalogQuery,
) -> (r: bool)
    ensures
        r == exists|i: int| 0 <= i < rollups@.len() && field_rollup_hit(#[trigger] rollups@[i], *filter, *query),
        forall|e: CatalogSegmentEntry| e.field_rollups@ == rollups@ ==> r == filter_hit(e, *filter, *query),
{
    let mut i: usize = 0;
    while i < rollups.len()
        invariant
            i <= rollups.len(),
            forall|j: int| 0 <= j < i ==> !field_rollup_hit(#[trigger] rollups@[j], *filter, *query),
        decreases rollups.len() - i,
    {
        let r = &rollups[i];
        if r.field_name == filter.field_name && r.field_value == filter.field_value
            && test_field_rollup_matches_scope(r, query)
            && test_rollup_matches_time(r.first_used_at_ms, r.last_used_at_ms, query.start_ms, query.end_ms)
        {
            return true;
        }
        i = i + 1;
    }
    false
}

fn entry_matches_query(entry: Option<&CatalogSegmentEntry>, query: &UsageCatalogQuery) -> (r: bool)
    ensures
        r == catalog_segment_matches(match entry { Some(e) => Some(*e), None => None }, *query),
{
    if query.field_filters.len() == 0 {
        if query.key_id.is_none() && query.provider_type.is_none() {
            return true;
        }
        return match entry {
            Some(e) => any_key_rollup_hit(&e.rollups, query),
            None => false,
        };
    }
    let e = match entry {
        Some(e) => e,
        None => return false,
    };
    let ghost spec_entry = match entry { Some(x) => Some(*x), None => None };
    assert(spec_entry == Some(*e));
    let mut f: usize = 0;
    while f < query.field_filters.len()
        invariant
            f <= query.field_filters.len(),
            query.field_filters@.len() > 0,
            spec_entry == Some(*e),
            spec_entry == (match entry { Some(x) => Some(*x), None => None }),
            forall|g: int| 0 <= g < f ==> filter_hit(*e, #[trigger] query.field_filters@[g], *query),
        decreases query.field_filters.len() - f,
    {
        if !any_field_rollup_hit(&e.field_rollups, &query.field_filters[f], query) {
            proof {
                assert(!filter_hit(*e, query.field_filters@[f as int], *query));
            }
            return false;
        }
        f = f + 1;
    }
    true
}

/// Whether a catalogued segment can hold events that the query selects.
pub fn test_catalog_segment_matches_query(
    state: &TestTieredUsageCatalogState,
    segment_id: &str,
    query: &UsageCatalogQuery,
) -> (r: bool)
    requires
        state.wf(),
    ensures
        r == catalog_segment_matches(segment_entry(*state, segment_id@), *query),
{
    match state.entry_index(segment_id) {
        Some(i) => entry_matches_query(Some(&state.segments[i]), query),
        None => entry_matches_query(None, query),
    }
}

fn record_totals_of(segment: &UsageCatalogSegmentRecord) -> (r: UsageEventTotals)
    ensures
        r == record_totals(*segment),
{
    UsageEventTotals {
        event_count: segment.row_count,
        input_uncached_tokens: i64_to_u64(segment.input_uncached_tokens),
        input_cached_tokens: i64_to_u64(segment.input_cached_tokens),
        output_tokens: i64_to_u64(segment.output_tokens),
        billable_tokens: i64_to_u64(segment.billable_tokens),
    }
}

fn entry_totals(
    entry: Option<&CatalogSegmentEntry>,
    segment: &UsageCatalogSegmentRecord,
    query: &UsageCatalogQuery,
) -> (r: Option<UsageEventTotals>)
    ensures
        r == catalog_segment_totals(match entry { Some(e) => Some(*e), None => None }, *segment, *query),
{
    if query.field_filters.len() > 1 {
        return None;
    }
    if query.field_filters.len() == 0 {
        if query.key_id.is_none() && query.provider_type.is_none() {
            return Some(record_totals_of(segment));
        }
        return Some(match entry {
            Some(e) => sum_key_rollups(&e.rollups, query),
            None => UsageEventTotals { event_count: 0, input_uncached_tokens: 0, input_cached_tokens: 0, output_tokens: 0, billable_tokens: 0 },
        });
    }
    let filter = &query.field_filters[0];
    Some(match entry {
        Some(e) => sum_field_rollups(&e.field_rollups, filter, query),
        None => UsageEventTotals { event_count: 0, input_uncached_tokens: 0, input_cached_tokens: 0, output_tokens: 0, billable_tokens: 0 },
    })
}

/// The totals of the query's events in a segment when the catalog alone can
/// give them exactly.
pub fn test_catalog_segment_totals_for_query(
    state: &TestTieredUsageCatalogState,
    segment_id: &str,
    segment: &UsageCatalogSegmentRecord,
    query: &UsageCatalogQuery,
) -> (r: Option<UsageEventTotals>)
    requires
        state.wf(),
    ensures
        r == catalog_segment_totals(segment_entry(*state, segment_id@), *segment, *query),
{
    match state.entry_index(segment_id) {
        Some(i) => entry_totals(Some(&state.segments[i]), segment, query),
        None => entry_totals(None, segment, query),
    }
}

/// Whether a catalogued segment is read for the query: its interval meets
/// the window and it can hold events that the query selects.
pub open spec fn segment_selected(e: CatalogSegmentEntry, query: UsageCatalogQuery) -> bool {
    interval_meets_window(e.record.start_ms, e.record.end_ms, query.start_ms, query.end_ms)
        && catalog_segment_matches(Some(e), query)
}

/// The catalogued segments read for the query, in id order.
pub open spec fn selected_entries(segs: Seq<CatalogSegmentEntry>, query: UsageCatalogQuery) -> Seq<CatalogSegmentEntry> {
    segs.filter(|e: CatalogSegmentEntry| segment_selected(e, query))
}

/// The read-path sort keys of catalogued segments.
pub open spec fn entry_keys(sel: Seq<CatalogSegmentEntry>) -> Seq<(int, Seq<char>)> {
    sel.map_values(|e: CatalogSegmentEntry| entry_key(e))
}

/// The read-path sort key of a catalogued segment.
pub open spec fn entry_key(e: CatalogSegmentEntry) -> (int, Seq<char>) {
    newest_first_key(e.record.end_ms, e.record.archive_path@)
}

/// What the read path sees of an archived segment.
pub open spec fn archived_segment_view(a: ArchivedUsageSegment) -> (Seq<char>, Option<i64>, Option<i64>) {
    (a.archive_path@, a.start_ms, a.end_ms)
}

/// What the read path sees of a catalogued segment.
pub open spec fn entry_archived_view(e: CatalogSegmentEntry) -> (Seq<char>, Option<i64>, Option<i64>) {
    (e.record.archive_path@, e.record.start_ms, e.record.end_ms)
}

fn dup_archived(a: &ArchivedUsageSegment) -> (r: ArchivedUsageSegment)
    ensures
        r == *a,
{
    ArchivedUsageSegment { archive_path: a.archive_path.clone(), start_ms: a.start_ms, end_ms: a.end_ms }
}

fn sort_key_of(record: &UsageCatalogSegmentRecord) -> (r: (i64, String))
    ensures
        (r.0 as int, r.1@) == newest_first_key(record.end_ms, record.archive_path@),
{
    let end = match record.end_ms {
        Some(e) => e,
        None => 0,
    };
    (end, record.archive_path.clone())
}

/// A catalogued segment as a query match reports it.
#[derive(Debug, Clone)]
pub struct UsageCatalogSegment {
    pub archive_path: String,
    pub start_ms: Option<i64>,
    pub end_ms: Option<i64>,
    pub row_count: usize,
}

/// A segment that a query must read, with the totals the catalog can give
/// for it.
#[derive(Debug, Clone)]
pub struct UsageCatalogSegmentMatch {
    pub segment: UsageCatalogSegment,
    pub matching_totals: Option<UsageEventTotals>,
}

/// What a query match reports of a catalogued segment.
pub open spec fn entry_match_view(e: CatalogSegmentEntry, query: UsageCatalogQuery)
    -> (Seq<char>, Option<i64>, Option<i64>, usize, Option<UsageEventTotals>)
{
    (e.record.archive_path@, e.record.start_ms, e.record.end_ms, e.record.row_count,
        catalog_segment_totals(Some(e), e.record, query))
}

/// What a query match holds.
pub open spec fn match_view(m: UsageCatalogSegmentMatch) -> (Seq<char>, Option<i64>, Option<i64>, usize, Option<UsageEventTotals>) {
    (m.segment.archive_path@, m.segment.start_ms, m.segment.end_ms, m.segment.row_count, m.matching_totals)
}

fn dup_match(m: &UsageCatalogSegmentMatch) -> (r: UsageCatalogSegmentMatch)
    ensures
        match_view(r) == match_view(*m),
{
    UsageCatalogSegmentMatch {
        segment: UsageCatalogSegment {
            archive_path: m.segment.archive_path.clone(),
            start_ms: m.segment.start_ms,
            end_ms: m.segment.end_ms,
            row_count: m.segment.row_count,
        },
        matching_totals: m.matching_totals,
    }
}

impl TestTieredUsageCatalog {
    /// The selected segments of a catalog, with their sort keys, in id order.
    fn selected_segments(&self, query: &UsageCatalogQuery) -> (r: (Vec<ArchivedUsageSegment>, Vec<(i64, String)>, Vec<UsageCatalogSegmentMatch>))
        requires
            self.wf(),
        ensures
            ({
                let sel = selected_entries(self.state.segments@, *query);
                &&& r.0@.len() == sel.len()
                &&& r.1@.len() == sel.len()
                &&& r.2@.len() == sel.len()
                &&& forall|i: int| 0 <= i < sel.len() ==> archived_segment_view(#[trigger] r.0@[i]) == entry_archived_view(sel[i])
                &&& key_views(r.1@) == entry_keys(sel)
                &&& forall|i: int| 0 <= i < sel.len() ==> match_view(#[trigger] r.2@[i]) == entry_match_view(sel[i], *query)
            }),
    {
        let ghost segs = self.state.segments@;
        let ghost pred = |e: CatalogSegmentEntry| segment_selected(e, *query);
        let mut items: Vec<ArchivedUsageSegment> = Vec::new();
        let mut keys: Vec<(i64, String)> = Vec::new();
        let mut matches: Vec<UsageCatalogSegmentMatch> = Vec::new();
        let mut i: usize = 0;
        proof {
            reveal(Seq::filter);
            assert(segs.take(0) =~= Seq::<CatalogSegmentEntry>::empty());
        }
        while i < self.state.segments.len()
            invariant
                i <= self.state.segments.len(),
                segs == self.state.segments@,
                pred == (|e: CatalogSegmentEntry| segment_selected(e, *query)),
                items@.len() == segs.take(i as int).filter(pred).len(),
                keys@.len() == items@.len(),
                matches@.len() == items@.len(),
                forall|k: int| 0 <= k < items@.len() ==> archived_segment_view(#[trigger] items@[k]) == entry_archived_view(segs.take(i as int).filter(pred)[k]),
                key_views(keys@) == segs.take(i as int).filter(pred).map_values(|e: CatalogSegmentEntry| entry_key(e)),
                forall|k: int| 0 <= k < matches@.len() ==> match_view(#[trigger] matches@[k]) == entry_match_view(segs.take(i as int).filter(pred)[k], *query),
            decreases self.state.segments.len() - i,
        {
            let e = &self.state.segments[i];
            proof {
                assert(segs.take(i + 1) =~= segs.take(i as int).push(segs[i as int]));
                segs.take(i as int).lemma_filter_push(segs[i as int], pred);
            }
            if segment_matches_time_window(&e.record, query.start_ms, query.end_ms) && entry_matches_query(Some(e), query) {
                let ghost before = segs.take(i as int).filter(pred);
                proof {
                    assert(pred(segs[i as int]));
                }
                items.push(archived_segment_from_record(&e.record));
                let kk = sort_key_of(&e.record);
                let ghost kb = keys@;
                keys.push(kk);
                let totals = entry_totals(Some(e), &e.record, query);
                matches.push(UsageCatalogSegmentMatch {
                    segment: UsageCatalogSegment {
                        archive_path: e.record.archive_path.clone(),
                        start_ms: e.record.start_ms,
                        end_ms: e.record.end_ms,
                        row_count: e.record.row_count,
                    },
                    matching_totals: totals,
                });
                proof {
                    let after = segs.take(i + 1).filter(pred);
                    assert(after == before.push(segs[i as int]));
                    assert forall|k: int| 0 <= k < items@.len() implies archived_segment_view(#[trigger] items@[k]) == entry_archived_view(after[k]) by {
                        if k < before.len() {
                            assert(after[k] == before[k]);
                        }
                    }
                    assert forall|k: int| 0 <= k < matches@.len() implies match_view(#[trigger] matches@[k]) == entry_match_view(after[k], *query) by {
                        if k < before.len() {
                            assert(after[k] == before[k]);
                        }
                    }
                    assert(key_views(keys@) =~= key_views(kb).push(entry_key(segs[i as int])));
                    assert(after.map_values(|e: CatalogSegmentEntry| entry_key(e)) =~= before.map_values(|e: CatalogSegmentEntry| entry_key(e)).push(entry_key(segs[i as int])));
                    assert(key_views(keys@) =~= after.map_values(|e: CatalogSegmentEntry| entry_key(e)));
                }
            } else {
                proof {
                    assert(!pred(segs[i as int]));
                }
            }
            i = i + 1;
        }
        proof {
            assert(segs.take(i as int) =~= segs);
        }
        (items, keys, matches)
    }

    /// The archived segments a query must read, newest first.
    pub fn archived_segments_for_query(&self, query: &UsageCatalogQuery) -> (r: Vec<ArchivedUsageSegment>)
        requires
            self.wf(),
        ensures
            ({
                let sel = selected_entries(self.state.segments@, *query);
                exists|perm: Seq<int>| {
                    &&& #[trigger] newest_first_arrangement(entry_keys(sel), perm)
                    &&& r@.len() == sel.len()
                    &&& forall|i: int| 0 <= i < r@.len() ==> archived_segment_view(#[trigger] r@[i]) == entry_archived_view(sel[perm[i]])
                }
            }),
    {
        let ghost sel = selected_entries(self.state.segments@, *query);
        let (items, keys, _matches) = self.selected_segments(query);
        let perm = newest_first_order(&keys);
        let ghost pv = Seq::new(perm@.len(), |i: int| perm@[i] as int);
        let mut out: Vec<ArchivedUsageSegment> = Vec::new();
        let mut i: usize = 0;
        while i < perm.len()
            invariant
                i <= perm.len(),
                pv == Seq::new(perm@.len(), |i: int| perm@[i] as int),
                newest_first_arrangement(key_views(keys@), pv),
                key_views(keys@) == entry_keys(sel),
                items@.len() == sel.len(),
                forall|k: int| 0 <= k < sel.len() ==> archived_segment_view(#[trigger] items@[k]) == entry_archived_view(sel[k]),
                out@.len() == i,
                forall|k: int| 0 <= k < i ==> archived_segment_view(#[trigger] out@[k]) == entry_archived_view(sel[pv[k]]),
            decreases perm.len() - i,
        {
            proof {
                assert(pv[i as int] == perm@[i as int] as int);
                assert(0 <= pv[i as int] < key_views(keys@).len());
            }
            let a = dup_archived(&items[perm[i]]);
            out.push(a);
            i = i + 1;
        }
        proof {
            assert(newest_first_arrangement(entry_keys(sel), pv));
        }
        out
    }

    /// The segments a query must read, newest first, with the totals the
    /// catalog gives for each.
    pub fn archived_segment_matches_for_query(&self, query: &UsageCatalogQuery) -> (r: Vec<UsageCatalogSegmentMatch>)
        requires
            self.wf(),
        ensures
            ({
                let sel = selected_entries(self.state.segments@, *query);
                exists|perm: Seq<int>| {
                    &&& #[trigger] newest_first_arrangement(entry_keys(sel), perm)
                    &&& r@.len() == sel.len()
                    &&& forall|i: int| 0 <= i < r@.len() ==> match_view(#[trigger] r@[i]) == entry_match_view(sel[perm[i]], *query)
                }
            }),
    {
        let ghost sel = selected_entries(self.state.segments@, *query);
        let (_items, keys, matches) = self.selected_segments(query);
        let perm = newest_first_order(&keys);
        let ghost pv = Seq::new(perm@.len(), |i: int| perm@[i] as int);
        let mut out: Vec<UsageCatalogSegmentMatch> = Vec::new();
        let mut i: usize = 0;
        while i < perm.len()
            invariant
                i <= perm.len(),
                pv == Seq::new(perm@.len(), |i: int| perm@[i] as int),
                newest_first_arrangement(key_views(keys@), pv),
                key_views(keys@) == entry_keys(sel),
                matches@.len() == sel.len(),
                forall|k: int| 0 <= k < sel.len() ==> match_view(#[trigger] matches@[k]) == entry_match_view(sel[k], *query),
                out@.len() == i,
                forall|k: int| 0 <= k < i ==> match_view(#[trigger] out@[k]) == entry_match_view(sel[pv[k]], *query),
            decreases perm.len() - i,
        {
            proof {
                assert(pv[i as int] == perm@[i as int] as int);
                assert(0 <= pv[i as int] < key_views(keys@).len());
            }
            let m = dup_match(&matches[perm[i]]);
            out.push(m);
            i = i + 1;
        }
        proof {
            assert(newest_first_arrangement(entry_keys(sel), pv));
        }
        out
    }
}

/// The read-path sort keys of archived segments.
pub open spec fn archived_keys(v: Seq<ArchivedUsageSegment>) -> Seq<(int, Seq<char>)> {
    Seq::new(v.len(), |i: int| newest_first_key(v[i].end_ms, v[i].archive_path@))
}

/// Sorts archived segments newest first (later end, then larger path),
/// keeping the order of equal keys.
pub fn sort_archived_segments(segments: &mut Vec<ArchivedUsageSegment>)
    ensures
        exists|perm: Seq<int>| {
            &&& #[trigger] newest_first_arrangement(archived_keys(old(segments)@), perm)
            &&& final(segments)@.len() == old(segments)@.len()
            &&& forall|i: int| 0 <= i < final(segments)@.len() ==> #[trigger] final(segments)@[i] == old(segments)@[perm[i]]
        },
{
    let ghost orig = segments@;
    let ghost kv = archived_keys(orig);
    let mut keys: Vec<(i64, String)> = Vec::new();
    let mut i: usize = 0;
    while i < segments.len()
        invariant
            i <= segments.len(),
            segments@ == orig,
            kv == archived_keys(orig),
            keys@.len() == i,
            forall|k: int| 0 <= k < i ==> #[trigger] key_views(keys@)[k] == kv[k],
        decreases segments.len() - i,
    {
        let end = match segments[i].end_ms {
            Some(e) => e,
            None => 0,
        };
        let ghost kb = keys@;
        keys.push((end, segments[i].archive_path.clone()));
        proof {
            assert forall|k: int| 0 <= k < i + 1 implies #[trigger] key_views(keys@)[k] == kv[k] by {
                if k < i {
                    assert(keys@[k] == kb[k]);
                    assert(key_views(kb)[k] == kv[k]);
                }
            }
        }
        i = i + 1;
    }
    assert(key_views(keys@) =~= kv);
    let perm = newest_first_order(&keys);
    let ghost pv = Seq::new(perm@.len(), |i: int| perm@[i] as int);
    let mut out: Vec<ArchivedUsageSegment> = Vec::new();
    let mut j: usize = 0;
    while j < perm.len()
        invariant
            j <= perm.len(),
            segments@ == orig,
            kv == archived_keys(orig),
            pv == Seq::new(perm@.len(), |i: int| perm@[i] as int),
            newest_first_arrangement(kv, pv),
            out@.len() == j,
            forall|k: int| 0 <= k < j ==> #[trigger] out@[k] == orig[pv[k]],
        decreases perm.len() - j,
    {
        proof {
            assert(pv[j as int] == perm@[j as int] as int);
            assert(0 <= pv[j as int] < kv.len());
        }
        let a = dup_archived(&segments[perm[j]]);
        out.push(a);
        j = j + 1;
    }
    *segments = out;
    assert(newest_first_arrangement(kv, pv));
}

/// Whether `perm` lists each of `0..n` once.
pub open spec fn permutation_of(perm: Seq<int>, n: int) -> bool {
    &&& perm.len() == n
    &&& forall|i: int| 0 <= i < perm.len() ==> 0 <= #[trigger] perm[i] < n
    &&& forall|i: int, j: int| 0 <= i < perm.len() && 0 <= j < perm.len() && i != j ==> perm[i] != perm[j]
}

/// A permutation of `0..n` lists every index of `0..n`.
pub proof fn lemma_permutation_covers(perm: Seq<int>, n: int)
    requires
        permutation_of(perm, n),
    ensures
        forall|k: int| 0 <= k < n ==> #[trigger] perm.contains(k),
{
    assert(perm.no_duplicates());
    perm.unique_seq_to_set();
    vstd::set_lib::lemma_int_range(0, n);
    let range = vstd::set_lib::set_int_range(0, n);
    assert(perm.to_set().subset_of(range)) by {
        assert forall|x: int| perm.to_set().contains(x) implies range.contains(x) by {
            let m = perm.index_of(x);
            assert(perm[m] == x);
        }
    }
    vstd::set_lib::lemma_len_subset(perm.to_set(), range);
    vstd::set_lib::lemma_subset_equality(perm.to_set(), range);
    assert forall|k: int| 0 <= k < n implies #[trigger] perm.contains(k) by {
        assert(range.contains(k));
        assert(perm.to_set().contains(k));
    }
}

/// Whether a field rollup offers its value as a filter option of `field`.
pub open spec fn option_hit(r: UsageCatalogFieldRollupRecord, query: UsageCatalogQuery, field: UsageCatalogFieldName) -> bool {
    r.field_name == field && crate::catalog::field_rollup_in_scope(r, query)
        && interval_meets_window(r.first_used_at_ms, r.last_used_at_ms, query.start_ms, query.end_ms)
}

/// Rollup `b` of segment `a` offers the value `v`, the segment meeting the
/// query window.
pub open spec fn option_value_at(
    segs: Seq<CatalogSegmentEntry>,
    query: UsageCatalogQuery,
    field: UsageCatalogFieldName,
    a: int,
    b: int,
    v: Seq<char>,
) -> bool {
    &&& 0 <= a < segs.len()
    &&& interval_meets_window(segs[a].record.start_ms, segs[a].record.end_ms, query.start_ms, query.end_ms)
    &&& 0 <= b < segs[a].field_rollups@.len()
    &&& option_hit(segs[a].field_rollups@[b], query, field)
    &&& segs[a].field_rollups@[b].field_value@ == v
}

/// The values the catalog offers as filter options of `field`.
pub open spec fn option_values(segs: Seq<CatalogSegmentEntry>, query: UsageCatalogQuery, field: UsageCatalogFieldName) -> Set<Seq<char>> {
    Set::new(|v: Seq<char>| exists|a: int, b: int| #[trigger] option_value_at(segs, query, field, a, b, v))
}

/// Whether the character sequences ascend strictly.
pub open spec fn views_ascending(v: Seq<String>) -> bool {
    forall|i: int, j: int| 0 <= i < j < v.len() ==> seq_less(#[trigger] v[i]@, #[trigger] v[j]@)
}

/// Whether some string has the view `x`.
pub open spec fn has_view(v: Seq<String>, x: Seq<char>) -> bool {
    exists|i: int| 0 <= i < v.len() && #[trigger] v[i]@ == x
}

/// Inserts `value` into strictly ascending `values` unless it is there.
fn insert_sorted_unique(values: &mut Vec<String>, value: String)
    requires
        views_ascending(old(values)@),
    ensures
        views_ascending(final(values)@),
        forall|x: Seq<char>| has_view(final(values)@, x) <==> (has_view(old(values)@, x) || x == value@),
{
    let ghost old_v = values@;
    let ghost val = value@;
    let mut p: usize = 0;
    while p < values.len() && crate::scan::str_less(values[p].as_str(), value.as_str())
        invariant
            p <= values.len(),
            values@ == old_v,
            val == value@,
            forall|q: int| 0 <= q < p ==> seq_less(#[trigger] old_v[q]@, val),
        decreases values.len() - p,
    {
        p = p + 1;
    }
    if p < values.len() && values[p] == value {
        assert(has_view(old_v, val)) by {
            assert(old_v[p as int]@ == val);
        }
        return;
    }
    proof {
        if p < old_v.len() {
            lemma_seq_less_total(old_v[p as int]@, val);
        }
    }
    values.insert(p, value);
    proof {
        let nv = values@;
        assert(nv =~= old_v.insert(p as int, nv[p as int]));
        assert(nv[p as int]@ == val);
        assert forall|i: int, j: int| 0 <= i < j < nv.len() implies seq_less(#[trigger] nv[i]@, #[trigger] nv[j]@) by {
            if j < p {
            } else if j == p {
            } else if i < p {
                assert(nv[j] == old_v[j - 1]);
                if j - 1 > p {
                    assert(seq_less(old_v[p as int]@, old_v[j - 1]@));
                    lemma_seq_less_transitive(val, old_v[p as int]@, old_v[j - 1]@);
                }
                lemma_seq_less_transitive(old_v[i]@, val, old_v[j - 1]@);
            } else if i == p {
                assert(nv[j] == old_v[j - 1]);
                if j - 1 > p {
                    assert(seq_less(old_v[p as int]@, old_v[j - 1]@));
                    lemma_seq_less_transitive(val, old_v[p as int]@, old_v[j - 1]@);
                }
            } else {
                assert(nv[i] == old_v[i - 1]);
                assert(nv[j] == old_v[j - 1]);
            }
        }
        assert forall|x: Seq<char>| has_view(nv, x) <==> (has_view(old_v, x) || x == val) by {
            if has_view(old_v, x) {
                let i = choose|i: int| 0 <= i < old_v.len() && #[trigger] old_v[i]@ == x;
                if i < p {
                    assert(nv[i] == old_v[i]);
                } else {
                    assert(nv[i + 1] == old_v[i]);
                }
            }
            if has_view(nv, x) && x != val {
                let i = choose|i: int| 0 <= i < nv.len() && #[trigger] nv[i]@ == x;
                if i < p {
                    assert(nv[i] == old_v[i]);
                } else if i > p {
                    assert(nv[i] == old_v[i - 1]);
                }
            }
        }
    }
}

impl TestTieredUsageCatalog {
    /// The values the catalog offers as filter options of `field_name`, in
    /// ascending order; `None` when the query already filters by a field.
    pub fn archived_filter_option_values(
        &self,
        query: &UsageCatalogQuery,
        field_name: UsageCatalogFieldName,
    ) -> (r: Option<Vec<String>>)
        ensures
            r is None <==> query.field_filters@.len() > 0,
            r matches Some(v) ==> views_ascending(v@) && forall|x: Seq<char>|
                has_view(v@, x) <==> option_values(self.state.segments@, *query, field_name).contains(x),
    {
        if query.field_filters.len() > 0 {
            return None;
        }
        let ghost segs = self.state.segments@;
        let mut values: Vec<String> = Vec::new();
        let mut i: usize = 0;
        while i < self.state.segments.len()
            invariant
                i <= self.state.segments.len(),
                segs == self.state.segments@,
                views_ascending(values@),
                forall|x: Seq<char>| has_view(values@, x) <==> exists|a: int, b: int|
                    #[trigger] option_value_at(segs, *query, field_name, a, b, x) && a < i,
            decreases self.state.segments.len() - i,
        {
            let e = &self.state.segments[i];
            if segment_matches_time_window(&e.record, query.start_ms, query.end_ms) {
                let mut k: usize = 0;
                while k < e.field_rollups.len()
                    invariant
                        i < self.state.segments.len(),
                        k <= e.field_rollups.len(),
                        segs == self.state.segments@,
                        *e == segs[i as int],
                        interval_meets_window(segs[i as int].record.start_ms, segs[i as int].record.end_ms, query.start_ms, query.end_ms),
                        views_ascending(values@),
                        forall|x: Seq<char>| has_view(values@, x) <==> exists|a: int, b: int|
                            #[trigger] option_value_at(segs, *query, field_name, a, b, x) && (a < i || (a == i && b < k)),
                    decreases e.field_rollups.len() - k,
                {
                    let r = &e.field_rollups[k];
                    let ghost before = values@;
                    if r.field_name == field_name && test_field_rollup_matches_scope(r, query)
                        && test_rollup_matches_time(r.first_used_at_ms, r.last_used_at_ms, query.start_ms, query.end_ms)
                    {
                        insert_sorted_unique(&mut values, r.field_value.clone());
                        proof {
                            let v0 = r.field_value@;
                            assert(option_value_at(segs, *query, field_name, i as int, k as int, v0));
                            assert forall|x: Seq<char>| has_view(values@, x) <==> exists|a: int, b: int|
                                #[trigger] option_value_at(segs, *query, field_name, a, b, x) && (a < i || (a == i && b < k + 1)) by {
                                if has_view(values@, x) {
                                    if x == v0 {
                                        assert(option_value_at(segs, *query, field_name, i as int, k as int, x));
                                    } else {
                                        assert(has_view(before, x));
                                        let (a, b) = choose|a: int, b: int| #[trigger] option_value_at(segs, *query, field_name, a, b, x) && (a < i || (a == i && b < k));
                                        assert(option_value_at(segs, *query, field_name, a, b, x));
                                    }
                                }
                                if exists|a: int, b: int| #[trigger] option_value_at(segs, *query, field_name, a, b, x) && (a < i || (a == i && b < k + 1)) {
                                    let (a, b) = choose|a: int, b: int| #[trigger] option_value_at(segs, *query, field_name, a, b, x) && (a < i || (a == i && b < k + 1));
                                    if a == i && b == k {
                                        assert(x == v0);
                                    } else {
                                        assert(option_value_at(segs, *query, field_name, a, b, x) && (a < i || (a == i && b < k)));
                                        assert(has_view(before, x));
                                    }
                                }
                            }
                        }
                    } else {
                        proof {
                            assert forall|x: Seq<char>| has_view(values@, x) <==> exists|a: int, b: int|
                                #[trigger] option_value_at(segs, *query, field_name, a, b, x) && (a < i || (a == i && b < k + 1)) by {
                                if has_view(values@, x) {
                                    let (a, b) = choose|a: int, b: int| #[trigger] option_value_at(segs, *query, field_name, a, b, x) && (a < i || (a == i && b < k));
                                    assert(option_value_at(segs, *query, field_name, a, b, x));
                                }
                                if exists|a: int, b: int| #[trigger] option_value_at(segs, *query, field_name, a, b, x) && (a < i || (a == i && b < k + 1)) {
                                    let (a, b) = choose|a: int, b: int| #[trigger] option_value_at(segs, *query, field_name, a, b, x) && (a < i || (a == i && b < k + 1));
                                    if a == i && b == k {
                                        assert(!option_hit(segs[i as int].field_rollups@[k as int], *query, field_name));
                                    } else {
                                        assert(option_value_at(segs, *query, field_name, a, b, x) && (a < i || (a == i && b < k)));
                                    }
                                }
                            }
                        }
                    }
                    k = k + 1;
                }
                proof {
                    assert forall|x: Seq<char>| has_view(values@, x) <==> exists|a: int, b: int|
                        #[trigger] option_value_at(segs, *query, field_name, a, b, x) && a < i + 1 by {
                        if has_view(values@, x) {
                            let (a, b) = choose|a: int, b: int| #[trigger] option_value_at(segs, *query, field_name, a, b, x) && (a < i || (a == i && b < k));
                            assert(option_value_at(segs, *query, field_name, a, b, x));
                        }
                        if exists|a: int, b: int| #[trigger] option_value_at(segs, *query, field_name, a, b, x) && a < i + 1 {
                            let (a, b) = choose|a: int, b: int| #[trigger] option_value_at(segs, *query, field_name, a, b, x) && a < i + 1;
                            assert(option_value_at(segs, *query, field_name, a, b, x) && (a < i || (a == i && b < k)));
                        }
                    }
                }
            } else {
                proof {
                    assert forall|x: Seq<char>| has_view(values@, x) <==> exists|a: int, b: int|
                        #[trigger] option_value_at(segs, *query, field_name, a, b, x) && a < i + 1 by {
                        if has_view(values@, x) {
                            let (a, b) = choose|a: int, b: int| #[trigger] option_value_at(segs, *query, field_name, a, b, x) && a < i;
                            assert(option_value_at(segs, *query, field_name, a, b, x));
                        }
                        if exists|a: int, b: int| #[trigger] option_value_at(segs, *query, field_name, a, b, x) && a < i + 1 {
                            let (a, b) = choose|a: int, b: int| #[trigger] option_value_at(segs, *query, field_name, a, b, x) && a < i + 1;
                            assert(a != i);
                            assert(option_value_at(segs, *query, field_name, a, b, x) && a < i);
                        }
                    }
                }
            }
            i = i + 1;
        }
        proof {
            assert forall|x: Seq<char>| has_view(values@, x) <==> option_values(segs, *query, field_name).contains(x) by {
                if option_values(segs, *query, field_name).contains(x) {
                    let (a, b) = choose|a: int, b: int| #[trigger] option_value_at(segs, *query, field_name, a, b, x);
                    assert(option_value_at(segs, *query, field_name, a, b, x) && a < i);
                }
            }
        }
        Some(values)
    }

    /// The archive paths of all catalogued segments, in segment-id order.
    pub fn archived_paths(&self) -> (r: Vec<String>)
        ensures
            r@.len() == self.state.segments@.len(),
            forall|i: int| 0 <= i < r@.len() ==> (#[trigger] r@[i])@ == self.state.segments@[i].record.archive_path@,
    {
        let mut out: Vec<String> = Vec::new();
        let mut i: usize = 0;
        while i < self.state.segments.len()
            invariant
                i <= self.state.segments.len(),
                out@.len() == i,
                forall|k: int| 0 <= k < i ==> (#[trigger] out@[k])@ == self.state.segments@[k].record.archive_path@,
            decreases self.state.segments.len() - i,
        {
            out.push(self.state.segments[i].record.archive_path.clone());
            i = i + 1;
        }
        out
    }

    /// The archive paths of the segments catalogued without field rollups,
    /// in ascending order.
    pub fn archived_paths_missing_field_rollups(&self) -> (r: Vec<String>)
        ensures
            ({
                let missing = self.state.segments@.filter(|e: CatalogSegmentEntry| e.field_rollups@.len() == 0);
                exists|perm: Seq<int>| {
                    &&& #[trigger] permutation_of(perm, missing.len() as int)
                    &&& r@.len() == missing.len()
                    &&& forall|i: int| 0 <= i < r@.len() ==> (#[trigger] r@[i])@ == missing[perm[i]].record.archive_path@
                    &&& forall|i: int, j: int| 0 <= i < j < r@.len() ==> !seq_less(#[trigger] r@[j]@, #[trigger] r@[i]@)
                }
            }),
    {
        let ghost segs = self.state.segments@;
        let ghost pred = |e: CatalogSegmentEntry| e.field_rollups@.len() == 0;
        let ghost missing = segs.filter(pred);
        let mut keys: Vec<(i64, String)> = Vec::new();
        let mut i: usize = 0;
        proof {
            reveal(Seq::filter);
            assert(segs.take(0) =~= Seq::<CatalogSegmentEntry>::empty());
        }
        while i < self.state.segments.len()
            invariant
                i <= self.state.segments.len(),
                segs == self.state.segments@,
                pred == (|e: CatalogSegmentEntry| e.field_rollups@.len() == 0),
                keys@.len() == segs.take(i as int).filter(pred).len(),
                forall|k: int| 0 <= k < keys@.len() ==> (#[trigger] keys@[k]).0 == 0
                    && keys@[k].1@ == segs.take(i as int).filter(pred)[k].record.archive_path@,
            decreases self.state.segments.len() - i,
        {
            proof {
                assert(segs.take(i + 1) =~= segs.take(i as int).push(segs[i as int]));
                segs.take(i as int).lemma_filter_push(segs[i as int], pred);
            }
            if self.state.segments[i].field_rollups.len() == 0 {
                let ghost before = segs.take(i as int).filter(pred);
                keys.push((0, self.state.segments[i].record.archive_path.clone()));
                proof {
                    let after = segs.take(i + 1).filter(pred);
                    assert(after == before.push(segs[i as int]));
                    assert forall|k: int| 0 <= k < keys@.len() implies (#[trigger] keys@[k]).0 == 0
                        && keys@[k].1@ == after[k].record.archive_path@ by {
                        if k < before.len() {
                            assert(after[k] == before[k]);
                        }
                    }
                }
            }
            i = i + 1;
        }
        proof {
            assert(segs.take(i as int) =~= segs);
        }
        let perm = newest_first_order(&keys);
        let ghost pv = Seq::new(perm@.len(), |i: int| perm@[i] as int);
        let ghost kv = key_views(keys@);
        let n = perm.len();
        let mut out: Vec<String> = Vec::new();
        let mut j: usize = 0;
        while j < n
            invariant
                j <= n,
                n == perm@.len(),
                pv == Seq::new(perm@.len(), |i: int| perm@[i] as int),
                kv == key_views(keys@),
                newest_first_arrangement(kv, pv),
                keys@.len() == missing.len(),
                forall|k: int| 0 <= k < keys@.len() ==> (#[trigger] keys@[k]).0 == 0
                    && keys@[k].1@ == missing[k].record.archive_path@,
                out@.len() == j,
                forall|k: int| 0 <= k < j ==> (#[trigger] out@[k])@ == keys@[pv[n - 1 - k]].1@,
            decreases n - j,
        {
            proof {
                assert(pv[n - 1 - j] == perm@[n - 1 - j] as int);
                assert(0 <= pv[n - 1 - j] < kv.len());
            }
            out.push(keys[perm[n - 1 - j]].1.clone());
            j = j + 1;
        }
        proof {
            let q = Seq::new(n as nat, |i: int| pv[n - 1 - i]);
            assert forall|i: int, j2: int| 0 <= i < j2 < out@.len() implies !seq_less(#[trigger] out@[j2]@, #[trigger] out@[i]@) by {
                assert(!newest_first_less(kv[pv[n - 1 - i]], kv[pv[n - 1 - j2]]));
                assert(kv[pv[n - 1 - i]].0 == 0);
                assert(kv[pv[n - 1 - j2]].0 == 0);
            }
            assert forall|i: int| 0 <= i < q.len() implies 0 <= #[trigger] q[i] < missing.len() by {
                assert(q[i] == pv[n - 1 - i]);
            }
            assert forall|i: int, j2: int| 0 <= i < q.len() && 0 <= j2 < q.len() && i != j2 implies q[i] != q[j2] by {
                assert(q[i] == pv[n - 1 - i]);
                assert(q[j2] == pv[n - 1 - j2]);
            }
            assert forall|i: int| 0 <= i < out@.len() implies (#[trigger] out@[i])@ == missing[q[i]].record.archive_path@ by {
                assert(q[i] == pv[n - 1 - i]);
            }
            assert(permutation_of(q, missing.len() as int));
        }
        out
    }
}

} // verus!
