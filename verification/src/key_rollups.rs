//! Per-key usage rollup summaries combined across sources: the archive
//! catalog's segment rollups and the active segment's. Summaries are kept in
//! ascending key order, one per key. Credit totals are decimal text whose
//! sum is floating point; a summary lists the credit totals it combined, in
//! order, for the caller to add.
use vstd::prelude::*;
use crate::catalog::UsageCatalogKeyRollupRecord;
use crate::catalog_state::{
    lemma_ascending_unique, lemma_index_of_unique, strictly_ascending, CatalogSegmentEntry, TestTieredUsageCatalog,
};
use crate::metrics::clamp_i64;
use crate::scan::{lemma_seq_less_irreflexive, lemma_seq_less_total, lemma_seq_less_transitive, seq_less};

verus! {

/// Usage of one key summed over its rollups.
#[derive(Debug, Clone)]
pub struct KeyUsageRollupSummary {
    pub key_id: String,
    pub input_uncached_tokens: i64,
    pub input_cached_tokens: i64,
    pub output_tokens: i64,
    pub billable_tokens: i64,
    /// The credit totals of the combined rollups, in the order combined.
    pub credit_parts: Vec<String>,
    pub credit_missing_events: i64,
    pub last_used_at_ms: Option<i64>,
}

/// The mathematical content of a summary.
pub struct SummaryView {
    pub key: Seq<char>,
    pub input_uncached_tokens: i64,
    pub input_cached_tokens: i64,
    pub output_tokens: i64,
    pub billable_tokens: i64,
    pub credit_parts: Seq<Seq<char>>,
    pub credit_missing_events: i64,
    pub last_used_at_ms: Option<i64>,
}

/// The views of a list of strings.
pub open spec fn text_views(v: Seq<String>) -> Seq<Seq<char>> {
    Seq::new(v.len(), |i: int| v[i]@)
}

/// What a summary holds.
pub open spec fn summary_view(s: KeyUsageRollupSummary) -> SummaryView {
    SummaryView {
        key: s.key_id@,
        input_uncached_tokens: s.input_uncached_tokens,
        input_cached_tokens: s.input_cached_tokens,
        output_tokens: s.output_tokens,
        billable_tokens: s.billable_tokens,
        credit_parts: text_views(s.credit_parts@),
        credit_missing_events: s.credit_missing_events,
        last_used_at_ms: s.last_used_at_ms,
    }
}

/// The later of two optional times.
pub open spec fn later_use(a: Option<i64>, b: Option<i64>) -> Option<i64> {
    match (a, b) {
        (Some(x), Some(y)) => Some(if x >= y { x } else { y }),
        (None, Some(y)) => Some(y),
        (x, None) => x,
    }
}

/// `acc` with `added` combined in: counters add (saturating), credit
/// parts are appended, the last use is the later one.
pub open spec fn merged_summary(acc: SummaryView, added: SummaryView) -> SummaryView {
    SummaryView {
        key: acc.key,
        input_uncached_tokens: clamp_i64(acc.input_uncached_tokens + added.input_uncached_tokens),
        input_cached_tokens: clamp_i64(acc.input_cached_tokens + added.input_cached_tokens),
        output_tokens: clamp_i64(acc.output_tokens + added.output_tokens),
        billable_tokens: clamp_i64(acc.billable_tokens + added.billable_tokens),
        credit_parts: acc.credit_parts + added.credit_parts,
        credit_missing_events: clamp_i64(acc.credit_missing_events + added.credit_missing_events),
        last_used_at_ms: later_use(acc.last_used_at_ms, added.last_used_at_ms),
    }
}

/// The summary of a key before any rollup.
pub open spec fn empty_summary(key: Seq<char>) -> SummaryView {
    SummaryView {
        key,
        input_uncached_tokens: 0,
        input_cached_tokens: 0,
        output_tokens: 0,
        billable_tokens: 0,
        credit_parts: Seq::empty(),
        credit_missing_events: 0,
        last_used_at_ms: None,
    }
}

/// The summaries by key after combining one more rollup.
pub open spec fn summaries_after(m: Map<Seq<char>, SummaryView>, added: SummaryView) -> Map<Seq<char>, SummaryView> {
    let base = if m.dom().contains(added.key) { m[added.key] } else { empty_summary(added.key) };
    m.insert(added.key, merged_summary(base, added))
}

/// The summaries by key after combining `rollups` in order.
pub open spec fn summaries_of(rollups: Seq<SummaryView>) -> Map<Seq<char>, SummaryView>
    decreases rollups.len(),
{
    if rollups.len() == 0 {
        Map::empty()
    } else {
        summaries_after(summaries_of(rollups.drop_last()), rollups.last())
    }
}

/// Combining rollups yields one summary for each key that occurs among
/// them, and for no other key, each under its own key.
pub proof fn lemma_summaries_cover_rollup_keys(rollups: Seq<SummaryView>)
    ensures
        forall|k: Seq<char>| #[trigger] summaries_of(rollups).dom().contains(k)
            <==> exists|i: int| 0 <= i < rollups.len() && #[trigger] rollups[i].key == k,
        forall|k: Seq<char>| #[trigger] summaries_of(rollups).dom().contains(k) ==> summaries_of(rollups)[k].key == k,
    decreases rollups.len(),
{
    if rollups.len() > 0 {
        let prefix = rollups.drop_last();
        lemma_summaries_cover_rollup_keys(prefix);
        let x = rollups.last();
        assert forall|k: Seq<char>| #[trigger] summaries_of(rollups).dom().contains(k)
            implies exists|i: int| 0 <= i < rollups.len() && #[trigger] rollups[i].key == k by {
            if k == x.key {
                assert(rollups[rollups.len() - 1].key == k);
            } else {
                let i = choose|i: int| 0 <= i < prefix.len() && #[trigger] prefix[i].key == k;
                assert(rollups[i] == prefix[i]);
            }
        }
        assert forall|k: Seq<char>| (exists|i: int| 0 <= i < rollups.len() && #[trigger] rollups[i].key == k)
            implies #[trigger] summaries_of(rollups).dom().contains(k) by {
            let i = choose|i: int| 0 <= i < rollups.len() && #[trigger] rollups[i].key == k;
            if i < rollups.len() - 1 {
                assert(prefix[i] == rollups[i]);
            }
        }
    }
}

/// The keys of a list of summaries.
pub open spec fn summary_keys(v: Seq<KeyUsageRollupSummary>) -> Seq<Seq<char>> {
    Seq::new(v.len(), |i: int| v[i].key_id@)
}

/// The summaries of a list by key.
pub open spec fn summary_map(v: Seq<KeyUsageRollupSummary>) -> Map<Seq<char>, SummaryView> {
    Map::new(
        |k: Seq<char>| summary_keys(v).contains(k),
        |k: Seq<char>| summary_view(v[summary_keys(v).index_of(k)]),
    )
}

fn clamp_add(a: i64, b: i64) -> (r: i64)
    ensures
        r == clamp_i64(a + b),
{
    let s = a as i128 + b as i128;
    if s > i64::MAX as i128 {
        i64::MAX
    } else if s < i64::MIN as i128 {
        i64::MIN
    } else {
        s as i64
    }
}

fn merge_into(acc: &KeyUsageRollupSummary, added: &KeyUsageRollupSummary) -> (r: KeyUsageRollupSummary)
    ensures
        summary_view(r) == merged_summary(summary_view(*acc), summary_view(*added)),
        r.key_id@ == acc.key_id@,
{
    let mut parts: Vec<String> = Vec::new();
    let mut i: usize = 0;
    while i < acc.credit_parts.len()
        invariant
            i <= acc.credit_parts@.len(),
            parts@.len() == i,
            forall|k: int| 0 <= k < i ==> #[trigger] parts@[k]@ == acc.credit_parts@[k]@,
        decreases acc.credit_parts.len() - i,
    {
        let c = acc.credit_parts[i].clone();
        parts.push(c);
        i = i + 1;
    }
    let n = parts.len();
    let mut j: usize = 0;
    while j < added.credit_parts.len()
        invariant
            j <= added.credit_parts@.len(),
            n == acc.credit_parts@.len(),
            parts@.len() == n + j,
            forall|k: int| 0 <= k < n ==> #[trigger] parts@[k]@ == acc.credit_parts@[k]@,
            forall|k: int| 0 <= k < j ==> #[trigger] parts@[n + k]@ == added.credit_parts@[k]@,
        decreases added.credit_parts.len() - j,
    {
        let c = added.credit_parts[j].clone();
        parts.push(c);
        j = j + 1;
    }
    proof {
        let target = text_views(acc.credit_parts@) + text_views(added.credit_parts@);
        assert forall|k: int| 0 <= k < parts@.len() implies #[trigger] text_views(parts@)[k] == target[k] by {
            if k >= n {
                assert(parts@[n + (k - n)]@ == added.credit_parts@[k - n]@);
            }
        }
        assert(text_views(parts@) =~= target);
    }
    let last_used_at_ms = match (acc.last_used_at_ms, added.last_used_at_ms) {
        (Some(x), Some(y)) => Some(if x >= y { x } else { y }),
        (None, Some(y)) => Some(y),
        (x, None) => x,
    };
    KeyUsageRollupSummary {
        key_id: acc.key_id.clone(),
        input_uncached_tokens: clamp_add(acc.input_uncached_tokens, added.input_uncached_tokens),
        input_cached_tokens: clamp_add(acc.input_cached_tokens, added.input_cached_tokens),
        output_tokens: clamp_add(acc.output_tokens, added.output_tokens),
        billable_tokens: clamp_add(acc.billable_tokens, added.billable_tokens),
        credit_parts: parts,
        credit_missing_events: clamp_add(acc.credit_missing_events, added.credit_missing_events),
        last_used_at_ms,
    }
}

fn empty_of(key: &String) -> (r: KeyUsageRollupSummary)
    ensures
        summary_view(r) == empty_summary(key@),
{
    let r = KeyUsageRollupSummary {
        key_id: key.clone(),
        input_uncached_tokens: 0,
        input_cached_tokens: 0,
        output_tokens: 0,
        billable_tokens: 0,
        credit_parts: Vec::new(),
        credit_missing_events: 0,
        last_used_at_ms: None,
    };
    assert(text_views(r.credit_parts@) =~= Seq::<Seq<char>>::empty());
    r
}

/// Combines one rollup into summaries kept in ascending key order: the
/// key's summary gains it, or a new summary of the key is placed in order.
pub fn merge_key_rollup(combined: &mut Vec<KeyUsageRollupSummary>, rollup: KeyUsageRollupSummary)
    requires
        strictly_ascending(summary_keys(old(combined)@)),
    ensures
        strictly_ascending(summary_keys(final(combined)@)),
        summary_map(final(combined)@) == summaries_after(summary_map(old(combined)@), summary_view(rollup)),
{
    let ghost old_keys = summary_keys(combined@);
    let ghost old_map = summary_map(combined@);
    let ghost id = rollup.key_id@;
    let mut p: usize = 0;
    while p < combined.len() && crate::scan::str_less(combined[p].key_id.as_str(), rollup.key_id.as_str())
        invariant
            p <= combined@.len(),
            summary_keys(combined@) == old_keys,
            id == rollup.key_id@,
            forall|i: int| 0 <= i < p ==> seq_less(#[trigger] old_keys[i], id),
        decreases combined.len() - p,
    {
        p = p + 1;
    }
    proof {
        lemma_ascending_unique(old_keys);
    }
    if p < combined.len() && combined[p].key_id == rollup.key_id {
        let merged = merge_into(&combined[p], &rollup);
        let ghost before = combined@;
        proof {
            assert(old_keys[p as int] == id);
            lemma_index_of_unique(old_keys, p as int);
            assert(old_keys.contains(id));
            assert(old_map[id] == summary_view(before[p as int]));
        }
        combined.set(p, merged);
        proof {
            let new_keys = summary_keys(combined@);
            assert(new_keys =~= old_keys);
            assert forall|k: Seq<char>| #![auto] summary_map(combined@).dom().contains(k) <==>
                summaries_after(old_map, summary_view(rollup)).dom().contains(k) by {
                if k == id {
                    assert(new_keys[p as int] == k);
                }
            }
            assert forall|k: Seq<char>| #![auto] summary_map(combined@).dom().contains(k) implies
                summary_map(combined@)[k] == summaries_after(old_map, summary_view(rollup))[k] by {
                let i = new_keys.index_of(k);
                lemma_index_of_unique(new_keys, i);
                if k != id {
                    lemma_index_of_unique(old_keys, i);
                    assert(combined@[i] == before[i]);
                }
            }
            assert(summary_map(combined@) =~= summaries_after(old_map, summary_view(rollup)));
        }
    } else {
        proof {
            if p < old_keys.len() {
                lemma_seq_less_total(old_keys[p as int], id);
            }
            assert(!old_keys.contains(id)) by {
                if old_keys.contains(id) {
                    let q = old_keys.index_of(id);
                    if q < p {
                        lemma_seq_less_irreflexive(id);
                    } else if q > p {
                        assert(seq_less(old_keys[p as int], old_keys[q]));
                        lemma_seq_less_transitive(id, old_keys[p as int], id);
                        lemma_seq_less_irreflexive(id);
                    }
                }
            }
        }
        let fresh = empty_of(&rollup.key_id);
        let merged = merge_into(&fresh, &rollup);
        let ghost before = combined@;
        combined.insert(p, merged);
        proof {
            let new_keys = summary_keys(combined@);
            assert(new_keys =~= old_keys.insert(p as int, id));
            assert forall|i: int, j: int| 0 <= i < j < new_keys.len() implies seq_less(#[trigger] new_keys[i], #[trigger] new_keys[j]) by {
                if j < p {
                } else if j == p {
                } else if i < p {
                    assert(new_keys[j] == old_keys[j - 1]);
                    if j - 1 > p {
                        assert(seq_less(old_keys[p as int], old_keys[j - 1]));
                        lemma_seq_less_transitive(id, old_keys[p as int], old_keys[j - 1]);
                    }
                    lemma_seq_less_transitive(old_keys[i], id, old_keys[j - 1]);
                } else if i == p {
                    if j - 1 > p {
                        assert(seq_less(old_keys[p as int], old_keys[j - 1]));
                        lemma_seq_less_transitive(id, old_keys[p as int], old_keys[j - 1]);
                    }
                } else {
                    assert(new_keys[i] == old_keys[i - 1]);
                    assert(new_keys[j] == old_keys[j - 1]);
                }
            }
            lemma_ascending_unique(new_keys);
            assert forall|k: Seq<char>| #![auto] summary_map(combined@).dom().contains(k) <==>
                summaries_after(old_map, summary_view(rollup)).dom().contains(k) by {
                if old_keys.contains(k) {
                    let q = old_keys.index_of(k);
                    if q < p {
                        assert(new_keys[q] == k);
                    } else {
                        assert(new_keys[q + 1] == k);
                    }
                }
                if new_keys.contains(k) && k != id {
                    let q = new_keys.index_of(k);
                    if q < p {
                        assert(old_keys[q] == k);
                    } else {
                        assert(old_keys[q - 1] == k);
                    }
                }
                assert(new_keys[p as int] == id);
            }
            assert forall|k: Seq<char>| #![auto] summary_map(combined@).dom().contains(k) implies
                summary_map(combined@)[k] == summaries_after(old_map, summary_view(rollup))[k] by {
                let i = new_keys.index_of(k);
                lemma_index_of_unique(new_keys, i);
                if k == id {
                    lemma_index_of_unique(new_keys, p as int);
                } else if i < p {
                    assert(old_keys[i] == k);
                    lemma_index_of_unique(old_keys, i);
                    assert(combined@[i] == before[i]);
                } else {
                    assert(old_keys[i - 1] == k);
                    lemma_index_of_unique(old_keys, i - 1);
                    assert(combined@[i] == before[i - 1]);
                }
            }
            assert(summary_map(combined@) =~= summaries_after(old_map, summary_view(rollup)));
        }
    }
}

/// The summary that one catalog key rollup contributes.
pub open spec fn record_summary(r: UsageCatalogKeyRollupRecord) -> SummaryView {
    SummaryView {
        key: r.key_id@,
        input_uncached_tokens: r.input_uncached_tokens,
        input_cached_tokens: r.input_cached_tokens,
        output_tokens: r.output_tokens,
        billable_tokens: r.billable_tokens,
        credit_parts: seq![r.credit_total@],
        credit_missing_events: r.credit_missing_events,
        last_used_at_ms: r.last_used_at_ms,
    }
}

/// The key rollups of the first `n` catalogued segments, segment by
/// segment, each segment's rollups in order.
pub open spec fn catalog_rollups_upto(segs: Seq<CatalogSegmentEntry>, n: int) -> Seq<SummaryView>
    decreases n,
{
    if n <= 0 {
        Seq::empty()
    } else {
        catalog_rollups_upto(segs, n - 1) + segs[n - 1].rollups@.map_values(|r: UsageCatalogKeyRollupRecord| record_summary(r))
    }
}

fn summary_of_record(r: &UsageCatalogKeyRollupRecord) -> (s: KeyUsageRollupSummary)
    ensures
        summary_view(s) == record_summary(*r),
{
    let s = KeyUsageRollupSummary {
        key_id: r.key_id.clone(),
        input_uncached_tokens: r.input_uncached_tokens,
        input_cached_tokens: r.input_cached_tokens,
        output_tokens: r.output_tokens,
        billable_tokens: r.billable_tokens,
        credit_parts: vec![r.credit_total.clone()],
        credit_missing_events: r.credit_missing_events,
        last_used_at_ms: r.last_used_at_ms,
    };
    assert(text_views(s.credit_parts@) =~= seq![r.credit_total@]);
    s
}

impl TestTieredUsageCatalog {
    /// The usage of each key over all catalogued segments: every segment's
    /// key rollups combined in segment-id order, one summary per key in
    /// ascending key order.
    pub fn archived_key_usage_rollups(&self) -> (r: Vec<KeyUsageRollupSummary>)
        ensures
            strictly_ascending(summary_keys(r@)),
            summary_map(r@) == summaries_of(catalog_rollups_upto(self.state.segments@, self.state.segments@.len() as int)),
    {
        let ghost segs = self.state.segments@;
        let mut out: Vec<KeyUsageRollupSummary> = Vec::new();
        proof {
            assert(summary_map(out@) =~= Map::<Seq<char>, SummaryView>::empty());
            assert(summary_keys(out@) =~= Seq::<Seq<char>>::empty());
        }
        let mut i: usize = 0;
        while i < self.state.segments.len()
            invariant
                i <= segs.len(),
                segs == self.state.segments@,
                strictly_ascending(summary_keys(out@)),
                summary_map(out@) == summaries_of(catalog_rollups_upto(segs, i as int)),
            decreases self.state.segments.len() - i,
        {
            let rollups = &self.state.segments[i].rollups;
            let ghost before = catalog_rollups_upto(segs, i as int);
            let ghost views = rollups@.map_values(|r: UsageCatalogKeyRollupRecord| record_summary(r));
            let mut j: usize = 0;
            proof {
                assert(before + views.take(0) =~= before);
            }
            while j < rollups.len()
                invariant
                    j <= rollups@.len(),
                    views == rollups@.map_values(|r: UsageCatalogKeyRollupRecord| record_summary(r)),
                    strictly_ascending(summary_keys(out@)),
                    summary_map(out@) == summaries_of(before + views.take(j as int)),
                decreases rollups.len() - j,
            {
                let s = summary_of_record(&rollups[j]);
                proof {
                    let y = before + views.take(j + 1);
                    assert(y.drop_last() =~= before + views.take(j as int));
                    assert(y.last() == views[j as int]);
                    assert(views[j as int] == summary_view(s));
                    assert(summaries_of(y) == summaries_after(summaries_of(before + views.take(j as int)), summary_view(s)));
                }
                merge_key_rollup(&mut out, s);
                j = j + 1;
            }
            proof {
                assert(views.take(j as int) =~= views);
                assert(catalog_rollups_upto(segs, i + 1) == before + views);
            }
            i = i + 1;
        }
        out
    }
}

/// Combining a rollup into a key's summary adds each counter, held to the
/// `i64` range; the rollup's credit parts follow the summary's; the last use
/// is the later of the two (absent only when both are).
pub proof fn lemma_merged_summary_adds_counters(acc: SummaryView, added: SummaryView)
    ensures
        ({
            let m = merged_summary(acc, added);
            &&& m.key == acc.key
            &&& (i64::MIN <= acc.input_uncached_tokens + added.input_uncached_tokens <= i64::MAX ==> m.input_uncached_tokens == acc.input_uncached_tokens + added.input_uncached_tokens)
            &&& (acc.input_uncached_tokens + added.input_uncached_tokens > i64::MAX ==> m.input_uncached_tokens == i64::MAX)
            &&& (acc.input_uncached_tokens + added.input_uncached_tokens < i64::MIN ==> m.input_uncached_tokens == i64::MIN)
            &&& (i64::MIN <= acc.input_cached_tokens + added.input_cached_tokens <= i64::MAX ==> m.input_cached_tokens == acc.input_cached_tokens + added.input_cached_tokens)
            &&& (acc.input_cached_tokens + added.input_cached_tokens > i64::MAX ==> m.input_cached_tokens == i64::MAX)
            &&& (acc.input_cached_tokens + added.input_cached_tokens < i64::MIN ==> m.input_cached_tokens == i64::MIN)
            &&& (i64::MIN <= acc.output_tokens + added.output_tokens <= i64::MAX ==> m.output_tokens == acc.output_tokens + added.output_tokens)
            &&& (acc.output_tokens + added.output_tokens > i64::MAX ==> m.output_tokens == i64::MAX)
            &&& (acc.output_tokens + added.output_tokens < i64::MIN ==> m.output_tokens == i64::MIN)
            &&& (i64::MIN <= acc.billable_tokens + added.billable_tokens <= i64::MAX ==> m.billable_tokens == acc.billable_tokens + added.billable_tokens)
            &&& (acc.billable_tokens + added.billable_tokens > i64::MAX ==> m.billable_tokens == i64::MAX)
            &&& (acc.billable_tokens + added.billable_tokens < i64::MIN ==> m.billable_tokens == i64::MIN)
            &&& (i64::MIN <= acc.credit_missing_events + added.credit_missing_events <= i64::MAX ==> m.credit_missing_events == acc.credit_missing_events + added.credit_missing_events)
            &&& (acc.credit_missing_events + added.credit_missing_events > i64::MAX ==> m.credit_missing_events == i64::MAX)
            &&& (acc.credit_missing_events + added.credit_missing_events < i64::MIN ==> m.credit_missing_events == i64::MIN)
            &&& m.credit_parts.len() == acc.credit_parts.len() + added.credit_parts.len()
            &&& (forall|i: int| 0 <= i < acc.credit_parts.len() ==> #[trigger] m.credit_parts[i] == acc.credit_parts[i])
            &&& (forall|i: int| 0 <= i < added.credit_parts.len()
                ==> m.credit_parts[acc.credit_parts.len() + i] == #[trigger] added.credit_parts[i])
            &&& (acc.last_used_at_ms is None && added.last_used_at_ms is None ==> m.last_used_at_ms is None)
            &&& (acc.last_used_at_ms matches Some(x) ==> m.last_used_at_ms matches Some(y) && y >= x)
            &&& (added.last_used_at_ms matches Some(x) ==> m.last_used_at_ms matches Some(y) && y >= x)
            &&& (m.last_used_at_ms matches Some(y) ==> acc.last_used_at_ms == Some(y) || added.last_used_at_ms == Some(y))
        }),
{
}

/// Combining one more rollup into the summaries by key: the rollup's key
/// gets a summary whose counters are the key's earlier counters (zero for a
/// new key) plus the rollup's, held to the `i64` range, with the rollup's
/// credit parts after the earlier ones and the later last use; every other
/// key keeps its summary, and no key is dropped.
pub proof fn lemma_summaries_after_adds_rollup(m: Map<Seq<char>, SummaryView>, added: SummaryView)
    ensures
        ({
            let r = summaries_after(m, added);
            let known = m.dom().contains(added.key);
            &&& r.dom() == m.dom().insert(added.key)
            &&& (forall|k: Seq<char>| k != added.key && #[trigger] m.dom().contains(k) ==> r[k] == m[k])
            &&& r[added.key].key == (if known { m[added.key].key } else { added.key })
            &&& ({
                let t = (if known { m[added.key].input_uncached_tokens as int } else { 0int }) + added.input_uncached_tokens;
                &&& (i64::MIN <= t <= i64::MAX ==> r[added.key].input_uncached_tokens == t)
                &&& (t > i64::MAX ==> r[added.key].input_uncached_tokens == i64::MAX)
                &&& (t < i64::MIN ==> r[added.key].input_uncached_tokens == i64::MIN)
            })
            &&& ({
                let t = (if known { m[added.key].input_cached_tokens as int } else { 0int }) + added.input_cached_tokens;
                &&& (i64::MIN <= t <= i64::MAX ==> r[added.key].input_cached_tokens == t)
                &&& (t > i64::MAX ==> r[added.key].input_cached_tokens == i64::MAX)
                &&& (t < i64::MIN ==> r[added.key].input_cached_tokens == i64::MIN)
            })
            &&& ({
                let t = (if known { m[added.key].output_tokens as int } else { 0int }) + added.output_tokens;
                &&& (i64::MIN <= t <= i64::MAX ==> r[added.key].output_tokens == t)
                &&& (t > i64::MAX ==> r[added.key].output_tokens == i64::MAX)
                &&& (t < i64::MIN ==> r[added.key].output_tokens == i64::MIN)
            })
            &&& ({
                let t = (if known { m[added.key].billable_tokens as int } else { 0int }) + added.billable_tokens;
                &&& (i64::MIN <= t <= i64::MAX ==> r[added.key].billable_tokens == t)
                &&& (t > i64::MAX ==> r[added.key].billable_tokens == i64::MAX)
                &&& (t < i64::MIN ==> r[added.key].billable_tokens == i64::MIN)
            })
            &&& ({
                let t = (if known { m[added.key].credit_missing_events as int } else { 0int }) + added.credit_missing_events;
                &&& (i64::MIN <= t <= i64::MAX ==> r[added.key].credit_missing_events == t)
                &&& (t > i64::MAX ==> r[added.key].credit_missing_events == i64::MAX)
                &&& (t < i64::MIN ==> r[added.key].credit_missing_events == i64::MIN)
            })
            &&& (known ==> r[added.key].credit_parts == m[added.key].credit_parts + added.credit_parts)
            &&& (!known ==> r[added.key].credit_parts == added.credit_parts)
            &&& (!known ==> r[added.key].last_used_at_ms == added.last_used_at_ms)
            &&& (known ==> (added.last_used_at_ms matches Some(x) ==> r[added.key].last_used_at_ms matches Some(y) && y >= x))
            &&& (known ==> (m[added.key].last_used_at_ms matches Some(x) ==> r[added.key].last_used_at_ms matches Some(y)
                && y >= x))
        }),
{
    let r = summaries_after(m, added);
    assert(r.dom() =~= m.dom().insert(added.key));
    if !m.dom().contains(added.key) {
        assert(Seq::<Seq<char>>::empty() + added.credit_parts =~= added.credit_parts);
    }
}

} // verus!
