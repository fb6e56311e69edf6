//! Rankings of a usage metrics snapshot that rest on counts alone: the most
//! frequent non-OK status codes and the groups with the most failovers, each
//! cut to the snapshot's top limit (at least one).
use vstd::prelude::*;
use crate::catalog_query::permutation_of;
use crate::metrics::{UsageMetricsAccumulator, UsageMetricsGroupAccumulator, UsageMetricsStatusCodeCount, unique_codes};
use crate::catalog::{UsageEventQuery, UsageEventSource};
use crate::scan::{seq_less, lemma_seq_less_transitive, lemma_seq_less_total};

verus! {

/// The number of entries a snapshot ranking keeps: the query's limit, at
/// least one.
pub open spec fn effective_top_limit(top_limit: usize) -> usize {
    if top_limit < 1 { 1 } else { top_limit }
}

/// The number of entries a snapshot ranking keeps.
pub fn snapshot_top_limit(top_limit: usize) -> (r: usize)
    ensures
        r == effective_top_limit(top_limit),
{
    if top_limit < 1 { 1 } else { top_limit }
}

/// Status code `a` ranks before `b`: more requests first, then the lower
/// code.
pub open spec fn status_before(a: UsageMetricsStatusCodeCount, b: UsageMetricsStatusCodeCount) -> bool {
    a.request_count > b.request_count || (a.request_count == b.request_count && a.status_code < b.status_code)
}

/// `out` is the ranking of `items` by `before`, cut to `limit` entries.
pub open spec fn ranked_status_codes(items: Seq<UsageMetricsStatusCodeCount>, limit: int, out: Seq<UsageMetricsStatusCodeCount>) -> bool {
    exists|perm: Seq<int>| {
        &&& #[trigger] permutation_of(perm, items.len() as int)
        &&& forall|i: int, j: int| 0 <= i < j < perm.len() ==> status_before(items[#[trigger] perm[i]], items[#[trigger] perm[j]])
        &&& out.len() == (if limit < items.len() { limit } else { items.len() as int })
        &&& forall|i: int| 0 <= i < out.len() ==> #[trigger] out[i] == items[perm[i]]
    }
}

/// The non-OK status codes with the most requests, most first (ties by the
/// lower code), at most `effective_top_limit(top_limit)` of them.
pub fn top_non_ok_status_codes(codes: &Vec<UsageMetricsStatusCodeCount>, top_limit: usize) -> (r: Vec<UsageMetricsStatusCodeCount>)
    requires
        unique_codes(codes@),
    ensures
        ranked_status_codes(codes@, effective_top_limit(top_limit) as int, r@),
{
    let limit = snapshot_top_limit(top_limit);
    let ghost items = codes@;
    let mut perm: Vec<usize> = Vec::new();
    let mut x: usize = 0;
    while x < codes.len()
        invariant
            x <= codes.len(),
            items == codes@,
            unique_codes(items),
            perm@.len() == x,
            forall|i: int| 0 <= i < perm@.len() ==> #[trigger] perm@[i] < x,
            forall|i: int, j: int| 0 <= i < perm@.len() && 0 <= j < perm@.len() && i != j ==> perm@[i] != perm@[j],
            forall|i: int, j: int| 0 <= i < j < perm@.len() ==> status_before(items[#[trigger] perm@[i] as int], items[#[trigger] perm@[j] as int]),
        decreases codes.len() - x,
    {
        let mut p: usize = 0;
        while p < perm.len()
            && !(codes[x].request_count > codes[perm[p]].request_count
                || (codes[x].request_count == codes[perm[p]].request_count && codes[x].status_code < codes[perm[p]].status_code))
            invariant
                p <= perm@.len(),
                x < codes.len(),
                items == codes@,
                forall|i: int| 0 <= i < perm@.len() ==> #[trigger] perm@[i] < x,
                forall|q: int| 0 <= q < p ==> !status_before(items[x as int], items[#[trigger] perm@[q] as int]),
            decreases perm@.len() - p,
        {
            p = p + 1;
        }
        let ghost old_perm = perm@;
        perm.insert(p, x);
        proof {
            let np = perm@;
            assert(np =~= old_perm.insert(p as int, x));
            assert forall|i: int, j: int| 0 <= i < j < np.len() implies status_before(items[#[trigger] np[i] as int], items[#[trigger] np[j] as int]) by {
                if j < p {
                } else if j == p {
                    assert(np[i] == old_perm[i]);
                    let a = items[old_perm[i] as int];
                    let b = items[x as int];
                    assert(!status_before(b, a));
                    assert(a.status_code != b.status_code) by {
                        assert(old_perm[i] < x);
                    }
                } else if i < p {
                    assert(np[j] == old_perm[j - 1]);
                    assert(np[i] == old_perm[i]);
                } else if i == p {
                    assert(np[j] == old_perm[j - 1]);
                    if j - 1 > p {
                        assert(status_before(items[old_perm[p as int] as int], items[old_perm[j - 1] as int]));
                    }
                } else {
                    assert(np[j] == old_perm[j - 1]);
                    assert(np[i] == old_perm[i - 1]);
                }
            }
            assert forall|i: int, j: int| 0 <= i < np.len() && 0 <= j < np.len() && i != j implies np[i] != np[j] by {
                if i != p && j != p {
                    let i2 = if i < p { i } else { i - 1 };
                    let j2 = if j < p { j } else { j - 1 };
                    assert(np[i] == old_perm[i2]);
                    assert(np[j] == old_perm[j2]);
                } else if i == p {
                    let j2 = if j < p { j } else { j - 1 };
                    assert(np[j] == old_perm[j2]);
                } else {
                    let i2 = if i < p { i } else { i - 1 };
                    assert(np[i] == old_perm[i2]);
                }
            }
            assert forall|i: int| 0 <= i < np.len() implies #[trigger] np[i] < x + 1 by {
                if i < p {
                    assert(np[i] == old_perm[i]);
                } else if i > p {
                    assert(np[i] == old_perm[i - 1]);
                }
            }
        }
        x = x + 1;
    }
    let keep = if limit < perm.len() { limit } else { perm.len() };
    let mut out: Vec<UsageMetricsStatusCodeCount> = Vec::new();
    let mut k: usize = 0;
    while k < keep
        invariant
            k <= keep,
            keep <= perm@.len(),
            perm@.len() == items.len(),
            items == codes@,
            forall|i: int| 0 <= i < perm@.len() ==> #[trigger] perm@[i] < items.len(),
            out@.len() == k,
            forall|i: int| 0 <= i < k ==> #[trigger] out@[i] == items[perm@[i] as int],
        decreases keep - k,
    {
        out.push(codes[perm[k]]);
        k = k + 1;
    }
    proof {
        let pv = Seq::new(perm@.len(), |i: int| perm@[i] as int);
        assert(permutation_of(pv, items.len() as int)) by {
            assert forall|i: int, j: int| 0 <= i < pv.len() && 0 <= j < pv.len() && i != j implies pv[i] != pv[j] by {
                assert(perm@[i] != perm@[j]);
            }
        }
        assert forall|i: int, j: int| 0 <= i < j < pv.len() implies status_before(items[#[trigger] pv[i]], items[#[trigger] pv[j]]) by {
            assert(pv[i] == perm@[i] as int);
            assert(pv[j] == perm@[j] as int);
        }
        assert forall|i: int| 0 <= i < out@.len() implies #[trigger] out@[i] == items[pv[i]] by {}
    }
    out
}

/// Group `a` ranks before `b` among the groups with the most failovers:
/// more failover requests, then more quota failovers, then more requests,
/// then the smaller label, then the smaller key.
pub open spec fn failover_before(a: UsageMetricsGroupAccumulator, b: UsageMetricsGroupAccumulator) -> bool {
    let (x, y) = (a.counters, b.counters);
    x.failover_request_count > y.failover_request_count
    || (x.failover_request_count == y.failover_request_count && (x.total_quota_failovers > y.total_quota_failovers
    || (x.total_quota_failovers == y.total_quota_failovers && (x.request_count > y.request_count
    || (x.request_count == y.request_count && (seq_less(a.label@, b.label@)
    || (a.label@ == b.label@ && seq_less(a.key@, b.key@))))))))
}

proof fn lemma_failover_before_transitive(a: UsageMetricsGroupAccumulator, b: UsageMetricsGroupAccumulator, c: UsageMetricsGroupAccumulator)
    requires
        failover_before(a, b),
        failover_before(b, c),
    ensures
        failover_before(a, c),
{
    if a.counters.failover_request_count == b.counters.failover_request_count
        && b.counters.failover_request_count == c.counters.failover_request_count
        && a.counters.total_quota_failovers == b.counters.total_quota_failovers
        && b.counters.total_quota_failovers == c.counters.total_quota_failovers
        && a.counters.request_count == b.counters.request_count
        && b.counters.request_count == c.counters.request_count
    {
        if seq_less(a.label@, b.label@) && seq_less(b.label@, c.label@) {
            lemma_seq_less_transitive(a.label@, b.label@, c.label@);
        } else if seq_less(a.label@, b.label@) {
        } else if seq_less(b.label@, c.label@) {
        } else {
            lemma_seq_less_transitive(a.key@, b.key@, c.key@);
        }
    }
}

proof fn lemma_failover_before_total(a: UsageMetricsGroupAccumulator, b: UsageMetricsGroupAccumulator)
    requires
        a.key@ != b.key@,
    ensures
        failover_before(a, b) || failover_before(b, a),
{
    lemma_seq_less_total(a.label@, b.label@);
    lemma_seq_less_total(a.key@, b.key@);
}

fn group_failover_before(a: &UsageMetricsGroupAccumulator, b: &UsageMetricsGroupAccumulator) -> (r: bool)
    ensures
        r == failover_before(*a, *b),
{
    let (x, y) = (a.counters, b.counters);
    if x.failover_request_count != y.failover_request_count {
        return x.failover_request_count > y.failover_request_count;
    }
    if x.total_quota_failovers != y.total_quota_failovers {
        return x.total_quota_failovers > y.total_quota_failovers;
    }
    if x.request_count != y.request_count {
        return x.request_count > y.request_count;
    }
    if crate::scan::str_less(a.label.as_str(), b.label.as_str()) {
        return true;
    }
    if a.label != b.label {
        return false;
    }
    crate::scan::str_less(a.key.as_str(), b.key.as_str())
}

/// Whether group keys are distinct.
pub open spec fn distinct_group_keys(groups: Seq<UsageMetricsGroupAccumulator>) -> bool {
    forall|i: int, j: int| 0 <= i < groups.len() && 0 <= j < groups.len() && i != j ==> groups[i].key@ != groups[j].key@
}

/// `positions` lists groups by `failover_before`, cut to `limit` entries.
pub open spec fn ranked_failover_groups(groups: Seq<UsageMetricsGroupAccumulator>, limit: int, positions: Seq<int>) -> bool {
    exists|perm: Seq<int>| {
        &&& #[trigger] permutation_of(perm, groups.len() as int)
        &&& forall|i: int, j: int| 0 <= i < j < perm.len() ==> failover_before(groups[#[trigger] perm[i]], groups[#[trigger] perm[j]])
        &&& positions.len() == (if limit < groups.len() { limit } else { groups.len() as int })
        &&& forall|i: int| 0 <= i < positions.len() ==> #[trigger] positions[i] == perm[i]
    }
}

/// The positions of the groups with the most failovers, first the one
/// ranked first, at most `limit` of them.
pub fn top_failover_groups(groups: &Vec<UsageMetricsGroupAccumulator>, limit: usize) -> (r: Vec<usize>)
    requires
        distinct_group_keys(groups@),
    ensures
        ranked_failover_groups(groups@, limit as int, Seq::new(r@.len(), |i: int| r@[i] as int)),
{
    let ghost items = groups@;
    let mut perm: Vec<usize> = Vec::new();
    let mut x: usize = 0;
    while x < groups.len()
        invariant
            x <= groups.len(),
            items == groups@,
            distinct_group_keys(items),
            perm@.len() == x,
            forall|i: int| 0 <= i < perm@.len() ==> #[trigger] perm@[i] < x,
            forall|i: int, j: int| 0 <= i < perm@.len() && 0 <= j < perm@.len() && i != j ==> perm@[i] != perm@[j],
            forall|i: int, j: int| 0 <= i < j < perm@.len() ==> failover_before(items[#[trigger] perm@[i] as int], items[#[trigger] perm@[j] as int]),
        decreases groups.len() - x,
    {
        let mut p: usize = 0;
        while p < perm.len() && !group_failover_before(&groups[x], &groups[perm[p]])
            invariant
                p <= perm@.len(),
                x < groups.len(),
                items == groups@,
                forall|i: int| 0 <= i < perm@.len() ==> #[trigger] perm@[i] < x,
                forall|q: int| 0 <= q < p ==> !failover_before(items[x as int], items[#[trigger] perm@[q] as int]),
            decreases perm@.len() - p,
        {
            p = p + 1;
        }
        let ghost old_perm = perm@;
        perm.insert(p, x);
        proof {
            let np = perm@;
            assert(np =~= old_perm.insert(p as int, x));
            assert forall|i: int, j: int| 0 <= i < j < np.len() implies failover_before(items[#[trigger] np[i] as int], items[#[trigger] np[j] as int]) by {
                if j < p {
                } else if j == p {
                    assert(np[i] == old_perm[i]);
                    assert(old_perm[i] < x);
                    lemma_failover_before_total(items[old_perm[i] as int], items[x as int]);
                } else if i < p {
                    assert(np[j] == old_perm[j - 1]);
                    assert(np[i] == old_perm[i]);
                } else if i == p {
                    assert(np[j] == old_perm[j - 1]);
                    if j - 1 > p {
                        assert(failover_before(items[old_perm[p as int] as int], items[old_perm[j - 1] as int]));
                        lemma_failover_before_transitive(items[x as int], items[old_perm[p as int] as int], items[old_perm[j - 1] as int]);
                    }
                } else {
                    assert(np[j] == old_perm[j - 1]);
                    assert(np[i] == old_perm[i - 1]);
                }
            }
            assert forall|i: int, j: int| 0 <= i < np.len() && 0 <= j < np.len() && i != j implies np[i] != np[j] by {
                if i != p && j != p {
                    let i2 = if i < p { i } else { i - 1 };
                    let j2 = if j < p { j } else { j - 1 };
                    assert(np[i] == old_perm[i2]);
                    assert(np[j] == old_perm[j2]);
                } else if i == p {
                    let j2 = if j < p { j } else { j - 1 };
                    assert(np[j] == old_perm[j2]);
                } else {
                    let i2 = if i < p { i } else { i - 1 };
                    assert(np[i] == old_perm[i2]);
                }
            }
            assert forall|i: int| 0 <= i < np.len() implies #[trigger] np[i] < x + 1 by {
                if i < p {
                    assert(np[i] == old_perm[i]);
                } else if i > p {
                    assert(np[i] == old_perm[i - 1]);
                }
            }
        }
        x = x + 1;
    }
    let ghost full = perm@;
    let keep = if limit < perm.len() { limit } else { perm.len() };
    perm.truncate(keep);
    proof {
        let pv = Seq::new(full.len(), |i: int| full[i] as int);
        assert(permutation_of(pv, items.len() as int)) by {
            assert forall|i: int, j: int| 0 <= i < pv.len() && 0 <= j < pv.len() && i != j implies pv[i] != pv[j] by {
                assert(full[i] != full[j]);
            }
        }
        assert forall|i: int, j: int| 0 <= i < j < pv.len() implies failover_before(items[#[trigger] pv[i]], items[#[trigger] pv[j]]) by {
            assert(pv[i] == full[i] as int);
            assert(pv[j] == full[j] as int);
        }
        let rv = Seq::new(perm@.len(), |i: int| perm@[i] as int);
        assert forall|i: int| 0 <= i < rv.len() implies #[trigger] rv[i] == pv[i] by {
            assert(perm@[i] == full[i]);
        }
    }
    perm
}

/// A usage metrics query: the provider to restrict to, the tiers read, the
/// window and the ranking size.
#[derive(Debug, Clone)]
pub struct UsageMetricsQuery {
    pub provider_type: Option<String>,
    pub source: UsageEventSource,
    pub start_ms: i64,
    pub end_ms: i64,
    pub top_limit: usize,
}

/// The archive segment filter of a metrics query: its provider and window,
/// archived segments only.
pub fn usage_metrics_query_as_segment_filter(query: &UsageMetricsQuery) -> (r: UsageEventQuery)
    ensures
        r.key_id is None && r.model is None && r.account_name is None && r.endpoint is None,
        r.status_code is None && r.status_kind is None,
        r.provider_type.deep_view() == query.provider_type.deep_view(),
        r.source == UsageEventSource::Archive,
        r.start_ms == Some(query.start_ms),
        r.end_ms == Some(query.end_ms),
        r.limit == 1,
        r.offset == 0,
{
    UsageEventQuery {
        key_id: None,
        provider_type: crate::usage_row::dup_opt_string(&query.provider_type),
        model: None,
        account_name: None,
        endpoint: None,
        status_code: None,
        status_kind: None,
        source: UsageEventSource::Archive,
        start_ms: Some(query.start_ms),
        end_ms: Some(query.end_ms),
        limit: 1,
        offset: 0,
    }
}

/// The counts of a metrics snapshot's summary.
#[derive(Debug, Clone, Copy, PartialEq, Eq, Structural)]
pub struct UsageMetricsSummaryCounts {
    pub total_requests: u64,
    pub ok_requests: u64,
    pub non_ok_requests: u64,
    pub distinct_accounts: usize,
    pub distinct_proxies: usize,
    pub first_token_samples: u64,
    pub max_first_token_ms: Option<i64>,
    pub failover_request_count: u64,
    pub total_quota_failovers: u64,
    pub downstream_disconnect_count: u64,
    pub usage_missing_count: u64,
    pub credit_usage_missing_count: u64,
}

impl UsageMetricsAccumulator {
    /// The summary counts of the snapshot: the accumulated counters and the
    /// number of distinct accounts and proxies (one group each).
    pub fn summary_counts(&self) -> (r: UsageMetricsSummaryCounts)
        ensures
            r.total_requests == self.summary.total_requests,
            r.ok_requests == self.summary.ok_requests,
            r.non_ok_requests == self.summary.non_ok_requests,
            r.distinct_accounts == self.accounts@.len(),
            r.distinct_proxies == self.proxies@.len(),
            r.first_token_samples == self.summary.first_token_samples,
            r.max_first_token_ms == self.summary.max_first_token_ms,
            r.failover_request_count == self.summary.failover_request_count,
            r.total_quota_failovers == self.summary.total_quota_failovers,
            r.downstream_disconnect_count == self.summary.downstream_disconnect_count,
            r.usage_missing_count == self.summary.usage_missing_count,
            r.credit_usage_missing_count == self.summary.credit_usage_missing_count,
    {
        UsageMetricsSummaryCounts {
            total_requests: self.summary.total_requests,
            ok_requests: self.summary.ok_requests,
            non_ok_requests: self.summary.non_ok_requests,
            distinct_accounts: self.accounts.len(),
            distinct_proxies: self.proxies.len(),
            first_token_samples: self.summary.first_token_samples,
            max_first_token_ms: self.summary.max_first_token_ms,
            failover_request_count: self.summary.failover_request_count,
            total_quota_failovers: self.summary.total_quota_failovers,
            downstream_disconnect_count: self.summary.downstream_disconnect_count,
            usage_missing_count: self.summary.usage_missing_count,
            credit_usage_missing_count: self.summary.credit_usage_missing_count,
        }
    }
}

/// A status code ranking lists the codes with the most requests: it keeps
/// as many entries as the limit allows, its counts never increase along
/// it, every entry is one of the codes, and every code it leaves out has
/// no more requests than any code it keeps.
pub proof fn lemma_ranked_status_codes_keep_the_most_frequent(
    items: Seq<UsageMetricsStatusCodeCount>,
    limit: int,
    out: Seq<UsageMetricsStatusCodeCount>,
)
    requires
        ranked_status_codes(items, limit, out),
    ensures
        out.len() == (if limit < items.len() { limit } else { items.len() as int }),
        forall|i: int, j: int| 0 <= i < j < out.len() ==> (#[trigger] out[i]).request_count >= (#[trigger] out[j]).request_count,
        forall|i: int| 0 <= i < out.len() ==> items.contains(#[trigger] out[i]),
        forall|i: int, k: int|
            0 <= i < out.len() && 0 <= k < items.len() && !out.contains(#[trigger] items[k]) ==> (#[trigger] out[i]).request_count
                >= items[k].request_count,
{
    let perm = choose|perm: Seq<int>| {
        &&& #[trigger] permutation_of(perm, items.len() as int)
        &&& forall|i: int, j: int| 0 <= i < j < perm.len() ==> status_before(items[#[trigger] perm[i]], items[#[trigger] perm[j]])
        &&& out.len() == (if limit < items.len() { limit } else { items.len() as int })
        &&& forall|i: int| 0 <= i < out.len() ==> #[trigger] out[i] == items[perm[i]]
    };
    crate::catalog_query::lemma_permutation_covers(perm, items.len() as int);
    assert forall|i: int, j: int| 0 <= i < j < out.len() implies (#[trigger] out[i]).request_count
        >= (#[trigger] out[j]).request_count by {
        assert(status_before(items[perm[i]], items[perm[j]]));
    }
    assert forall|i: int| 0 <= i < out.len() implies items.contains(#[trigger] out[i]) by {
        assert(items[perm[i]] == out[i]);
    }
    assert forall|i: int, k: int|
        0 <= i < out.len() && 0 <= k < items.len() && !out.contains(#[trigger] items[k]) implies (#[trigger] out[i]).request_count
            >= items[k].request_count by {
        assert(perm.contains(k));
        let m = perm.index_of(k);
        assert(perm[m] == k);
        if m < out.len() {
            assert(out[m] == items[k]);
            assert(out.contains(items[k]));
        } else {
            assert(status_before(items[perm[i]], items[perm[m]]));
        }
    }
}

/// A failover ranking lists the groups with the most failover requests: it
/// keeps as many as the limit allows, each once, their failover request
/// counts never increase along it, and every group it leaves out has no
/// more failover requests than any group it keeps.
pub proof fn lemma_ranked_failover_groups_keep_the_most_failovers(
    groups: Seq<UsageMetricsGroupAccumulator>,
    limit: int,
    positions: Seq<int>,
)
    requires
        ranked_failover_groups(groups, limit, positions),
    ensures
        positions.len() == (if limit < groups.len() { limit } else { groups.len() as int }),
        forall|i: int| 0 <= i < positions.len() ==> 0 <= #[trigger] positions[i] < groups.len(),
        forall|i: int, j: int| 0 <= i < j < positions.len() ==> #[trigger] positions[i] != #[trigger] positions[j],
        forall|i: int, j: int|
            0 <= i < j < positions.len() ==> groups[#[trigger] positions[i]].counters.failover_request_count
                >= groups[#[trigger] positions[j]].counters.failover_request_count,
        forall|i: int, k: int|
            0 <= i < positions.len() && 0 <= k < groups.len() && !positions.contains(k) ==> groups[#[trigger] positions[i]].counters.failover_request_count
                >= (#[trigger] groups[k]).counters.failover_request_count,
{
    let perm = choose|perm: Seq<int>| {
        &&& #[trigger] permutation_of(perm, groups.len() as int)
        &&& forall|i: int, j: int| 0 <= i < j < perm.len() ==> failover_before(groups[#[trigger] perm[i]], groups[#[trigger] perm[j]])
        &&& positions.len() == (if limit < groups.len() { limit } else { groups.len() as int })
        &&& forall|i: int| 0 <= i < positions.len() ==> #[trigger] positions[i] == perm[i]
    };
    crate::catalog_query::lemma_permutation_covers(perm, groups.len() as int);
    assert forall|i: int, j: int|
        0 <= i < j < positions.len() implies groups[#[trigger] positions[i]].counters.failover_request_count
            >= groups[#[trigger] positions[j]].counters.failover_request_count by {
        assert(failover_before(groups[perm[i]], groups[perm[j]]));
    }
    assert forall|i: int, j: int| 0 <= i < j < positions.len() implies #[trigger] positions[i] != #[trigger] positions[j] by {
        assert(perm[i] != perm[j]);
    }
    assert forall|i: int, k: int|
        0 <= i < positions.len() && 0 <= k < groups.len() && !positions.contains(k) implies groups[#[trigger] positions[i]].counters.failover_request_count
            >= (#[trigger] groups[k]).counters.failover_request_count by {
        assert(perm.contains(k));
        let m = perm.index_of(k);
        assert(perm[m] == k);
        if m < positions.len() {
            assert(positions[m] == k);
            assert(positions.contains(k));
        } else {
            assert(failover_before(groups[perm[i]], groups[perm[m]]));
        }
    }
}

} // verus!
