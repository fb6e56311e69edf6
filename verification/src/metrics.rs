//! Usage metrics aggregation: per-request observation into summary counters,
//! per-account and per-proxy groups and non-OK status counts, plus the key and
//! label rules that name the groups and the chart bucket layout.
use vstd::prelude::*;
use crate::text::{trim, trim_string};

verus! {

/// `a` clamped into the `u64` range (for non-negative sums).
pub open spec fn clamp_u64(a: int) -> u64 {
    if a > u64::MAX { u64::MAX } else { a as u64 }
}

/// `a` clamped into the `i64` range.
pub open spec fn clamp_i64(a: int) -> i64 {
    if a > i64::MAX {
        i64::MAX
    } else if a < i64::MIN {
        i64::MIN
    } else {
        a as i64
    }
}

/// Saturating `i64` addition (`i64::saturating_add`).
pub fn saturating_add_i64(a: i64, b: i64) -> (r: i64)
    ensures
        r == clamp_i64(a + b),
{
    match a.checked_add(b) {
        Some(v) => v,
        None => if b > 0 { i64::MAX } else { i64::MIN },
    }
}

/// The larger of the running maximum and `value`.
pub open spec fn running_max(current: Option<i64>, value: i64) -> Option<i64> {
    Some(
        match current {
            Some(c) => if c > value { c } else { value },
            None => value,
        },
    )
}

fn update_max(current: Option<i64>, value: i64) -> (r: Option<i64>)
    ensures
        r == running_max(current, value),
{
    let c = match current {
        Some(c) => c,
        None => value,
    };
    Some(if c > value { c } else { value })
}

/// A trimmed optional value, absent when blank.
pub open spec fn normalized(value: Option<String>) -> Option<Seq<char>> {
    match value {
        Some(v) => if trim(v@).len() > 0 { Some(trim(v@)) } else { None },
        None => None,
    }
}

/// Trims an optional value and drops it when blank.
pub fn normalize_metrics_optional_string(value: Option<String>) -> (r: Option<String>)
    ensures
        r.deep_view() == normalized(value),
{
    match value {
        Some(v) => {
            let t = trim_string(v.as_str());
            if t.as_str().unicode_len() > 0 {
                Some(t)
            } else {
                None
            }
        },
        None => None,
    }
}

/// Group key of an account: `account:<name>`, or `account:unknown`.
pub open spec fn account_key(account_name: Option<Seq<char>>) -> Seq<char> {
    match account_name {
        Some(v) => "account:"@ + v,
        None => "account:unknown"@,
    }
}

/// Display label of an account group.
pub open spec fn account_label(account_name: Option<Seq<char>>) -> Seq<char> {
    match account_name {
        Some(v) => v,
        None => "(unknown account)"@,
    }
}

/// Group key of a proxy: by config id, else URL, else source.
pub open spec fn proxy_key(
    proxy_config_id: Option<Seq<char>>,
    proxy_url: Option<Seq<char>>,
    proxy_source: Option<Seq<char>>,
) -> Seq<char> {
    if let Some(v) = proxy_config_id {
        "proxy:id:"@ + v
    } else if let Some(v) = proxy_url {
        "proxy:url:"@ + v
    } else if let Some(v) = proxy_source {
        "proxy:source:"@ + v
    } else {
        "proxy:unknown"@
    }
}

/// Display label of a proxy group: its config name, else URL, else source.
pub open spec fn proxy_label(
    proxy_config_name: Option<Seq<char>>,
    proxy_url: Option<Seq<char>>,
    proxy_source: Option<Seq<char>>,
) -> Seq<char> {
    if let Some(v) = proxy_config_name {
        v
    } else if let Some(v) = proxy_url {
        v
    } else if let Some(v) = proxy_source {
        v
    } else {
        "(unknown proxy)"@
    }
}

/// Group key of an account.
pub fn metrics_account_key(account_name: Option<&str>) -> (r: String)
    ensures
        r@ == account_key(
            match account_name {
                Some(v) => Some(v@),
                None => None,
            },
        ),
{
    match account_name {
        Some(v) => crate::text::concat2("account:", v),
        None => "account:unknown".to_owned(),
    }
}

/// Display label of an account group.
pub fn metrics_account_label(account_name: Option<&str>) -> (r: String)
    ensures
        r@ == account_label(
            match account_name {
                Some(v) => Some(v@),
                None => None,
            },
        ),
{
    match account_name {
        Some(v) => v.to_owned(),
        None => "(unknown account)".to_owned(),
    }
}

/// The view of an optional string slice.
pub open spec fn opt_str_view(value: Option<&str>) -> Option<Seq<char>> {
    match value {
        Some(v) => Some(v@),
        None => None,
    }
}

/// Group key of a proxy.
pub fn metrics_proxy_key(
    proxy_config_id: Option<&str>,
    proxy_url: Option<&str>,
    proxy_source: Option<&str>,
) -> (r: String)
    ensures
        r@ == proxy_key(
            opt_str_view(proxy_config_id),
            opt_str_view(proxy_url),
            opt_str_view(proxy_source),
        ),
{
    if let Some(value) = proxy_config_id {
        return crate::text::concat2("proxy:id:", value);
    }
    if let Some(value) = proxy_url {
        return crate::text::concat2("proxy:url:", value);
    }
    if let Some(value) = proxy_source {
        return crate::text::concat2("proxy:source:", value);
    }
    "proxy:unknown".to_owned()
}

/// Display label of a proxy group.
pub fn metrics_proxy_label(
    proxy_config_name: Option<&str>,
    proxy_url: Option<&str>,
    proxy_source: Option<&str>,
) -> (r: String)
    ensures
        r@ == proxy_label(
            opt_str_view(proxy_config_name),
            opt_str_view(proxy_url),
            opt_str_view(proxy_source),
        ),
{
    if let Some(value) = proxy_config_name {
        return value.to_owned();
    }
    if let Some(value) = proxy_url {
        return value.to_owned();
    }
    if let Some(value) = proxy_source {
        return value.to_owned();
    }
    "(unknown proxy)".to_owned()
}

/// The borrowed view of an optional string.
pub fn opt_as_str(value: &Option<String>) -> (r: Option<&str>)
    ensures
        opt_str_view(r) == value.deep_view(),
{
    match value {
        Some(v) => Some(v.as_str()),
        None => None,
    }
}

} // verus!

verus! {

/// The numbers one metrics group accumulates.
#[derive(Debug, Clone, Copy, PartialEq, Eq, Default, Structural)]
pub struct UsageMetricsGroupCounters {
    pub request_count: u64,
    pub ok_count: u64,
    pub non_ok_count: u64,
    pub first_token_sum_ms: i64,
    pub first_token_samples: u64,
    pub max_first_token_ms: Option<i64>,
    pub routing_wait_sum_ms: i64,
    pub routing_wait_samples: u64,
    pub max_routing_wait_ms: Option<i64>,
    pub failover_request_count: u64,
    pub total_quota_failovers: u64,
    pub downstream_disconnect_count: u64,
    pub usage_missing_count: u64,
    pub credit_usage_missing_count: u64,
}

/// One request as the metrics aggregation sees it.
#[derive(Debug, Clone)]
pub struct UsageMetricsObservedRow {
    pub account_name: Option<String>,
    pub status_code: i32,
    pub first_sse_write_ms: Option<i64>,
    pub latency_ms: Option<i64>,
    pub routing_wait_ms: Option<i64>,
    pub quota_failover_count: u64,
    pub downstream_disconnect: bool,
    pub usage_missing: bool,
    pub credit_usage_missing: bool,
    pub proxy_source: Option<String>,
    pub proxy_config_id: Option<String>,
    pub proxy_config_name: Option<String>,
    pub proxy_url: Option<String>,
}

/// A count increased by one, saturating.
pub open spec fn bump(count: u64, cond: bool) -> u64 {
    if cond { clamp_u64(count + 1) } else { count }
}

/// The group counters after one more request.
pub open spec fn group_counters_after(
    c: UsageMetricsGroupCounters,
    row: UsageMetricsObservedRow,
    is_ok: bool,
) -> UsageMetricsGroupCounters {
    UsageMetricsGroupCounters {
        request_count: bump(c.request_count, true),
        ok_count: bump(c.ok_count, is_ok),
        non_ok_count: bump(c.non_ok_count, !is_ok),
        first_token_sum_ms: match row.first_sse_write_ms {
            Some(v) => clamp_i64(c.first_token_sum_ms + v),
            None => c.first_token_sum_ms,
        },
        first_token_samples: bump(c.first_token_samples, row.first_sse_write_ms is Some),
        max_first_token_ms: match row.first_sse_write_ms {
            Some(v) => running_max(c.max_first_token_ms, v),
            None => c.max_first_token_ms,
        },
        routing_wait_sum_ms: match row.routing_wait_ms {
            Some(v) => clamp_i64(c.routing_wait_sum_ms + v),
            None => c.routing_wait_sum_ms,
        },
        routing_wait_samples: bump(c.routing_wait_samples, row.routing_wait_ms is Some),
        max_routing_wait_ms: match row.routing_wait_ms {
            Some(v) => running_max(c.max_routing_wait_ms, v),
            None => c.max_routing_wait_ms,
        },
        failover_request_count: bump(c.failover_request_count, row.quota_failover_count > 0),
        total_quota_failovers: if row.quota_failover_count > 0 {
            clamp_u64(c.total_quota_failovers + row.quota_failover_count)
        } else {
            c.total_quota_failovers
        },
        downstream_disconnect_count: bump(c.downstream_disconnect_count, row.downstream_disconnect),
        usage_missing_count: bump(c.usage_missing_count, row.usage_missing),
        credit_usage_missing_count: bump(c.credit_usage_missing_count, row.credit_usage_missing),
    }
}

/// Adds one request to a group's counters.
pub fn update_usage_metrics_group_counters(
    c: &mut UsageMetricsGroupCounters,
    row: &UsageMetricsObservedRow,
    is_ok: bool,
)
    ensures
        *final(c) == group_counters_after(*old(c), *row, is_ok),
{
    c.request_count = c.request_count.saturating_add(1);
    if is_ok {
        c.ok_count = c.ok_count.saturating_add(1);
    } else {
        c.non_ok_count = c.non_ok_count.saturating_add(1);
    }
    if let Some(value) = row.first_sse_write_ms {
        c.first_token_sum_ms = saturating_add_i64(c.first_token_sum_ms, value);
        c.first_token_samples = c.first_token_samples.saturating_add(1);
        c.max_first_token_ms = update_max(c.max_first_token_ms, value);
    }
    if let Some(value) = row.routing_wait_ms {
        c.routing_wait_sum_ms = saturating_add_i64(c.routing_wait_sum_ms, value);
        c.routing_wait_samples = c.routing_wait_samples.saturating_add(1);
        c.max_routing_wait_ms = update_max(c.max_routing_wait_ms, value);
    }
    if row.quota_failover_count > 0 {
        c.failover_request_count = c.failover_request_count.saturating_add(1);
        c.total_quota_failovers = c.total_quota_failovers.saturating_add(row.quota_failover_count);
    }
    if row.downstream_disconnect {
        c.downstream_disconnect_count = c.downstream_disconnect_count.saturating_add(1);
    }
    if row.usage_missing {
        c.usage_missing_count = c.usage_missing_count.saturating_add(1);
    }
    if row.credit_usage_missing {
        c.credit_usage_missing_count = c.credit_usage_missing_count.saturating_add(1);
    }
}

/// One account or proxy group of the metrics aggregation.
#[derive(Debug, Clone)]
pub struct UsageMetricsGroupAccumulator {
    pub key: String,
    pub label: String,
    pub account_name: Option<String>,
    pub proxy_config_id: Option<String>,
    pub proxy_config_name: Option<String>,
    pub proxy_url: Option<String>,
    pub proxy_source: Option<String>,
    pub counters: UsageMetricsGroupCounters,
}

/// The mathematical content of a metrics group.
pub struct GroupView {
    pub key: Seq<char>,
    pub label: Seq<char>,
    pub account_name: Option<Seq<char>>,
    pub proxy_config_id: Option<Seq<char>>,
    pub proxy_config_name: Option<Seq<char>>,
    pub proxy_url: Option<Seq<char>>,
    pub proxy_source: Option<Seq<char>>,
    pub counters: UsageMetricsGroupCounters,
}

impl View for UsageMetricsGroupAccumulator {
    type V = GroupView;

    open spec fn view(&self) -> GroupView {
        GroupView {
            key: self.key@,
            label: self.label@,
            account_name: self.account_name.deep_view(),
            proxy_config_id: self.proxy_config_id.deep_view(),
            proxy_config_name: self.proxy_config_name.deep_view(),
            proxy_url: self.proxy_url.deep_view(),
            proxy_source: self.proxy_source.deep_view(),
            counters: self.counters,
        }
    }
}

/// Adds one request to a group.
pub fn update_usage_metrics_group(
    group: &mut UsageMetricsGroupAccumulator,
    row: &UsageMetricsObservedRow,
    is_ok: bool,
)
    ensures
        final(group)@ == (GroupView {
            counters: group_counters_after(old(group)@.counters, *row, is_ok),
            ..old(group)@
        }),
{
    update_usage_metrics_group_counters(&mut group.counters, row, is_ok);
}

/// The views of a list of groups.
pub open spec fn group_views(groups: Seq<UsageMetricsGroupAccumulator>) -> Seq<GroupView> {
    groups.map_values(|g: UsageMetricsGroupAccumulator| g@)
}

/// Whether no two groups share a key.
pub open spec fn unique_keys(groups: Seq<GroupView>) -> bool {
    forall|i: int, j: int|
        0 <= i < groups.len() && 0 <= j < groups.len() && i != j ==> #[trigger] groups[i].key
            != #[trigger] groups[j].key
}

/// The position of the group with key `key`.
pub open spec fn group_position(groups: Seq<GroupView>, key: Seq<char>) -> Option<int> {
    if exists|i: int| 0 <= i < groups.len() && #[trigger] groups[i].key == key {
        Some(choose|i: int| 0 <= i < groups.len() && #[trigger] groups[i].key == key)
    } else {
        None
    }
}

fn find_group(groups: &Vec<UsageMetricsGroupAccumulator>, key: &String) -> (r: Option<usize>)
    requires
        unique_keys(group_views(groups@)),
    ensures
        r matches Some(i) ==> group_position(group_views(groups@), key@) == Some(i as int),
        r is None ==> group_position(group_views(groups@), key@) is None,
{
    let ghost views = group_views(groups@);
    let mut i: usize = 0;
    while i < groups.len()
        invariant
            i <= groups.len(),
            views == group_views(groups@),
            unique_keys(views),
            forall|j: int| 0 <= j < i ==> groups@[j].key@ != key@,
        decreases groups.len() - i,
    {
        if groups[i].key == *key {
            proof {
                assert(views[i as int].key == key@);
                let c = choose|c: int| 0 <= c < views.len() && #[trigger] views[c].key == key@;
                if c != i {
                    assert(views[c].key != views[i as int].key);
                }
            }
            return Some(i);
        }
        i = i + 1;
    }
    proof {
        if exists|c: int| 0 <= c < views.len() && #[trigger] views[c].key == key@ {
            let c = choose|c: int| 0 <= c < views.len() && #[trigger] views[c].key == key@;
            assert(groups@[c].key@ == key@);
        }
    }
    None
}

/// The counters of a group before any request.
pub open spec fn zero_counters() -> UsageMetricsGroupCounters {
    UsageMetricsGroupCounters {
        request_count: 0,
        ok_count: 0,
        non_ok_count: 0,
        first_token_sum_ms: 0,
        first_token_samples: 0,
        max_first_token_ms: None,
        routing_wait_sum_ms: 0,
        routing_wait_samples: 0,
        max_routing_wait_ms: None,
        failover_request_count: 0,
        total_quota_failovers: 0,
        downstream_disconnect_count: 0,
        usage_missing_count: 0,
        credit_usage_missing_count: 0,
    }
}

fn new_counters() -> (r: UsageMetricsGroupCounters)
    ensures
        r == zero_counters(),
{
    UsageMetricsGroupCounters {
        request_count: 0,
        ok_count: 0,
        non_ok_count: 0,
        first_token_sum_ms: 0,
        first_token_samples: 0,
        max_first_token_ms: None,
        routing_wait_sum_ms: 0,
        routing_wait_samples: 0,
        max_routing_wait_ms: None,
        failover_request_count: 0,
        total_quota_failovers: 0,
        downstream_disconnect_count: 0,
        usage_missing_count: 0,
        credit_usage_missing_count: 0,
    }
}

/// The account groups after observing `row`: the group of its account gains
/// the request, or a new group for the account is appended.
pub open spec fn account_groups_after(
    groups: Seq<GroupView>,
    row: UsageMetricsObservedRow,
    is_ok: bool,
) -> Seq<GroupView> {
    let name = normalized(row.account_name);
    let key = account_key(name);
    match group_position(groups, key) {
        Some(i) => groups.update(
            i,
            GroupView { counters: group_counters_after(groups[i].counters, row, is_ok), ..groups[i] },
        ),
        None => groups.push(
            GroupView {
                key,
                label: account_label(name),
                account_name: name,
                proxy_config_id: None,
                proxy_config_name: None,
                proxy_url: None,
                proxy_source: None,
                counters: group_counters_after(zero_counters(), row, is_ok),
            },
        ),
    }
}

/// `current` unless it is absent, then `fallback`.
pub open spec fn or_else(current: Option<Seq<char>>, fallback: Option<Seq<char>>) -> Option<Seq<char>> {
    if current is Some { current } else { fallback }
}

/// The proxy groups after observing `row`: the group of its proxy gains the
/// request and learns proxy attributes it did not have yet, or a new group
/// for the proxy is appended.
pub open spec fn proxy_groups_after(
    groups: Seq<GroupView>,
    row: UsageMetricsObservedRow,
    is_ok: bool,
) -> Seq<GroupView> {
    let id = normalized(row.proxy_config_id);
    let name = normalized(row.proxy_config_name);
    let url = normalized(row.proxy_url);
    let source = normalized(row.proxy_source);
    let key = proxy_key(id, url, source);
    match group_position(groups, key) {
        Some(i) => groups.update(
            i,
            GroupView {
                proxy_config_id: or_else(groups[i].proxy_config_id, id),
                proxy_config_name: or_else(groups[i].proxy_config_name, name),
                proxy_url: or_else(groups[i].proxy_url, url),
                proxy_source: or_else(groups[i].proxy_source, source),
                counters: group_counters_after(groups[i].counters, row, is_ok),
                ..groups[i]
            },
        ),
        None => groups.push(
            GroupView {
                key,
                label: proxy_label(name, url, source),
                account_name: None,
                proxy_config_id: id,
                proxy_config_name: name,
                proxy_url: url,
                proxy_source: source,
                counters: group_counters_after(zero_counters(), row, is_ok),
            },
        ),
    }
}

fn dup_opt(value: &Option<String>) -> (r: Option<String>)
    ensures
        r.deep_view() == value.deep_view(),
{
    match value {
        Some(s) => Some(s.clone()),
        None => None,
    }
}

fn fill_missing(current: &mut Option<String>, fallback: &Option<String>)
    ensures
        final(current).deep_view() == or_else(old(current).deep_view(), fallback.deep_view()),
{
    if current.is_none() {
        *current = dup_opt(fallback);
    }
}

proof fn lemma_push_unique(groups: Seq<GroupView>, g: GroupView)
    requires
        unique_keys(groups),
        group_position(groups, g.key) is None,
    ensures
        unique_keys(groups.push(g)),
{
    assert forall|i: int, j: int|
        0 <= i < groups.push(g).len() && 0 <= j < groups.push(g).len() && i != j implies #[trigger] groups.push(
        g,
    )[i].key != #[trigger] groups.push(g)[j].key by {
        if i == groups.len() {
            assert(groups[j].key != g.key);
        } else if j == groups.len() {
            assert(groups[i].key != g.key);
        }
    }
}

/// Records one request in a group list keyed by `key`, creating the group
/// from the given attributes when it is new; returns the group's position.
fn observe_in_groups(
    groups: &mut Vec<UsageMetricsGroupAccumulator>,
    key: String,
    label: String,
    account_name: &Option<String>,
    proxy_config_id: &Option<String>,
    proxy_config_name: &Option<String>,
    proxy_url: &Option<String>,
    proxy_source: &Option<String>,
    fill_proxy_fields: bool,
    row: &UsageMetricsObservedRow,
    is_ok: bool,
)
    requires
        unique_keys(group_views(old(groups)@)),
    ensures
        unique_keys(group_views(final(groups)@)),
        ({
            let old_views = group_views(old(groups)@);
            let new_views = group_views(final(groups)@);
            match group_position(old_views, key@) {
                Some(i) => new_views == old_views.update(
                    i,
                    GroupView {
                        proxy_config_id: if fill_proxy_fields {
                            or_else(old_views[i].proxy_config_id, proxy_config_id.deep_view())
                        } else {
                            old_views[i].proxy_config_id
                        },
                        proxy_config_name: if fill_proxy_fields {
                            or_else(old_views[i].proxy_config_name, proxy_config_name.deep_view())
                        } else {
                            old_views[i].proxy_config_name
                        },
                        proxy_url: if fill_proxy_fields {
                            or_else(old_views[i].proxy_url, proxy_url.deep_view())
                        } else {
                            old_views[i].proxy_url
                        },
                        proxy_source: if fill_proxy_fields {
                            or_else(old_views[i].proxy_source, proxy_source.deep_view())
                        } else {
                            old_views[i].proxy_source
                        },
                        counters: group_counters_after(old_views[i].counters, *row, is_ok),
                        ..old_views[i]
                    },
                ),
                None => new_views == old_views.push(
                    GroupView {
                        key: key@,
                        label: label@,
                        account_name: account_name.deep_view(),
                        proxy_config_id: proxy_config_id.deep_view(),
                        proxy_config_name: proxy_config_name.deep_view(),
                        proxy_url: proxy_url.deep_view(),
                        proxy_source: proxy_source.deep_view(),
                        counters: group_counters_after(zero_counters(), *row, is_ok),
                    },
                ),
            }
        }),
{
    let ghost old_views = group_views(groups@);
    match find_group(groups, &key) {
        Some(i) => {
            let mut group = UsageMetricsGroupAccumulator {
                key: groups[i].key.clone(),
                label: groups[i].label.clone(),
                account_name: dup_opt(&groups[i].account_name),
                proxy_config_id: dup_opt(&groups[i].proxy_config_id),
                proxy_config_name: dup_opt(&groups[i].proxy_config_name),
                proxy_url: dup_opt(&groups[i].proxy_url),
                proxy_source: dup_opt(&groups[i].proxy_source),
                counters: groups[i].counters,
            };
            if fill_proxy_fields {
                fill_missing(&mut group.proxy_config_id, proxy_config_id);
                fill_missing(&mut group.proxy_config_name, proxy_config_name);
                fill_missing(&mut group.proxy_url, proxy_url);
                fill_missing(&mut group.proxy_source, proxy_source);
            }
            update_usage_metrics_group(&mut group, row, is_ok);
            groups.set(i, group);
            proof {
                let new_views = group_views(groups@);
                assert(new_views =~= old_views.update(i as int, group@));
                assert forall|a: int, b: int|
                    0 <= a < new_views.len() && 0 <= b < new_views.len() && a != b implies #[trigger] new_views[a].key
                    != #[trigger] new_views[b].key by {
                    assert(new_views[a].key == old_views[a].key);
                    assert(new_views[b].key == old_views[b].key);
                }
            }
        },
        None => {
            let mut counters = new_counters();
            update_usage_metrics_group_counters(&mut counters, row, is_ok);
            let group = UsageMetricsGroupAccumulator {
                key,
                label,
                account_name: dup_opt(account_name),
                proxy_config_id: dup_opt(proxy_config_id),
                proxy_config_name: dup_opt(proxy_config_name),
                proxy_url: dup_opt(proxy_url),
                proxy_source: dup_opt(proxy_source),
                counters,
            };
            groups.push(group);
            proof {
                assert(group_views(groups@) =~= old_views.push(group@));
                lemma_push_unique(old_views, group@);
            }
        },
    }
}

} // verus!

verus! {

/// The request counts of one non-OK status code.
#[derive(Debug, Clone, Copy, PartialEq, Eq, Structural)]
pub struct UsageMetricsStatusCodeCount {
    pub status_code: i32,
    pub request_count: u64,
}

/// The numbers the metrics summary accumulates.
#[derive(Debug, Clone, Copy, PartialEq, Eq, Default, Structural)]
pub struct UsageMetricsSummaryAccumulator {
    pub total_requests: u64,
    pub ok_requests: u64,
    pub non_ok_requests: u64,
    pub first_token_sum_ms: i64,
    pub first_token_samples: u64,
    pub max_first_token_ms: Option<i64>,
    pub latency_sum_ms: i64,
    pub latency_samples: u64,
    pub routing_wait_sum_ms: i64,
    pub routing_wait_samples: u64,
    pub failover_request_count: u64,
    pub total_quota_failovers: u64,
    pub downstream_disconnect_count: u64,
    pub usage_missing_count: u64,
    pub credit_usage_missing_count: u64,
}

/// The summary after one more request.
pub open spec fn summary_after(s: UsageMetricsSummaryAccumulator, row: UsageMetricsObservedRow) -> UsageMetricsSummaryAccumulator {
    let is_ok = row.status_code == 200;
    UsageMetricsSummaryAccumulator {
        total_requests: bump(s.total_requests, true),
        ok_requests: bump(s.ok_requests, is_ok),
        non_ok_requests: bump(s.non_ok_requests, !is_ok),
        first_token_sum_ms: match row.first_sse_write_ms {
            Some(v) => clamp_i64(s.first_token_sum_ms + v),
            None => s.first_token_sum_ms,
        },
        first_token_samples: bump(s.first_token_samples, row.first_sse_write_ms is Some),
        max_first_token_ms: match row.first_sse_write_ms {
            Some(v) => running_max(s.max_first_token_ms, v),
            None => s.max_first_token_ms,
        },
        latency_sum_ms: match row.latency_ms {
            Some(v) => clamp_i64(s.latency_sum_ms + v),
            None => s.latency_sum_ms,
        },
        latency_samples: bump(s.latency_samples, row.latency_ms is Some),
        routing_wait_sum_ms: match row.routing_wait_ms {
            Some(v) => clamp_i64(s.routing_wait_sum_ms + v),
            None => s.routing_wait_sum_ms,
        },
        routing_wait_samples: bump(s.routing_wait_samples, row.routing_wait_ms is Some),
        failover_request_count: bump(s.failover_request_count, row.quota_failover_count > 0),
        total_quota_failovers: if row.quota_failover_count > 0 {
            clamp_u64(s.total_quota_failovers + row.quota_failover_count)
        } else {
            s.total_quota_failovers
        },
        downstream_disconnect_count: bump(s.downstream_disconnect_count, row.downstream_disconnect),
        usage_missing_count: bump(s.usage_missing_count, row.usage_missing),
        credit_usage_missing_count: bump(s.credit_usage_missing_count, row.credit_usage_missing),
    }
}

/// Whether no two entries share a status code.
pub open spec fn unique_codes(codes: Seq<UsageMetricsStatusCodeCount>) -> bool {
    forall|i: int, j: int|
        0 <= i < codes.len() && 0 <= j < codes.len() && i != j ==> #[trigger] codes[i].status_code
            != #[trigger] codes[j].status_code
}

/// The position of the entry of `code`.
pub open spec fn code_position(codes: Seq<UsageMetricsStatusCodeCount>, code: i32) -> Option<int> {
    if exists|i: int| 0 <= i < codes.len() && #[trigger] codes[i].status_code == code {
        Some(choose|i: int| 0 <= i < codes.len() && #[trigger] codes[i].status_code == code)
    } else {
        None
    }
}

/// The non-OK status counts after one more request: non-OK requests count
/// toward their status code.
pub open spec fn status_codes_after(codes: Seq<UsageMetricsStatusCodeCount>, row: UsageMetricsObservedRow) -> Seq<
    UsageMetricsStatusCodeCount,
> {
    if row.status_code == 200 {
        codes
    } else {
        match code_position(codes, row.status_code) {
            Some(i) => codes.update(
                i,
                UsageMetricsStatusCodeCount {
                    status_code: row.status_code,
                    request_count: clamp_u64(codes[i].request_count + 1),
                },
            ),
            None => codes.push(
                UsageMetricsStatusCodeCount { status_code: row.status_code, request_count: 1 },
            ),
        }
    }
}

/// The requests counted over status codes.
pub open spec fn code_count_sum(codes: Seq<UsageMetricsStatusCodeCount>) -> int
    decreases codes.len(),
{
    if codes.len() == 0 {
        0
    } else {
        code_count_sum(codes.drop_last()) + codes.last().request_count
    }
}

proof fn lemma_code_count_sum_update(codes: Seq<UsageMetricsStatusCodeCount>, i: int, x: UsageMetricsStatusCodeCount)
    requires
        0 <= i < codes.len(),
    ensures
        code_count_sum(codes.update(i, x)) == code_count_sum(codes) - codes[i].request_count + x.request_count,
        codes[i].request_count <= code_count_sum(codes),
    decreases codes.len(),
{
    let u = codes.update(i, x);
    if i == codes.len() - 1 {
        assert(u.drop_last() =~= codes.drop_last());
        lemma_code_count_sum_nonneg(codes.drop_last());
    } else {
        lemma_code_count_sum_update(codes.drop_last(), i, x);
        assert(u.drop_last() =~= codes.drop_last().update(i, x));
        assert(codes.drop_last()[i] == codes[i]);
    }
}

proof fn lemma_code_count_sum_nonneg(codes: Seq<UsageMetricsStatusCodeCount>)
    ensures
        code_count_sum(codes) >= 0,
    decreases codes.len(),
{
    if codes.len() > 0 {
        lemma_code_count_sum_nonneg(codes.drop_last());
    }
}

/// Every request the summary sees is counted once, as OK or as non-OK, and
/// the non-OK status code counts add up to the non-OK requests: observing a
/// request keeps both, as long as the request count has not reached its
/// saturation point.
pub proof fn lemma_observe_keeps_counts_consistent(
    s: UsageMetricsSummaryAccumulator,
    codes: Seq<UsageMetricsStatusCodeCount>,
    row: UsageMetricsObservedRow,
)
    requires
        s.ok_requests + s.non_ok_requests == s.total_requests,
        code_count_sum(codes) == s.non_ok_requests,
        s.total_requests < u64::MAX,
    ensures
        summary_after(s, row).ok_requests + summary_after(s, row).non_ok_requests == summary_after(s, row).total_requests,
        code_count_sum(status_codes_after(codes, row)) == summary_after(s, row).non_ok_requests,
{
    let after = status_codes_after(codes, row);
    if row.status_code != 200 {
        match code_position(codes, row.status_code) {
            Some(i) => {
                let x = UsageMetricsStatusCodeCount {
                    status_code: row.status_code,
                    request_count: clamp_u64(codes[i].request_count + 1),
                };
                assert(0 <= i < codes.len() && codes[i].status_code == row.status_code);
                lemma_code_count_sum_update(codes, i, x);
                assert(after == codes.update(i, x));
            },
            None => {
                assert(after.drop_last() =~= codes);
            },
        }
    }
}

fn count_status(codes_vec: &mut Vec<UsageMetricsStatusCodeCount>, status_code: i32)
    requires
        unique_codes(old(codes_vec)@),
    ensures
        unique_codes(final(codes_vec)@),
        ({
            let codes = old(codes_vec)@;
            final(codes_vec)@ == match code_position(codes, status_code) {
                Some(i) => codes.update(
                    i,
                    UsageMetricsStatusCodeCount {
                        status_code,
                        request_count: clamp_u64(codes[i].request_count + 1),
                    },
                ),
                None => codes.push(UsageMetricsStatusCodeCount { status_code, request_count: 1 }),
            }
        }),
{
    let ghost codes = codes_vec@;
    let mut i: usize = 0;
    while i < codes_vec.len()
        invariant
            i <= codes_vec.len(),
            codes == codes_vec@,
            codes == old(codes_vec)@,
            unique_codes(codes),
            forall|j: int| 0 <= j < i ==> codes[j].status_code != status_code,
        decreases codes_vec.len() - i,
    {
        if codes_vec[i].status_code == status_code {
            let count = codes_vec[i].request_count;
            codes_vec.set(
                i,
                UsageMetricsStatusCodeCount { status_code, request_count: count.saturating_add(1) },
            );
            proof {
                assert(codes[i as int].status_code == status_code);
                let c = choose|c: int| 0 <= c < codes.len() && #[trigger] codes[c].status_code
                    == status_code;
                if c != i {
                    assert(codes[c].status_code != codes[i as int].status_code);
                }
                let n = codes_vec@;
                assert forall|a: int, b: int|
                    0 <= a < n.len() && 0 <= b < n.len() && a != b implies #[trigger] n[a].status_code
                    != #[trigger] n[b].status_code by {
                    assert(n[a].status_code == codes[a].status_code);
                    assert(n[b].status_code == codes[b].status_code);
                }
            }
            return;
        }
        i = i + 1;
    }
    codes_vec.push(UsageMetricsStatusCodeCount { status_code, request_count: 1 });
    proof {
        let n = codes_vec@;
        assert forall|a: int, b: int|
            0 <= a < n.len() && 0 <= b < n.len() && a != b implies #[trigger] n[a].status_code
            != #[trigger] n[b].status_code by {
            if a < codes.len() && b < codes.len() {
            } else if a == codes.len() {
                assert(n[b].status_code == codes[b].status_code);
            } else {
                assert(n[a].status_code == codes[a].status_code);
            }
        }
    }
}


/// Adds one request to the summary counters.
pub fn observe_summary(summary: &mut UsageMetricsSummaryAccumulator, row: &UsageMetricsObservedRow)
    ensures
        *final(summary) == summary_after(*old(summary), *row),
{
    let is_ok = row.status_code == 200;
        summary.total_requests = summary.total_requests.saturating_add(1);
        if is_ok {
            summary.ok_requests = summary.ok_requests.saturating_add(1);
        } else {
            summary.non_ok_requests = summary.non_ok_requests.saturating_add(1);
        }
        if let Some(value) = row.first_sse_write_ms {
            summary.first_token_sum_ms = saturating_add_i64(summary.first_token_sum_ms, value);
            summary.first_token_samples = summary.first_token_samples.saturating_add(1);
            summary.max_first_token_ms = update_max(summary.max_first_token_ms, value);
        }
        if let Some(value) = row.latency_ms {
            summary.latency_sum_ms = saturating_add_i64(summary.latency_sum_ms, value);
            summary.latency_samples = summary.latency_samples.saturating_add(1);
        }
        if let Some(value) = row.routing_wait_ms {
            summary.routing_wait_sum_ms = saturating_add_i64(summary.routing_wait_sum_ms, value);
            summary.routing_wait_samples = summary.routing_wait_samples.saturating_add(1);
        }
        if row.quota_failover_count > 0 {
            summary.failover_request_count = summary.failover_request_count.saturating_add(1);
            summary.total_quota_failovers = summary.total_quota_failovers.saturating_add(
                row.quota_failover_count,
            );
        }
        if row.downstream_disconnect {
            summary.downstream_disconnect_count = summary.downstream_disconnect_count.saturating_add(1);
        }
        if row.usage_missing {
            summary.usage_missing_count = summary.usage_missing_count.saturating_add(1);
        }
        if row.credit_usage_missing {
            summary.credit_usage_missing_count = summary.credit_usage_missing_count.saturating_add(1);
        }

}

/// Usage metrics accumulated over a stream of requests.
pub struct UsageMetricsAccumulator {
    pub summary: UsageMetricsSummaryAccumulator,
    pub accounts: Vec<UsageMetricsGroupAccumulator>,
    pub proxies: Vec<UsageMetricsGroupAccumulator>,
    pub non_ok_status_codes: Vec<UsageMetricsStatusCodeCount>,
}

impl UsageMetricsAccumulator {
    /// Group keys and status codes are unique.
    pub open spec fn wf(&self) -> bool {
        &&& unique_keys(group_views(self.accounts@))
        &&& unique_keys(group_views(self.proxies@))
        &&& unique_codes(self.non_ok_status_codes@)
    }

    /// An accumulator that has seen no request.
    pub fn new() -> (r: Self)
        ensures
            r.wf(),
            r.accounts@.len() == 0,
            r.proxies@.len() == 0,
            r.non_ok_status_codes@.len() == 0,
            r.summary == UsageMetricsSummaryAccumulator::default_spec(),
    {
        UsageMetricsAccumulator {
            summary: UsageMetricsSummaryAccumulator::zero(),
            accounts: Vec::new(),
            proxies: Vec::new(),
            non_ok_status_codes: Vec::new(),
        }
    }

    /// Records one request: the summary counters, its account group, its
    /// proxy group and, when not OK, its status code.
    pub fn observe(&mut self, row: UsageMetricsObservedRow)
        requires
            old(self).wf(),
        ensures
            final(self).wf(),
            final(self).summary == summary_after(old(self).summary, row),
            group_views(final(self).accounts@) == account_groups_after(
                group_views(old(self).accounts@),
                row,
                row.status_code == 200,
            ),
            group_views(final(self).proxies@) == proxy_groups_after(
                group_views(old(self).proxies@),
                row,
                row.status_code == 200,
            ),
            final(self).non_ok_status_codes@ == status_codes_after(old(self).non_ok_status_codes@, row),
    {
        let account_name = normalize_metrics_optional_string(dup_opt(&row.account_name));
        let proxy_source = normalize_metrics_optional_string(dup_opt(&row.proxy_source));
        let proxy_config_id = normalize_metrics_optional_string(dup_opt(&row.proxy_config_id));
        let proxy_config_name = normalize_metrics_optional_string(dup_opt(&row.proxy_config_name));
        let proxy_url = normalize_metrics_optional_string(dup_opt(&row.proxy_url));
        let is_ok = row.status_code == 200;

        observe_summary(&mut self.summary, &row);
        if !is_ok {
            count_status(&mut self.non_ok_status_codes, row.status_code);
        }

        let account_key = metrics_account_key(opt_as_str(&account_name));
        let account_label = metrics_account_label(opt_as_str(&account_name));
        let none: Option<String> = None;
        observe_in_groups(
            &mut self.accounts,
            account_key,
            account_label,
            &account_name,
            &none,
            &none,
            &none,
            &none,
            false,
            &row,
            is_ok,
        );

        let proxy_key = metrics_proxy_key(
            opt_as_str(&proxy_config_id),
            opt_as_str(&proxy_url),
            opt_as_str(&proxy_source),
        );
        let proxy_label = metrics_proxy_label(
            opt_as_str(&proxy_config_name),
            opt_as_str(&proxy_url),
            opt_as_str(&proxy_source),
        );
        observe_in_groups(
            &mut self.proxies,
            proxy_key,
            proxy_label,
            &none,
            &proxy_config_id,
            &proxy_config_name,
            &proxy_url,
            &proxy_source,
            true,
            &row,
            is_ok,
        );
    }
}

impl UsageMetricsSummaryAccumulator {
    /// The summary before any request.
    pub open spec fn default_spec() -> Self {
        UsageMetricsSummaryAccumulator {
            total_requests: 0,
            ok_requests: 0,
            non_ok_requests: 0,
            first_token_sum_ms: 0,
            first_token_samples: 0,
            max_first_token_ms: None,
            latency_sum_ms: 0,
            latency_samples: 0,
            routing_wait_sum_ms: 0,
            routing_wait_samples: 0,
            failover_request_count: 0,
            total_quota_failovers: 0,
            downstream_disconnect_count: 0,
            usage_missing_count: 0,
            credit_usage_missing_count: 0,
        }
    }

    /// The summary before any request.
    pub fn zero() -> (r: Self)
        ensures
            r == Self::default_spec(),
    {
        UsageMetricsSummaryAccumulator {
            total_requests: 0,
            ok_requests: 0,
            non_ok_requests: 0,
            first_token_sum_ms: 0,
            first_token_samples: 0,
            max_first_token_ms: None,
            latency_sum_ms: 0,
            latency_samples: 0,
            routing_wait_sum_ms: 0,
            routing_wait_samples: 0,
            failover_request_count: 0,
            total_quota_failovers: 0,
            downstream_disconnect_count: 0,
            usage_missing_count: 0,
            credit_usage_missing_count: 0,
        }
    }
}

/// The summary after observing `rows` in order, from an accumulator that
/// has seen no request.
pub open spec fn summary_of_rows(rows: Seq<UsageMetricsObservedRow>) -> UsageMetricsSummaryAccumulator
    decreases rows.len(),
{
    if rows.len() == 0 {
        UsageMetricsSummaryAccumulator::default_spec()
    } else {
        summary_after(summary_of_rows(rows.drop_last()), rows.last())
    }
}

/// The non-OK status code counts after observing `rows` in order.
pub open spec fn codes_of_rows(rows: Seq<UsageMetricsObservedRow>) -> Seq<UsageMetricsStatusCodeCount>
    decreases rows.len(),
{
    if rows.len() == 0 {
        Seq::empty()
    } else {
        status_codes_after(codes_of_rows(rows.drop_last()), rows.last())
    }
}

/// The account groups after observing `rows` in order.
pub open spec fn accounts_of_rows(rows: Seq<UsageMetricsObservedRow>) -> Seq<GroupView>
    decreases rows.len(),
{
    if rows.len() == 0 {
        Seq::empty()
    } else {
        account_groups_after(accounts_of_rows(rows.drop_last()), rows.last(), rows.last().status_code == 200)
    }
}

/// The proxy groups after observing `rows` in order.
pub open spec fn proxies_of_rows(rows: Seq<UsageMetricsObservedRow>) -> Seq<GroupView>
    decreases rows.len(),
{
    if rows.len() == 0 {
        Seq::empty()
    } else {
        proxy_groups_after(proxies_of_rows(rows.drop_last()), rows.last(), rows.last().status_code == 200)
    }
}

/// The number of OK (`200`) requests among `rows`.
pub open spec fn ok_rows(rows: Seq<UsageMetricsObservedRow>) -> int
    decreases rows.len(),
{
    if rows.len() == 0 {
        0
    } else {
        ok_rows(rows.drop_last()) + (if rows.last().status_code == 200 { 1int } else { 0 })
    }
}

/// The requests counted over groups.
pub open spec fn group_request_sum(groups: Seq<GroupView>) -> int
    decreases groups.len(),
{
    if groups.len() == 0 {
        0
    } else {
        group_request_sum(groups.drop_last()) + groups.last().counters.request_count
    }
}

proof fn lemma_group_request_sum_update(groups: Seq<GroupView>, i: int, g: GroupView)
    requires
        0 <= i < groups.len(),
    ensures
        group_request_sum(groups.update(i, g)) == group_request_sum(groups) - groups[i].counters.request_count + g.counters.request_count,
        groups[i].counters.request_count <= group_request_sum(groups),
    decreases groups.len(),
{
    let u = groups.update(i, g);
    if i == groups.len() - 1 {
        assert(u.drop_last() =~= groups.drop_last());
        lemma_group_request_sum_nonneg(groups.drop_last());
    } else {
        lemma_group_request_sum_update(groups.drop_last(), i, g);
        assert(u.drop_last() =~= groups.drop_last().update(i, g));
        assert(groups.drop_last()[i] == groups[i]);
    }
}

proof fn lemma_group_request_sum_nonneg(groups: Seq<GroupView>)
    ensures
        group_request_sum(groups) >= 0,
    decreases groups.len(),
{
    if groups.len() > 0 {
        lemma_group_request_sum_nonneg(groups.drop_last());
    }
}

/// One more request adds one to the requests counted over the account
/// groups, unless the total would pass `u64::MAX`.
proof fn lemma_account_step(groups: Seq<GroupView>, row: UsageMetricsObservedRow, is_ok: bool)
    requires
        group_request_sum(groups) < u64::MAX,
    ensures
        group_request_sum(account_groups_after(groups, row, is_ok)) == group_request_sum(groups) + 1,
{
    let key = account_key(normalized(row.account_name));
    let after = account_groups_after(groups, row, is_ok);
    match group_position(groups, key) {
        Some(i) => {
            assert(0 <= i < groups.len() && groups[i].key == key);
            lemma_group_request_sum_update(groups, i, after[i]);
        },
        None => {
            assert(after.drop_last() =~= groups);
        },
    }
}

/// One more request adds one to the requests counted over the proxy
/// groups, unless the total would pass `u64::MAX`.
proof fn lemma_proxy_step(groups: Seq<GroupView>, row: UsageMetricsObservedRow, is_ok: bool)
    requires
        group_request_sum(groups) < u64::MAX,
    ensures
        group_request_sum(proxy_groups_after(groups, row, is_ok)) == group_request_sum(groups) + 1,
{
    let key = proxy_key(normalized(row.proxy_config_id), normalized(row.proxy_url), normalized(row.proxy_source));
    let after = proxy_groups_after(groups, row, is_ok);
    match group_position(groups, key) {
        Some(i) => {
            assert(0 <= i < groups.len() && groups[i].key == key);
            lemma_group_request_sum_update(groups, i, after[i]);
        },
        None => {
            assert(after.drop_last() =~= groups);
        },
    }
}

/// After `n` observed requests (fewer than `u64::MAX`), starting from an
/// accumulator that has seen none: the summary counts `n` requests, the OK
/// ones are the `200`s, OK and non-OK requests add up to `n`, the non-OK
/// status code counts add up to the non-OK requests, and the account groups
/// as well as the proxy groups each count every request once.
pub proof fn lemma_observed_rows_counts(rows: Seq<UsageMetricsObservedRow>)
    requires
        rows.len() < u64::MAX,
    ensures
        summary_of_rows(rows).total_requests == rows.len(),
        summary_of_rows(rows).ok_requests == ok_rows(rows),
        summary_of_rows(rows).ok_requests + summary_of_rows(rows).non_ok_requests == rows.len(),
        code_count_sum(codes_of_rows(rows)) == summary_of_rows(rows).non_ok_requests,
        group_request_sum(accounts_of_rows(rows)) == rows.len(),
        group_request_sum(proxies_of_rows(rows)) == rows.len(),
    decreases rows.len(),
{
    if rows.len() > 0 {
        let prefix = rows.drop_last();
        let row = rows.last();
        lemma_observed_rows_counts(prefix);
        lemma_observe_keeps_counts_consistent(summary_of_rows(prefix), codes_of_rows(prefix), row);
        lemma_account_step(accounts_of_rows(prefix), row, row.status_code == 200);
        lemma_proxy_step(proxies_of_rows(prefix), row, row.status_code == 200);
    }
}

/// The keys of a list of groups.
pub open spec fn group_keys(groups: Seq<GroupView>) -> Set<Seq<char>> {
    Set::new(|k: Seq<char>| exists|i: int| 0 <= i < groups.len() && groups[i].key == k)
}

/// The account group key of an observed request.
pub open spec fn row_account_key(row: UsageMetricsObservedRow) -> Seq<char> {
    account_key(normalized(row.account_name))
}

/// The proxy group key of an observed request.
pub open spec fn row_proxy_key(row: UsageMetricsObservedRow) -> Seq<char> {
    proxy_key(normalized(row.proxy_config_id), normalized(row.proxy_url), normalized(row.proxy_source))
}

/// The distinct account keys among observed requests.
pub open spec fn account_keys_of(rows: Seq<UsageMetricsObservedRow>) -> Set<Seq<char>> {
    Set::new(|k: Seq<char>| exists|i: int| 0 <= i < rows.len() && row_account_key(rows[i]) == k)
}

/// The distinct proxy keys among observed requests.
pub open spec fn proxy_keys_of(rows: Seq<UsageMetricsObservedRow>) -> Set<Seq<char>> {
    Set::new(|k: Seq<char>| exists|i: int| 0 <= i < rows.len() && row_proxy_key(rows[i]) == k)
}

/// Updating the group of `key` in place, or appending a group with that key
/// when there is none, keeps keys unique and adds `key` to them.
proof fn lemma_group_keys_step(groups: Seq<GroupView>, after: Seq<GroupView>, key: Seq<char>)
    requires
        unique_keys(groups),
        group_position(groups, key) is Some ==> after.len() == groups.len() && forall|j: int|
            0 <= j < groups.len() ==> #[trigger] after[j].key == groups[j].key,
        group_position(groups, key) is None ==> after.len() == groups.len() + 1 && after.last().key == key
            && forall|j: int| 0 <= j < groups.len() ==> #[trigger] after[j].key == groups[j].key,
    ensures
        unique_keys(after),
        group_keys(after) == group_keys(groups).insert(key),
{
    if group_position(groups, key) is Some {
        let i = choose|i: int| 0 <= i < groups.len() && #[trigger] groups[i].key == key;
        assert(after[i].key == key);
        assert forall|k: Seq<char>| group_keys(after).contains(k) <==> group_keys(groups).insert(key).contains(k) by {
            if group_keys(after).contains(k) {
                let j = choose|j: int| 0 <= j < after.len() && after[j].key == k;
                assert(groups[j].key == k);
            }
            if group_keys(groups).contains(k) {
                let j = choose|j: int| 0 <= j < groups.len() && groups[j].key == k;
                assert(after[j].key == k);
            }
        }
        assert(group_keys(after) =~= group_keys(groups).insert(key));
    } else {
        assert forall|i: int, j: int| 0 <= i < after.len() && 0 <= j < after.len() && i != j implies
            #[trigger] after[i].key != #[trigger] after[j].key by {
            if i < groups.len() && j < groups.len() {
                assert(groups[i].key != groups[j].key);
            } else if i < groups.len() {
                assert(after[i].key == groups[i].key);
            } else {
                assert(after[j].key == groups[j].key);
            }
        }
        assert forall|k: Seq<char>| group_keys(after).contains(k) <==> group_keys(groups).insert(key).contains(k) by {
            if group_keys(after).contains(k) {
                let j = choose|j: int| 0 <= j < after.len() && after[j].key == k;
                if j < groups.len() {
                    assert(groups[j].key == k);
                }
            }
            if group_keys(groups).contains(k) {
                let j = choose|j: int| 0 <= j < groups.len() && groups[j].key == k;
                assert(after[j].key == k);
            }
            if k == key {
                assert(after[groups.len() as int].key == k);
            }
        }
        assert(group_keys(after) =~= group_keys(groups).insert(key));
    }
}

proof fn lemma_row_keys_step(rows: Seq<UsageMetricsObservedRow>)
    requires
        rows.len() > 0,
    ensures
        account_keys_of(rows) == account_keys_of(rows.drop_last()).insert(row_account_key(rows.last())),
        proxy_keys_of(rows) == proxy_keys_of(rows.drop_last()).insert(row_proxy_key(rows.last())),
{
    let prefix = rows.drop_last();
    assert forall|k: Seq<char>| account_keys_of(rows).contains(k) <==> account_keys_of(prefix).insert(
        row_account_key(rows.last()),
    ).contains(k) by {
        if account_keys_of(rows).contains(k) {
            let i = choose|i: int| 0 <= i < rows.len() && row_account_key(rows[i]) == k;
            if i < prefix.len() {
                assert(prefix[i] == rows[i]);
            }
        }
        if account_keys_of(prefix).contains(k) {
            let i = choose|i: int| 0 <= i < prefix.len() && row_account_key(prefix[i]) == k;
            assert(rows[i] == prefix[i]);
        }
        if k == row_account_key(rows.last()) {
            assert(rows[rows.len() - 1] == rows.last());
        }
    }
    assert(account_keys_of(rows) =~= account_keys_of(prefix).insert(row_account_key(rows.last())));
    assert forall|k: Seq<char>| proxy_keys_of(rows).contains(k) <==> proxy_keys_of(prefix).insert(
        row_proxy_key(rows.last()),
    ).contains(k) by {
        if proxy_keys_of(rows).contains(k) {
            let i = choose|i: int| 0 <= i < rows.len() && row_proxy_key(rows[i]) == k;
            if i < prefix.len() {
                assert(prefix[i] == rows[i]);
            }
        }
        if proxy_keys_of(prefix).contains(k) {
            let i = choose|i: int| 0 <= i < prefix.len() && row_proxy_key(prefix[i]) == k;
            assert(rows[i] == prefix[i]);
        }
        if k == row_proxy_key(rows.last()) {
            assert(rows[rows.len() - 1] == rows.last());
        }
    }
    assert(proxy_keys_of(rows) =~= proxy_keys_of(prefix).insert(row_proxy_key(rows.last())));
}

/// After observing requests in order, there is exactly one account group
/// for each distinct account key among them and exactly one proxy group for
/// each distinct proxy key: the distinct accounts and proxies the summary
/// reports are the distinct keys the requests carried.
pub proof fn lemma_observed_rows_groups(rows: Seq<UsageMetricsObservedRow>)
    ensures
        unique_keys(accounts_of_rows(rows)),
        group_keys(accounts_of_rows(rows)) == account_keys_of(rows),
        unique_keys(proxies_of_rows(rows)),
        group_keys(proxies_of_rows(rows)) == proxy_keys_of(rows),
    decreases rows.len(),
{
    if rows.len() == 0 {
        assert(group_keys(Seq::<GroupView>::empty()) =~= account_keys_of(rows));
        assert(group_keys(Seq::<GroupView>::empty()) =~= proxy_keys_of(rows));
    } else {
        let prefix = rows.drop_last();
        let row = rows.last();
        let is_ok = row.status_code == 200;
        lemma_observed_rows_groups(prefix);
        lemma_row_keys_step(rows);
        let accounts = accounts_of_rows(prefix);
        let akey = row_account_key(row);
        if group_position(accounts, akey) is Some {
            let i = choose|i: int| 0 <= i < accounts.len() && #[trigger] accounts[i].key == akey;
            assert(group_position(accounts, akey) == Some(i));
        }
        lemma_group_keys_step(accounts, accounts_of_rows(rows), akey);
        let proxies = proxies_of_rows(prefix);
        let pkey = row_proxy_key(row);
        if group_position(proxies, pkey) is Some {
            let i = choose|i: int| 0 <= i < proxies.len() && #[trigger] proxies[i].key == pkey;
            assert(group_position(proxies, pkey) == Some(i));
        }
        lemma_group_keys_step(proxies, proxies_of_rows(rows), pkey);
    }
}

/// What one more request does to a group's counters: the request count
/// goes up by one, and the OK or the non-OK count by one, each stopping at
/// `u64::MAX`; a measured first-token time or routing wait is added to its
/// sum (held to the `i64` range) and counted as a sample, and the group's
/// maximum becomes the larger of the old maximum and the new value, so it
/// is at least every value the group has seen and is one of them; failovers,
/// disconnects and missing usage are counted the same way.
pub proof fn lemma_group_counters_after_adds_one_request(
    c: UsageMetricsGroupCounters,
    row: UsageMetricsObservedRow,
    is_ok: bool,
)
    ensures
        ({
            let n = group_counters_after(c, row, is_ok);
            &&& n.request_count == c.request_count + (if c.request_count < u64::MAX { 1int } else { 0 })
            &&& n.ok_count == c.ok_count + (if is_ok && c.ok_count < u64::MAX { 1int } else { 0 })
            &&& n.non_ok_count == c.non_ok_count + (if !is_ok && c.non_ok_count < u64::MAX { 1int } else { 0 })
            &&& n.first_token_samples == c.first_token_samples + (if row.first_sse_write_ms is Some
                && c.first_token_samples < u64::MAX { 1int } else { 0 })
            &&& n.routing_wait_samples == c.routing_wait_samples + (if row.routing_wait_ms is Some
                && c.routing_wait_samples < u64::MAX { 1int } else { 0 })
            &&& (row.first_sse_write_ms matches Some(v) ==> {
                &&& (i64::MIN <= c.first_token_sum_ms + v <= i64::MAX ==> n.first_token_sum_ms == c.first_token_sum_ms + v)
                &&& (c.first_token_sum_ms + v > i64::MAX ==> n.first_token_sum_ms == i64::MAX)
                &&& (c.first_token_sum_ms + v < i64::MIN ==> n.first_token_sum_ms == i64::MIN)
                &&& n.max_first_token_ms matches Some(m) && m >= v
                    && (c.max_first_token_ms matches Some(o) ==> m >= o)
                    && (m == v || c.max_first_token_ms == Some(m))
            })
            &&& (row.first_sse_write_ms is None ==> n.first_token_sum_ms == c.first_token_sum_ms
                && n.max_first_token_ms == c.max_first_token_ms)
            &&& (row.routing_wait_ms matches Some(v) ==> {
                &&& (i64::MIN <= c.routing_wait_sum_ms + v <= i64::MAX ==> n.routing_wait_sum_ms == c.routing_wait_sum_ms + v)
                &&& (c.routing_wait_sum_ms + v > i64::MAX ==> n.routing_wait_sum_ms == i64::MAX)
                &&& (c.routing_wait_sum_ms + v < i64::MIN ==> n.routing_wait_sum_ms == i64::MIN)
                &&& n.max_routing_wait_ms matches Some(m) && m >= v
                    && (c.max_routing_wait_ms matches Some(o) ==> m >= o)
                    && (m == v || c.max_routing_wait_ms == Some(m))
            })
            &&& (row.routing_wait_ms is None ==> n.routing_wait_sum_ms == c.routing_wait_sum_ms
                && n.max_routing_wait_ms == c.max_routing_wait_ms)
            &&& n.failover_request_count == c.failover_request_count + (if row.quota_failover_count > 0
                && c.failover_request_count < u64::MAX { 1int } else { 0 })
            &&& n.total_quota_failovers == (if c.total_quota_failovers + row.quota_failover_count > u64::MAX {
                u64::MAX as int
            } else {
                c.total_quota_failovers + row.quota_failover_count
            })
            &&& n.downstream_disconnect_count == c.downstream_disconnect_count + (if row.downstream_disconnect
                && c.downstream_disconnect_count < u64::MAX { 1int } else { 0 })
            &&& n.usage_missing_count == c.usage_missing_count + (if row.usage_missing
                && c.usage_missing_count < u64::MAX { 1int } else { 0 })
            &&& n.credit_usage_missing_count == c.credit_usage_missing_count + (if row.credit_usage_missing
                && c.credit_usage_missing_count < u64::MAX { 1int } else { 0 })
        }),
{
}

/// What one more request does to the summary: the request count goes up by
/// one and the OK count (status `200`) or the non-OK count by one, each
/// stopping at `u64::MAX`; measured times are added to their sums (held to
/// the `i64` range) and counted as samples; the largest first-token time is
/// at least every one seen and is one of them.
pub proof fn lemma_summary_after_adds_one_request(s: UsageMetricsSummaryAccumulator, row: UsageMetricsObservedRow)
    ensures
        ({
            let n = summary_after(s, row);
            let is_ok = row.status_code == 200;
            &&& n.total_requests == s.total_requests + (if s.total_requests < u64::MAX { 1int } else { 0 })
            &&& n.ok_requests == s.ok_requests + (if is_ok && s.ok_requests < u64::MAX { 1int } else { 0 })
            &&& n.non_ok_requests == s.non_ok_requests + (if !is_ok && s.non_ok_requests < u64::MAX { 1int } else { 0 })
            &&& n.first_token_samples == s.first_token_samples + (if row.first_sse_write_ms is Some
                && s.first_token_samples < u64::MAX { 1int } else { 0 })
            &&& n.latency_samples == s.latency_samples + (if row.latency_ms is Some && s.latency_samples < u64::MAX {
                1int
            } else {
                0
            })
            &&& n.routing_wait_samples == s.routing_wait_samples + (if row.routing_wait_ms is Some
                && s.routing_wait_samples < u64::MAX { 1int } else { 0 })
            &&& (row.first_sse_write_ms matches Some(v) ==> {
                &&& (i64::MIN <= s.first_token_sum_ms + v <= i64::MAX ==> n.first_token_sum_ms == s.first_token_sum_ms + v)
                &&& n.max_first_token_ms matches Some(m) && m >= v
                    && (s.max_first_token_ms matches Some(o) ==> m >= o)
                    && (m == v || s.max_first_token_ms == Some(m))
            })
            &&& (row.first_sse_write_ms is None ==> n.first_token_sum_ms == s.first_token_sum_ms
                && n.max_first_token_ms == s.max_first_token_ms)
            &&& (row.latency_ms matches Some(v) ==> (i64::MIN <= s.latency_sum_ms + v <= i64::MAX
                ==> n.latency_sum_ms == s.latency_sum_ms + v))
            &&& (row.latency_ms is None ==> n.latency_sum_ms == s.latency_sum_ms)
            &&& (row.routing_wait_ms matches Some(v) ==> (i64::MIN <= s.routing_wait_sum_ms + v <= i64::MAX
                ==> n.routing_wait_sum_ms == s.routing_wait_sum_ms + v))
            &&& (row.routing_wait_ms is None ==> n.routing_wait_sum_ms == s.routing_wait_sum_ms)
            &&& n.failover_request_count == s.failover_request_count + (if row.quota_failover_count > 0
                && s.failover_request_count < u64::MAX { 1int } else { 0 })
            &&& n.total_quota_failovers == (if s.total_quota_failovers + row.quota_failover_count > u64::MAX {
                u64::MAX as int
            } else {
                s.total_quota_failovers + row.quota_failover_count
            })
            &&& n.downstream_disconnect_count == s.downstream_disconnect_count + (if row.downstream_disconnect
                && s.downstream_disconnect_count < u64::MAX { 1int } else { 0 })
            &&& n.usage_missing_count == s.usage_missing_count + (if row.usage_missing
                && s.usage_missing_count < u64::MAX { 1int } else { 0 })
            &&& n.credit_usage_missing_count == s.credit_usage_missing_count + (if row.credit_usage_missing
                && s.credit_usage_missing_count < u64::MAX { 1int } else { 0 })
        }),
{
}

/// Observing a request counts its status code when it is not `200`: an
/// existing entry of that code goes up by one (stopping at `u64::MAX`), a
/// new code gets an entry with one request at the end, and every other
/// entry is unchanged; an OK request changes nothing.
pub proof fn lemma_status_codes_after_counts_code(codes: Seq<UsageMetricsStatusCodeCount>, row: UsageMetricsObservedRow)
    requires
        unique_codes(codes),
    ensures
        ({
            let r = status_codes_after(codes, row);
            let code = row.status_code;
            &&& (code == 200 ==> r == codes)
            &&& (code != 200 ==> {
                &&& unique_codes(r)
                &&& (forall|i: int| 0 <= i < codes.len() && codes[i].status_code != code ==> #[trigger] r[i] == codes[i])
                &&& ((exists|i: int| 0 <= i < codes.len() && #[trigger] codes[i].status_code == code) ==> {
                    &&& r.len() == codes.len()
                    &&& forall|i: int| 0 <= i < codes.len() && #[trigger] codes[i].status_code == code ==> r[i].status_code
                        == code && r[i].request_count == codes[i].request_count + (if codes[i].request_count < u64::MAX {
                        1int
                    } else {
                        0
                    })
                })
                &&& (!(exists|i: int| 0 <= i < codes.len() && #[trigger] codes[i].status_code == code) ==> {
                    &&& r.len() == codes.len() + 1
                    &&& r[codes.len() as int].status_code == code
                    &&& r[codes.len() as int].request_count == 1
                })
            })
        }),
{
    let r = status_codes_after(codes, row);
    let code = row.status_code;
    if code != 200 {
        match code_position(codes, code) {
            Some(p) => {
                assert forall|i: int| 0 <= i < codes.len() && #[trigger] codes[i].status_code == code implies i == p by {
                    if i != p {
                        assert(codes[i].status_code != codes[p].status_code);
                    }
                }
                assert forall|i: int, j: int| 0 <= i < r.len() && 0 <= j < r.len() && i != j implies #[trigger] r[i].status_code
                    != #[trigger] r[j].status_code by {
                    assert(codes[i].status_code != codes[j].status_code);
                }
            },
            None => {
                assert forall|i: int, j: int| 0 <= i < r.len() && 0 <= j < r.len() && i != j implies #[trigger] r[i].status_code
                    != #[trigger] r[j].status_code by {
                    if i < codes.len() && j < codes.len() {
                        assert(codes[i].status_code != codes[j].status_code);
                    } else if i < codes.len() {
                        assert(r[i] == codes[i]);
                    } else {
                        assert(r[j] == codes[j]);
                    }
                }
            },
        }
    }
}

/// Observing a request updates exactly the group of its account: that
/// group's counters take the request and everything else about it stays; a
/// request of an account without a group appends one, keyed and labelled
/// by the account, whose counters hold just this request; every other group
/// is unchanged.
pub proof fn lemma_account_groups_after_updates_its_group(groups: Seq<GroupView>, row: UsageMetricsObservedRow, is_ok: bool)
    requires
        unique_keys(groups),
    ensures
        ({
            let r = account_groups_after(groups, row, is_ok);
            let key = row_account_key(row);
            &&& (forall|i: int| 0 <= i < groups.len() && groups[i].key != key ==> #[trigger] r[i] == groups[i])
            &&& ((exists|i: int| 0 <= i < groups.len() && #[trigger] groups[i].key == key) ==> {
                &&& r.len() == groups.len()
                &&& forall|i: int| 0 <= i < groups.len() && #[trigger] groups[i].key == key ==> r[i] == GroupView {
                    counters: group_counters_after(groups[i].counters, row, is_ok),
                    ..groups[i]
                }
            })
            &&& (!(exists|i: int| 0 <= i < groups.len() && #[trigger] groups[i].key == key) ==> {
                &&& r.len() == groups.len() + 1
                &&& r[groups.len() as int].key == key
                &&& r[groups.len() as int].label == (match normalized(row.account_name) {
                    Some(v) => v,
                    None => "(unknown account)"@,
                })
                &&& r[groups.len() as int].account_name == normalized(row.account_name)
                &&& r[groups.len() as int].counters == group_counters_after(
                    UsageMetricsGroupCounters {
                        request_count: 0,
                        ok_count: 0,
                        non_ok_count: 0,
                        first_token_sum_ms: 0,
                        first_token_samples: 0,
                        max_first_token_ms: None,
                        routing_wait_sum_ms: 0,
                        routing_wait_samples: 0,
                        max_routing_wait_ms: None,
                        failover_request_count: 0,
                        total_quota_failovers: 0,
                        downstream_disconnect_count: 0,
                        usage_missing_count: 0,
                        credit_usage_missing_count: 0,
                    },
                    row,
                    is_ok,
                )
            })
        }),
{
    let key = row_account_key(row);
    if let Some(p) = group_position(groups, key) {
        assert forall|i: int| 0 <= i < groups.len() && #[trigger] groups[i].key == key implies i == p by {
            if i != p {
                assert(groups[i].key != groups[p].key);
            }
        }
    }
}

/// Observing a request updates exactly the group of its proxy: that group's
/// counters take the request and it learns the proxy's config id, name, URL
/// and source where it had none; a proxy without a group gets a new group
/// at the end, whose counters hold just this request; every other group is
/// unchanged.
pub proof fn lemma_proxy_groups_after_updates_its_group(groups: Seq<GroupView>, row: UsageMetricsObservedRow, is_ok: bool)
    requires
        unique_keys(groups),
    ensures
        ({
            let r = proxy_groups_after(groups, row, is_ok);
            let key = row_proxy_key(row);
            &&& (forall|i: int| 0 <= i < groups.len() && groups[i].key != key ==> #[trigger] r[i] == groups[i])
            &&& ((exists|i: int| 0 <= i < groups.len() && #[trigger] groups[i].key == key) ==> {
                &&& r.len() == groups.len()
                &&& forall|i: int| 0 <= i < groups.len() && #[trigger] groups[i].key == key ==> {
                    &&& r[i].key == groups[i].key
                    &&& r[i].label == groups[i].label
                    &&& r[i].account_name == groups[i].account_name
                    &&& r[i].counters == group_counters_after(groups[i].counters, row, is_ok)
                    &&& r[i].proxy_config_id == (if groups[i].proxy_config_id is Some {
                        groups[i].proxy_config_id
                    } else {
                        normalized(row.proxy_config_id)
                    })
                    &&& r[i].proxy_config_name == (if groups[i].proxy_config_name is Some {
                        groups[i].proxy_config_name
                    } else {
                        normalized(row.proxy_config_name)
                    })
                    &&& r[i].proxy_url == (if groups[i].proxy_url is Some {
                        groups[i].proxy_url
                    } else {
                        normalized(row.proxy_url)
                    })
                    &&& r[i].proxy_source == (if groups[i].proxy_source is Some {
                        groups[i].proxy_source
                    } else {
                        normalized(row.proxy_source)
                    })
                }
            })
            &&& (!(exists|i: int| 0 <= i < groups.len() && #[trigger] groups[i].key == key) ==> {
                &&& r.len() == groups.len() + 1
                &&& r[groups.len() as int].key == key
                &&& r[groups.len() as int].account_name is None
                &&& r[groups.len() as int].proxy_config_id == normalized(row.proxy_config_id)
                &&& r[groups.len() as int].proxy_config_name == normalized(row.proxy_config_name)
                &&& r[groups.len() as int].proxy_url == normalized(row.proxy_url)
                &&& r[groups.len() as int].proxy_source == normalized(row.proxy_source)
                &&& r[groups.len() as int].counters == group_counters_after(
                    UsageMetricsGroupCounters {
                        request_count: 0,
                        ok_count: 0,
                        non_ok_count: 0,
                        first_token_sum_ms: 0,
                        first_token_samples: 0,
                        max_first_token_ms: None,
                        routing_wait_sum_ms: 0,
                        routing_wait_samples: 0,
                        max_routing_wait_ms: None,
                        failover_request_count: 0,
                        total_quota_failovers: 0,
                        downstream_disconnect_count: 0,
                        usage_missing_count: 0,
                        credit_usage_missing_count: 0,
                    },
                    row,
                    is_ok,
                )
            })
        }),
{
    let key = row_proxy_key(row);
    if let Some(p) = group_position(groups, key) {
        assert forall|i: int| 0 <= i < groups.len() && #[trigger] groups[i].key == key implies i == p by {
            if i != p {
                assert(groups[i].key != groups[p].key);
            }
        }
    }
}

} // verus!
