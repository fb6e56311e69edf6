use llm_access_store::catalog::{UsageEventQuery, UsageEventSource};
use llm_access_store::catalog_query::{UsageCatalogSegment, UsageCatalogSegmentMatch};
use llm_access_store::chart::{
    add_usage_chart_rows, chart_archive_query, chart_uses_hourly_rollups, chart_window_end_ms, empty_usage_chart_points,
};
use llm_access_store::metrics::{
    metrics_account_key, metrics_account_label, metrics_proxy_key, metrics_proxy_label,
    normalize_metrics_optional_string, saturating_add_i64, UsageMetricsAccumulator, UsageMetricsGroupAccumulator,
    UsageMetricsGroupCounters, UsageMetricsObservedRow, UsageMetricsStatusCodeCount,
};
use llm_access_store::metrics_rank::{
    snapshot_top_limit, top_failover_groups, top_non_ok_status_codes, usage_metrics_query_as_segment_filter,
    UsageMetricsQuery,
};
use llm_access_store::ordering::cmp_option_i64_desc;
use llm_access_store::query::{
    merge_usage_event_totals, page_has_more, plan_tiered_usage_page_fetches, usage_event_page_window, UsageEventTotals,
    USAGE_EVENT_PAGE_MAX_LIMIT,
};
use llm_access_store::tiered_read::{
    catalog_partition_totals, plan_usage_event_page, PartitionRead, TieredUsagePartition, TieredUsagePartitionKind,
};
use std::cmp::Ordering;

fn totals(count: usize, tokens: u64) -> UsageEventTotals {
    UsageEventTotals {
        event_count: count,
        input_uncached_tokens: tokens,
        input_cached_tokens: 0,
        output_tokens: tokens,
        billable_tokens: tokens,
    }
}

#[test]
fn merging_totals_saturates() {
    let mut target = totals(2, 10);
    merge_usage_event_totals(&mut target, &totals(3, u64::MAX));
    assert_eq!(target.event_count, 5);
    assert_eq!(target.input_uncached_tokens, u64::MAX);
    assert_eq!(target.input_cached_tokens, 0);
}

#[test]
fn merging_totals_is_order_free() {
    let (a, b, c) = (totals(1, 5), totals(2, 7), totals(4, u64::MAX - 3));
    let mut ab = a;
    merge_usage_event_totals(&mut ab, &b);
    let mut ba = b;
    merge_usage_event_totals(&mut ba, &a);
    assert_eq!(ab, ba);
    let mut ab_c = ab;
    merge_usage_event_totals(&mut ab_c, &c);
    let mut bc = b;
    merge_usage_event_totals(&mut bc, &c);
    let mut a_bc = a;
    merge_usage_event_totals(&mut a_bc, &bc);
    assert_eq!(ab_c, a_bc);
}

#[test]
fn page_window_counts_from_the_newest_event() {
    assert_eq!(usage_event_page_window(10, 0, 3), Some((3, 7)));
    assert_eq!(usage_event_page_window(10, 8, 5), Some((2, 0)));
    assert_eq!(usage_event_page_window(10, 10, 5), None);
    assert_eq!(usage_event_page_window(10, 0, 0), None);
    assert_eq!(usage_event_page_window(1000, 0, 5000), Some((USAGE_EVENT_PAGE_MAX_LIMIT, 800)));
    assert!(page_has_more(0, 3, 10));
    assert!(!page_has_more(7, 3, 10));
}

#[test]
fn tiered_page_fetches_skip_and_split_partitions() {
    let fetches = plan_tiered_usage_page_fetches(&vec![3, 0, 5, 4], 2, 4);
    assert_eq!(fetches.len(), 2);
    assert_eq!((fetches[0].partition_index, fetches[0].local_newest_offset, fetches[0].limit), (0, 2, 1));
    assert_eq!((fetches[1].partition_index, fetches[1].local_newest_offset, fetches[1].limit), (2, 0, 3));
    let total: usize = fetches.iter().map(|f| f.limit).sum();
    assert_eq!(total, 4);
    assert!(plan_tiered_usage_page_fetches(&vec![3, 5], 0, 0).is_empty());
    assert!(plan_tiered_usage_page_fetches(&vec![3, 5], 8, 2).is_empty());
}

fn partition(path: &str, count: usize) -> TieredUsagePartition {
    TieredUsagePartition {
        path: path.to_string(),
        count,
        totals: totals(count, count as u64 * 10),
        kind: TieredUsagePartitionKind::Archive,
    }
}

#[test]
fn page_plan_reads_active_then_archive() {
    let plan = plan_usage_event_page(
        Some(("/active.duckdb".to_string(), totals(2, 20))),
        vec![partition("/a.duckdb", 3), partition("/b.duckdb", 4)],
        1,
        3,
    );
    assert_eq!(plan.total, 9);
    assert_eq!(plan.totals.event_count, 9);
    assert_eq!(plan.totals.input_uncached_tokens, 90);
    assert_eq!(plan.partitions.len(), 3);
    assert_eq!(plan.partitions[0].kind, TieredUsagePartitionKind::Active);
    assert_eq!(plan.reads.len(), 2);
    assert_eq!(plan.reads[0], PartitionRead { partition_index: 0, limit: 1, reverse_offset: 0 });
    assert_eq!(plan.reads[1], PartitionRead { partition_index: 1, limit: 2, reverse_offset: 1 });
}

#[test]
fn page_plan_drops_empty_active_partition() {
    let plan = plan_usage_event_page(Some(("/active.duckdb".to_string(), totals(0, 0))), vec![partition("/a.duckdb", 3)], 5, 3);
    assert_eq!(plan.partitions.len(), 1);
    assert_eq!(plan.total, 3);
    assert!(plan.reads.is_empty());
}

fn query_window(start: Option<i64>, end: Option<i64>) -> UsageEventQuery {
    UsageEventQuery {
        key_id: None,
        provider_type: None,
        model: None,
        account_name: None,
        endpoint: None,
        status_code: None,
        status_kind: None,
        source: UsageEventSource::All,
        start_ms: start,
        end_ms: end,
        limit: 10,
        offset: 0,
    }
}

#[test]
fn catalog_totals_stand_only_for_segments_inside_the_window() {
    let segment_match = UsageCatalogSegmentMatch {
        segment: UsageCatalogSegment { archive_path: "/a".to_string(), start_ms: Some(10), end_ms: Some(20), row_count: 4 },
        matching_totals: Some(totals(4, 40)),
    };
    assert_eq!(catalog_partition_totals(&segment_match, &query_window(Some(0), Some(100))), Some(totals(4, 40)));
    assert_eq!(catalog_partition_totals(&segment_match, &query_window(Some(15), None)), None);
}

#[test]
fn chart_points_are_consecutive_buckets() {
    let mut points = empty_usage_chart_points(1000, 60, 3);
    assert_eq!(points.iter().map(|p| p.bucket_start_ms).collect::<Vec<_>>(), vec![1000, 1060, 1120]);
    assert_eq!(chart_window_end_ms(&points, 1000, 60), 1180);
    add_usage_chart_rows(&mut points, &vec![(0, 5), (2, 7), (2, 1), (5, 100), (-1, 9), (1, -4)]);
    assert_eq!(points.iter().map(|p| p.tokens).collect::<Vec<_>>(), vec![5, 0, 8]);
    assert_eq!(chart_window_end_ms(&Vec::new(), 1000, 60), 1000);
    let saturated = empty_usage_chart_points(i64::MAX - 10, i64::MAX, 2);
    assert_eq!(saturated[1].bucket_start_ms, i64::MAX);
}

#[test]
fn chart_rollups_need_whole_hours_and_rows() {
    assert!(chart_uses_hourly_rollups(3_600_000, true, true));
    assert!(!chart_uses_hourly_rollups(1_800_000, true, true));
    assert!(!chart_uses_hourly_rollups(3_600_000, true, false));
}

#[test]
fn chart_archive_query_spans_all_buckets() {
    let query = chart_archive_query("key-1", 1000, 60, 3);
    assert_eq!(query.key_id.as_deref(), Some("key-1"));
    assert_eq!(query.source, UsageEventSource::Archive);
    assert_eq!(query.start_ms, Some(1000));
    assert_eq!(query.end_ms, Some(1180));
    assert_eq!(query.limit, USAGE_EVENT_PAGE_MAX_LIMIT);
}

#[test]
fn option_desc_orders_missing_last() {
    assert_eq!(cmp_option_i64_desc(Some(5), Some(3)), Ordering::Less);
    assert_eq!(cmp_option_i64_desc(Some(3), Some(5)), Ordering::Greater);
    assert_eq!(cmp_option_i64_desc(Some(3), None), Ordering::Less);
    assert_eq!(cmp_option_i64_desc(None, Some(3)), Ordering::Greater);
    assert_eq!(cmp_option_i64_desc(None, None), Ordering::Equal);
}

#[test]
fn metrics_group_keys_and_labels() {
    assert_eq!(metrics_account_key(Some("acct")), "account:acct");
    assert_eq!(metrics_account_key(None), "account:unknown");
    assert_eq!(metrics_account_label(None), "(unknown account)");
    assert_eq!(metrics_proxy_key(Some("p1"), Some("http://x"), None), "proxy:id:p1");
    assert_eq!(metrics_proxy_key(None, Some("http://x"), Some("core")), "proxy:url:http://x");
    assert_eq!(metrics_proxy_key(None, None, Some("core")), "proxy:source:core");
    assert_eq!(metrics_proxy_key(None, None, None), "proxy:unknown");
    assert_eq!(metrics_proxy_label(Some("Slot 1"), Some("http://x"), None), "Slot 1");
    assert_eq!(metrics_proxy_label(None, None, None), "(unknown proxy)");
    assert_eq!(normalize_metrics_optional_string(Some("  a b ".to_string())), Some("a b".to_string()));
    assert_eq!(normalize_metrics_optional_string(Some("   ".to_string())), None);
    assert_eq!(saturating_add_i64(i64::MAX, 1), i64::MAX);
    assert_eq!(saturating_add_i64(i64::MIN, -1), i64::MIN);
}

fn observed(account: Option<&str>, status: i32, first_token: Option<i64>, failovers: u64) -> UsageMetricsObservedRow {
    UsageMetricsObservedRow {
        account_name: account.map(|a| a.to_string()),
        status_code: status,
        first_sse_write_ms: first_token,
        latency_ms: Some(100),
        routing_wait_ms: None,
        quota_failover_count: failovers,
        downstream_disconnect: false,
        usage_missing: status != 200,
        credit_usage_missing: false,
        proxy_source: None,
        proxy_config_id: None,
        proxy_config_name: None,
        proxy_url: None,
    }
}

#[test]
fn metrics_accumulator_counts_requests_groups_and_codes() {
    let mut acc = UsageMetricsAccumulator::new();
    acc.observe(observed(Some("a"), 200, Some(40), 0));
    acc.observe(observed(Some(" a "), 429, None, 2));
    acc.observe(observed(None, 500, Some(90), 1));
    acc.observe(observed(Some("b"), 429, Some(10), 0));
    let counts = acc.summary_counts();
    assert_eq!(counts.total_requests, 4);
    assert_eq!(counts.ok_requests, 1);
    assert_eq!(counts.non_ok_requests, 3);
    assert_eq!(counts.distinct_accounts, 3);
    assert_eq!(counts.distinct_proxies, 1);
    assert_eq!(counts.first_token_samples, 3);
    assert_eq!(counts.max_first_token_ms, Some(90));
    assert_eq!(counts.failover_request_count, 2);
    assert_eq!(counts.total_quota_failovers, 3);
    assert_eq!(counts.usage_missing_count, 3);
    let top = top_non_ok_status_codes(&acc.non_ok_status_codes, 1);
    assert_eq!(top, vec![UsageMetricsStatusCodeCount { status_code: 429, request_count: 2 }]);
    let all = top_non_ok_status_codes(&acc.non_ok_status_codes, 10);
    assert_eq!(all.len(), 2);
    assert_eq!(all[1].status_code, 500);
    assert_eq!(all.iter().map(|c| c.request_count).sum::<u64>(), counts.non_ok_requests);
    assert_eq!(counts.ok_requests + counts.non_ok_requests, counts.total_requests);
    let account_a = acc.accounts.iter().find(|g| g.key == "account:a").expect("account a");
    assert_eq!(account_a.counters.request_count, 2);
    assert_eq!(account_a.counters.non_ok_count, 1);
}

fn group(key: &str, failovers: u64, quota: u64, requests: u64) -> UsageMetricsGroupAccumulator {
    UsageMetricsGroupAccumulator {
        key: key.to_string(),
        label: key.to_string(),
        account_name: None,
        proxy_config_id: None,
        proxy_config_name: None,
        proxy_url: None,
        proxy_source: None,
        counters: UsageMetricsGroupCounters {
            request_count: requests,
            failover_request_count: failovers,
            total_quota_failovers: quota,
            ..UsageMetricsGroupCounters::default()
        },
    }
}

#[test]
fn failover_ranking_orders_by_failovers_then_label() {
    let groups = vec![group("c", 1, 1, 9), group("a", 3, 1, 1), group("b", 1, 1, 9), group("d", 1, 5, 1)];
    assert_eq!(top_failover_groups(&groups, 10), vec![1, 3, 2, 0]);
    assert_eq!(top_failover_groups(&groups, 2), vec![1, 3]);
    assert_eq!(snapshot_top_limit(0), 1);
    assert_eq!(snapshot_top_limit(7), 7);
}

#[test]
fn metrics_query_filters_archive_segments() {
    let query = UsageMetricsQuery {
        provider_type: Some("codex".to_string()),
        source: UsageEventSource::All,
        start_ms: 5,
        end_ms: 50,
        top_limit: 3,
    };
    let filter = usage_metrics_query_as_segment_filter(&query);
    assert_eq!(filter.provider_type.as_deref(), Some("codex"));
    assert_eq!(filter.source, UsageEventSource::Archive);
    assert_eq!(filter.start_ms, Some(5));
    assert_eq!(filter.end_ms, Some(50));
    assert_eq!(filter.limit, 1);
}
