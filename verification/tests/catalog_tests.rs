use llm_access_store::catalog::{
    catalog_query_from_usage_query, catalog_query_has_exact_totals, i64_to_u64, i64_to_usize, segment_fully_inside,
    sum_field_rollups, sum_key_rollups, test_rollup_matches_time, ArchivedUsageSegment, UsageCatalogFieldFilter,
    UsageCatalogFieldName, UsageCatalogFieldRollupRecord, UsageCatalogKeyRollupRecord, UsageCatalogQuery,
    UsageCatalogSegmentRecord, UsageEventQuery, UsageEventSource, UsageEventStatusKind, UsageFilterOptionField,
};
use llm_access_store::catalog_query::{newest_first_order, sort_archived_segments};
use llm_access_store::key_rollups::{merge_key_rollup, KeyUsageRollupSummary};
use llm_access_store::catalog_state::{parse_sequence_from_segment_id, TestTieredUsageCatalog};
use llm_access_store::lifecycle::{
    archive_bucket_timestamp_ms, publish_segment_catalog, validate_compacted_segment_matches_source, SegmentKeyRollup,
    SegmentStats,
};

fn segment(id: &str, path: &str, start: i64, end: i64, rows: usize) -> UsageCatalogSegmentRecord {
    UsageCatalogSegmentRecord {
        segment_id: id.to_string(),
        archive_path: path.to_string(),
        start_ms: Some(start),
        end_ms: Some(end),
        row_count: rows,
        input_uncached_tokens: 10,
        input_cached_tokens: 2,
        output_tokens: 5,
        billable_tokens: 15,
        size_bytes: 100,
        sealed_at_ms: end,
    }
}

fn key_rollup(key: &str, provider: &str, rows: usize, tokens: i64, first: i64, last: i64) -> UsageCatalogKeyRollupRecord {
    UsageCatalogKeyRollupRecord {
        key_id: key.to_string(),
        provider_type: provider.to_string(),
        row_count: rows,
        input_uncached_tokens: tokens,
        input_cached_tokens: 0,
        output_tokens: tokens,
        billable_tokens: tokens,
        credit_total: "0".to_string(),
        credit_missing_events: 0,
        first_used_at_ms: Some(first),
        last_used_at_ms: Some(last),
    }
}

fn field_rollup(field: UsageCatalogFieldName, value: &str, rows: usize, tokens: i64) -> UsageCatalogFieldRollupRecord {
    UsageCatalogFieldRollupRecord {
        key_id: None,
        provider_type: None,
        field_name: field,
        field_value: value.to_string(),
        row_count: rows,
        input_uncached_tokens: tokens,
        input_cached_tokens: 0,
        output_tokens: 0,
        billable_tokens: tokens,
        first_used_at_ms: Some(0),
        last_used_at_ms: Some(1000),
    }
}

fn empty_query() -> UsageEventQuery {
    UsageEventQuery {
        key_id: None,
        provider_type: None,
        model: None,
        account_name: None,
        endpoint: None,
        status_code: None,
        status_kind: None,
        source: UsageEventSource::All,
        start_ms: None,
        end_ms: None,
        limit: 50,
        offset: 0,
    }
}

fn catalog_query(key: Option<&str>) -> UsageCatalogQuery {
    UsageCatalogQuery {
        start_ms: None,
        end_ms: None,
        key_id: key.map(|k| k.to_string()),
        provider_type: None,
        field_filters: Vec::new(),
    }
}

#[test]
fn catalog_query_collects_field_filters_in_order() {
    let mut query = empty_query();
    query.model = Some("gpt".to_string());
    query.status_code = Some(-5);
    query.status_kind = Some(UsageEventStatusKind::Failure);
    query.start_ms = Some(10);
    let cq = catalog_query_from_usage_query(&query);
    assert_eq!(cq.start_ms, Some(10));
    assert_eq!(cq.field_filters.len(), 3);
    assert_eq!(cq.field_filters[0].field_name, UsageCatalogFieldName::Model);
    assert_eq!(cq.field_filters[0].field_value, "gpt");
    assert_eq!(cq.field_filters[1].field_name, UsageCatalogFieldName::StatusCode);
    assert_eq!(cq.field_filters[1].field_value, "-5");
    assert_eq!(cq.field_filters[2].field_name, UsageCatalogFieldName::StatusKind);
    assert_eq!(cq.field_filters[2].field_value, "non_ok");
    assert!(!catalog_query_has_exact_totals(&cq));
    assert_eq!(UsageEventStatusKind::Success.as_query_value(), "ok");
    assert_eq!(UsageFilterOptionField::Account.catalog_field_name(), UsageCatalogFieldName::AccountName);
}

#[test]
fn event_sources_split_hot_and_archive() {
    assert!(UsageEventSource::Hot.includes_hot());
    assert!(!UsageEventSource::Hot.includes_archive());
    assert!(UsageEventSource::All.includes_hot());
    assert!(UsageEventSource::All.includes_archive());
}

#[test]
fn rollup_time_window_is_half_open() {
    assert!(test_rollup_matches_time(Some(10), Some(20), Some(20), Some(21)));
    assert!(!test_rollup_matches_time(Some(10), Some(20), Some(21), None));
    assert!(!test_rollup_matches_time(Some(10), Some(20), None, Some(10)));
    assert!(test_rollup_matches_time(None, None, Some(5), Some(6)));
}

#[test]
fn fully_inside_needs_both_bounds() {
    let seg = ArchivedUsageSegment { archive_path: "a".to_string(), start_ms: Some(10), end_ms: Some(20) };
    let mut query = empty_query();
    query.start_ms = Some(10);
    query.end_ms = Some(21);
    assert!(segment_fully_inside(&seg, &query));
    query.end_ms = Some(20);
    assert!(!segment_fully_inside(&seg, &query));
    query.end_ms = Some(21);
    assert!(segment_fully_inside(&seg, &query));
    assert!(test_rollup_matches_time(seg.start_ms, seg.end_ms, query.start_ms, query.end_ms));
    let open = ArchivedUsageSegment { archive_path: "a".to_string(), start_ms: None, end_ms: Some(20) };
    query.end_ms = None;
    assert!(!segment_fully_inside(&open, &query));
}

#[test]
fn stored_counters_clamp_at_zero() {
    assert_eq!(i64_to_u64(-3), 0);
    assert_eq!(i64_to_u64(7), 7);
    assert_eq!(i64_to_usize(-1), 0);
    assert_eq!(i64_to_usize(9), 9);
}

#[test]
fn key_rollups_sum_only_scope() {
    let rollups = vec![
        key_rollup("k1", "codex", 2, 10, 0, 100),
        key_rollup("k2", "codex", 5, 50, 0, 100),
        key_rollup("k1", "kiro", 1, 7, 0, 100),
    ];
    let totals = sum_key_rollups(&rollups, &catalog_query(Some("k1")));
    assert_eq!(totals.event_count, 3);
    assert_eq!(totals.input_uncached_tokens, 17);
    assert_eq!(totals.billable_tokens, 17);
}

#[test]
fn field_rollups_sum_only_matching_value() {
    let rollups = vec![
        field_rollup(UsageCatalogFieldName::Model, "gpt", 2, 10),
        field_rollup(UsageCatalogFieldName::Model, "sonnet", 3, 30),
        field_rollup(UsageCatalogFieldName::Endpoint, "gpt", 4, 40),
    ];
    let filter = UsageCatalogFieldFilter { field_name: UsageCatalogFieldName::Model, field_value: "gpt".to_string() };
    let totals = sum_field_rollups(&rollups, &filter, &catalog_query(None));
    assert_eq!(totals.event_count, 2);
    assert_eq!(totals.input_uncached_tokens, 10);
}

#[test]
fn newest_first_order_is_a_stable_sort() {
    let keys = vec![
        (10, "a".to_string()),
        (30, "b".to_string()),
        (10, "c".to_string()),
        (30, "b".to_string()),
    ];
    assert_eq!(newest_first_order(&keys), vec![1, 3, 2, 0]);
}

#[test]
fn sort_archived_segments_newest_first() {
    let mut segments = vec![
        ArchivedUsageSegment { archive_path: "x".to_string(), start_ms: None, end_ms: Some(5) },
        ArchivedUsageSegment { archive_path: "y".to_string(), start_ms: None, end_ms: Some(9) },
        ArchivedUsageSegment { archive_path: "z".to_string(), start_ms: None, end_ms: None },
    ];
    sort_archived_segments(&mut segments);
    let paths: Vec<&str> = segments.iter().map(|s| s.archive_path.as_str()).collect();
    assert_eq!(paths, vec!["y", "x", "z"]);
}

#[test]
fn segment_id_sequence_is_its_last_field() {
    assert_eq!(parse_sequence_from_segment_id("usage-1700-000000000012"), Some(12));
    assert_eq!(parse_sequence_from_segment_id("usage-1700-x"), None);
}

fn published_catalog() -> TestTieredUsageCatalog {
    let mut catalog = TestTieredUsageCatalog::new("/data/archive/.test-usage-catalog.json".to_string());
    assert!(catalog.is_empty());
    catalog.publish_segment(
        segment("usage-100-000000000002", "/arch/b.duckdb", 50, 100, 3),
        vec![key_rollup("k1", "codex", 3, 9, 50, 100)],
        vec![field_rollup(UsageCatalogFieldName::Model, "gpt", 3, 9)],
        &vec!["e1".to_string(), "e2".to_string()],
    );
    catalog.publish_segment(
        segment("usage-300-000000000005", "/arch/a.duckdb", 200, 300, 2),
        vec![key_rollup("k2", "codex", 2, 4, 200, 300)],
        vec![field_rollup(UsageCatalogFieldName::Model, "sonnet", 2, 4)],
        &vec!["e3".to_string()],
    );
    catalog
}

#[test]
fn published_events_locate_their_segment() {
    let catalog = published_catalog();
    assert!(!catalog.is_empty());
    assert_eq!(catalog.next_sequence(), 5);
    let located = catalog.locate_archived_segment("e3").expect("e3 is archived");
    assert_eq!(located.archive_path, "/arch/a.duckdb");
    assert_eq!(located.end_ms, Some(300));
    assert!(catalog.locate_archived_segment("missing").is_none());
    assert_eq!(catalog.archive_path_for_segment("usage-100-000000000002"), Some("/arch/b.duckdb".to_string()));
    assert_eq!(catalog.archive_path_for_segment("nope"), None);
}

#[test]
fn republishing_a_segment_moves_its_locators() {
    let mut catalog = published_catalog();
    catalog.publish_segment(
        segment("usage-100-000000000002", "/arch/b2.duckdb", 50, 100, 1),
        Vec::new(),
        Vec::new(),
        &vec!["e2".to_string()],
    );
    assert!(catalog.locate_archived_segment("e1").is_none());
    assert_eq!(catalog.locate_archived_segment("e2").expect("e2").archive_path, "/arch/b2.duckdb");
    assert_eq!(catalog.locate_archived_segment("e3").expect("e3").archive_path, "/arch/a.duckdb");
}

#[test]
fn archived_segments_for_query_reads_newest_first() {
    let catalog = published_catalog();
    let all = catalog.archived_segments_for_query(&catalog_query(None));
    let paths: Vec<&str> = all.iter().map(|s| s.archive_path.as_str()).collect();
    assert_eq!(paths, vec!["/arch/a.duckdb", "/arch/b.duckdb"]);
    let scoped = catalog.archived_segments_for_query(&catalog_query(Some("k1")));
    assert_eq!(scoped.len(), 1);
    assert_eq!(scoped[0].archive_path, "/arch/b.duckdb");
    let mut windowed = catalog_query(None);
    windowed.start_ms = Some(150);
    let late = catalog.archived_segments_for_query(&windowed);
    assert_eq!(late.len(), 1);
    assert_eq!(late[0].archive_path, "/arch/a.duckdb");
}

#[test]
fn segment_matches_carry_catalog_totals() {
    let catalog = published_catalog();
    let matches = catalog.archived_segment_matches_for_query(&catalog_query(Some("k2")));
    assert_eq!(matches.len(), 1);
    assert_eq!(matches[0].segment.archive_path, "/arch/a.duckdb");
    let totals = matches[0].matching_totals.expect("exact totals");
    assert_eq!(totals.event_count, 2);
    assert_eq!(totals.input_uncached_tokens, 4);
}

#[test]
fn filter_option_values_are_sorted_and_distinct() {
    let catalog = published_catalog();
    let values = catalog
        .archived_filter_option_values(&catalog_query(None), UsageCatalogFieldName::Model)
        .expect("no field filter");
    assert_eq!(values, vec!["gpt".to_string(), "sonnet".to_string()]);
    let mut filtered = catalog_query(None);
    filtered.field_filters.push(UsageCatalogFieldFilter {
        field_name: UsageCatalogFieldName::Model,
        field_value: "gpt".to_string(),
    });
    assert!(catalog.archived_filter_option_values(&filtered, UsageCatalogFieldName::Model).is_none());
}

#[test]
fn archived_paths_list_each_segment() {
    let catalog = published_catalog();
    let paths = catalog.archived_paths();
    assert_eq!(paths.len(), 2);
    assert!(paths.contains(&"/arch/a.duckdb".to_string()));
    assert!(paths.contains(&"/arch/b.duckdb".to_string()));
    assert!(catalog.archived_paths_missing_field_rollups().is_empty());
}

#[test]
fn retention_deletes_exactly_expired_segments() {
    let mut catalog = published_catalog();
    let removed = catalog.delete_expired_segments(150);
    assert_eq!(removed.len(), 1);
    assert_eq!(removed[0].segment_id, "usage-100-000000000002");
    assert_eq!(removed[0].archive_path, "/arch/b.duckdb");
    assert!(catalog.locate_archived_segment("e1").is_none());
    assert!(catalog.locate_archived_segment("e3").is_some());
    assert_eq!(catalog.delete_expired_segments(150).len(), 0);
}

fn stats(rows: usize, start: i64, end: i64) -> SegmentStats {
    SegmentStats {
        start_ms: Some(start),
        end_ms: Some(end),
        row_count: rows,
        event_id_count: rows,
        input_uncached_tokens: 1,
        input_cached_tokens: 2,
        output_tokens: 3,
        billable_tokens: 4,
        rollups: vec![SegmentKeyRollup {
            key_id: "k9".to_string(),
            provider_type: "kiro".to_string(),
            row_count: rows,
            input_uncached_tokens: 1,
            input_cached_tokens: 2,
            output_tokens: 3,
            billable_tokens: 4,
            credit_total: "0.5".to_string(),
            credit_missing_events: 0,
            first_used_at_ms: Some(start),
            last_used_at_ms: Some(end),
        }],
        field_rollups: Vec::new(),
    }
}

#[test]
fn compaction_must_keep_rows_and_interval() {
    assert!(validate_compacted_segment_matches_source(stats(3, 1, 9), stats(3, 1, 9)).is_ok());
    assert!(validate_compacted_segment_matches_source(stats(3, 1, 9), stats(2, 1, 9)).is_err());
    assert!(validate_compacted_segment_matches_source(stats(3, 1, 9), stats(3, 1, 8)).is_err());
}

#[test]
fn archive_bucket_uses_segment_end() {
    assert_eq!(archive_bucket_timestamp_ms(&stats(1, 5, 9)), 9);
}

#[test]
fn publish_segment_catalog_records_stats() {
    let mut catalog = TestTieredUsageCatalog::new("/c.json".to_string());
    publish_segment_catalog(
        &mut catalog,
        "usage-9-000000000001",
        "/arch/c.duckdb",
        &stats(2, 5, 9),
        777,
        &vec!["x1".to_string(), "x2".to_string()],
    );
    assert_eq!(catalog.next_sequence(), 1);
    assert_eq!(catalog.locate_archived_segment("x2").expect("x2").archive_path, "/arch/c.duckdb");
    let matches = catalog.archived_segment_matches_for_query(&catalog_query(Some("k9")));
    assert_eq!(matches.len(), 1);
    assert_eq!(matches[0].segment.row_count, 2);
}

#[test]
fn archived_key_rollups_combine_per_key_in_key_order() {
    let mut catalog = TestTieredUsageCatalog::new("/c.json".to_string());
    let mut first = key_rollup("k2", "codex", 2, 10, 0, 100);
    first.credit_total = "0.5".to_string();
    let mut second = key_rollup("k2", "kiro", 1, 5, 0, 300);
    second.credit_total = "0.25".to_string();
    second.credit_missing_events = 1;
    catalog.publish_segment(segment("usage-1-000000000001", "/a", 0, 100, 2), vec![first], Vec::new(), &Vec::new());
    catalog.publish_segment(
        segment("usage-2-000000000002", "/b", 0, 300, 3),
        vec![second, key_rollup("k1", "codex", 4, 1, 0, 50)],
        Vec::new(),
        &Vec::new(),
    );
    let summaries = catalog.archived_key_usage_rollups();
    assert_eq!(summaries.len(), 2);
    assert_eq!(summaries[0].key_id, "k1");
    assert_eq!(summaries[1].key_id, "k2");
    assert_eq!(summaries[1].input_uncached_tokens, 15);
    assert_eq!(summaries[1].billable_tokens, 15);
    assert_eq!(summaries[1].credit_missing_events, 1);
    assert_eq!(summaries[1].last_used_at_ms, Some(300));
    assert_eq!(summaries[1].credit_parts, vec!["0.5".to_string(), "0.25".to_string()]);
    let credit_total: f64 = summaries[1].credit_parts.iter().map(|c| c.parse::<f64>().unwrap_or(0.0)).sum();
    assert_eq!(credit_total, 0.75);
}

#[test]
fn merge_key_rollup_saturates_and_keeps_later_use() {
    let mut combined = Vec::new();
    let summary = |key: &str, tokens: i64, last: Option<i64>| KeyUsageRollupSummary {
        key_id: key.to_string(),
        input_uncached_tokens: tokens,
        input_cached_tokens: 0,
        output_tokens: 0,
        billable_tokens: 0,
        credit_parts: Vec::new(),
        credit_missing_events: 0,
        last_used_at_ms: last,
    };
    merge_key_rollup(&mut combined, summary("b", i64::MAX, None));
    merge_key_rollup(&mut combined, summary("a", 1, Some(5)));
    merge_key_rollup(&mut combined, summary("b", 7, Some(9)));
    merge_key_rollup(&mut combined, summary("a", 2, None));
    assert_eq!(combined.len(), 2);
    assert_eq!(combined[0].key_id, "a");
    assert_eq!(combined[0].input_uncached_tokens, 3);
    assert_eq!(combined[0].last_used_at_ms, Some(5));
    assert_eq!(combined[1].input_uncached_tokens, i64::MAX);
    assert_eq!(combined[1].last_used_at_ms, Some(9));
}
