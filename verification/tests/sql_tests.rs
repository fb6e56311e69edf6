use llm_access_store::sql::insert_usage_event_sql;

#[test]
fn usage_insert_sql_targets_all_fact_columns_without_runtime_joins() {
    let sql = insert_usage_event_sql();
    let lower = sql.to_ascii_lowercase();

    assert!(sql.starts_with("INSERT INTO usage_events"));
    for column in [
        "source_seq",
        "source_event_id",
        "event_id",
        "created_at_ms",
        "provider_type",
        "protocol_family",
        "key_id",
        "key_name",
        "key_status_at_event",
        "account_name",
        "account_group_id_at_event",
        "route_strategy_at_event",
        "endpoint",
        "status_code",
        "upstream_headers_ms",
        "post_headers_body_ms",
        "first_sse_write_ms",
        "stream_finish_ms",
        "input_uncached_tokens",
        "input_cached_tokens",
        "output_tokens",
        "billable_tokens",
        "credit_usage",
        "usage_missing",
        "credit_usage_missing",
    ] {
        assert!(sql.contains(column), "missing column {column}");
    }
    assert!(!lower.contains(" join "));
}
