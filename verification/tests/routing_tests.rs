use llm_access_store::codex_auth::CodexStatusErrorView;
use llm_access_store::codex_route::{
    resolve_codex_account_route, resolve_codex_route_candidates, CodexAccountRouteView, CodexRouteSnapshot,
    RouteStrategy,
};
use llm_access_store::digest::gzip_compress;
use llm_access_store::event_decode::{
    decode_usage_event_row, StorageVocabulary, UsageDecodeError, UsageEventColumns, UsageStreamColumns,
    UsageTimingColumns,
};
use llm_access_store::usage_row::UsageEventRow;
use llm_access_store::kiro_view_cache::{plan_kiro_account_view_load, plan_without_cache};
use llm_access_store::model::DuckDbUsageConnectionConfig;

fn strings(values: &[&str]) -> Vec<String> {
    values.iter().map(|v| v.to_string()).collect()
}

fn vocabulary() -> StorageVocabulary {
    StorageVocabulary {
        provider_types: strings(&["codex", "kiro"]),
        protocol_families: strings(&["openai", "anthropic"]),
        route_strategies: strings(&["auto", "fixed"]),
    }
}

fn timing() -> UsageTimingColumns {
    UsageTimingColumns {
        latency_ms: Some(120),
        routing_wait_ms: None,
        upstream_headers_ms: Some(30),
        post_headers_body_ms: None,
        request_body_read_ms: None,
        request_json_parse_ms: None,
        pre_handler_ms: None,
        first_sse_write_ms: None,
        stream_finish_ms: Some(90),
    }
}

fn columns() -> UsageEventColumns {
    UsageEventColumns {
        event_id: "evt-1".to_string(),
        created_at_ms: 1_700_000_000_000,
        provider_type: "codex".to_string(),
        protocol_family: "openai".to_string(),
        key_id: "key-1".to_string(),
        key_name: "external".to_string(),
        account_name: Some("acct-a".to_string()),
        account_group_id_at_event: None,
        route_strategy_at_event: Some("fixed".to_string()),
        request_method: "POST".to_string(),
        request_url: "https://example.test/v1/chat/completions".to_string(),
        endpoint: "/v1/chat/completions".to_string(),
        model: Some("gpt-5".to_string()),
        mapped_model: None,
        status_code: 200,
        request_body_bytes: Some(512),
        quota_failover_count: -3,
        routing_diagnostics_json: None,
        input_uncached_tokens: 10,
        input_cached_tokens: 1,
        output_tokens: 5,
        billable_tokens: 15,
        credit_usage: Some("1.25".to_string()),
        usage_missing: false,
        credit_usage_missing: false,
        timing: timing(),
        stream: stream(),
        client_ip: None,
        ip_region: Some("local".to_string()),
        last_message_content: Some("hi".to_string()),
        request_headers_json: None,
        client_request_body_json: Some("{\"a\":1}".to_string()),
        upstream_request_body_json: Some("{\"b\":2}".to_string()),
        full_request_json: None,
        error_message: Some("upstream failed".to_string()),
        error_body: Some("{\"error\":1}".to_string()),
    }
}

fn stream() -> UsageStreamColumns {
    UsageStreamColumns {
        stream_completed_cleanly: Some(true),
        downstream_disconnect: Some(false),
        final_event_type: Some("message_stop".to_string()),
        bytes_streamed: Some(2048),
    }
}

#[test]
fn decoding_a_summary_row_applies_defaults_and_drops_payloads() {
    let event = decode_usage_event_row(columns(), &vocabulary(), false).expect("decodes");
    assert_eq!(event.event_id, "evt-1");
    assert_eq!(event.provider_type, "codex");
    assert_eq!(event.route_strategy_at_event.as_deref(), Some("fixed"));
    assert_eq!(event.quota_failover_count, 0);
    assert_eq!(event.client_ip, "unknown");
    assert_eq!(event.ip_region, "local");
    assert_eq!(event.request_headers_json, "{}");
    assert_eq!(event.client_request_body_json, None);
    assert_eq!(event.upstream_request_body_json, None);
    assert_eq!(event.last_message_content.as_deref(), Some("hi"));
    assert_eq!(event.timing, timing());
    assert_eq!(event.stream, stream());
    assert_eq!(event.error_message, None);
    assert_eq!(event.error_body, None);
}

#[test]
fn decoding_a_detail_row_keeps_payloads() {
    let mut c = columns();
    c.request_headers_json = Some("{\"x\":\"y\"}".to_string());
    c.quota_failover_count = 7;
    let event = decode_usage_event_row(c, &vocabulary(), true).expect("decodes");
    assert_eq!(event.request_headers_json, "{\"x\":\"y\"}");
    assert_eq!(event.client_request_body_json.as_deref(), Some("{\"a\":1}"));
    assert_eq!(event.upstream_request_body_json.as_deref(), Some("{\"b\":2}"));
    assert_eq!(event.quota_failover_count, 7);
    assert_eq!(event.error_message.as_deref(), Some("upstream failed"));
    assert_eq!(event.error_body.as_deref(), Some("{\"error\":1}"));

    let event = decode_usage_event_row(columns(), &vocabulary(), true).expect("decodes");
    assert_eq!(event.request_headers_json, "{}");
}

#[test]
fn decoding_rejects_unknown_stored_names_in_column_order() {
    let mut c = columns();
    c.provider_type = "mystery".to_string();
    c.protocol_family = "nope".to_string();
    let error = decode_usage_event_row(c, &vocabulary(), false).unwrap_err();
    assert_eq!(error, UsageDecodeError::InvalidProviderType { value: "mystery".to_string() });
    assert_eq!(error.column(), 2);
    assert_eq!(error.message(), "invalid provider_type `mystery`");

    let mut c = columns();
    c.protocol_family = "nope".to_string();
    let error = decode_usage_event_row(c, &vocabulary(), false).unwrap_err();
    assert_eq!(error.column(), 3);
    assert_eq!(error.message(), "invalid protocol_family `nope`");

    let mut c = columns();
    c.route_strategy_at_event = Some("random".to_string());
    let error = decode_usage_event_row(c, &vocabulary(), false).unwrap_err();
    assert_eq!(error.column(), 8);
    assert_eq!(error.message(), "invalid route_strategy_at_event `random`");

    let mut c = columns();
    c.route_strategy_at_event = None;
    assert!(decode_usage_event_row(c, &vocabulary(), false).is_ok());
}

fn snapshot(provider: &str, strategy: &str, names: &[&str]) -> CodexRouteSnapshot {
    CodexRouteSnapshot {
        key_provider_type: provider.to_string(),
        route_strategy: strategy.to_string(),
        account_group_id_at_event: Some("group-1".to_string()),
        selected_account_names: strings(names),
        codex_fast_enabled: true,
        request_max_concurrency: Some(4),
        request_min_start_interval_ms: None,
    }
}

fn view(name: &str, status: &str) -> CodexAccountRouteView {
    CodexAccountRouteView {
        account_name: name.to_string(),
        status: status.to_string(),
        last_error: None,
        last_refresh_at_ms: None,
        auth_refresh_enabled: true,
        map_gpt53_codex_to_spark: false,
        request_max_concurrency: Some(2),
        request_min_start_interval_ms: Some(50),
        token_is_usable: true,
    }
}

#[test]
fn codex_candidates_follow_selected_order_and_skip_inactive_or_unknown() {
    let views = vec![view("b", "active"), view("a", "active"), view("c", "disabled")];
    let statuses = vec![(
        "a".to_string(),
        CodexStatusErrorView { usage_error_message: Some("quota exhausted".to_string()), last_usage_checked_at: Some(5) },
    )];
    let routes =
        resolve_codex_route_candidates(&snapshot("codex", "fixed", &["a", "missing", "c", "b"]), &views, &statuses);
    assert_eq!(routes.len(), 2);
    assert_eq!(routes[0].account_name, "a");
    assert_eq!(routes[0].view_index, 1);
    assert_eq!(routes[0].cached_error_message.as_deref(), Some("quota exhausted"));
    assert_eq!(routes[0].route_strategy_at_event, RouteStrategy::Fixed);
    assert_eq!(routes[0].account_group_id_at_event.as_deref(), Some("group-1"));
    assert_eq!(routes[0].request_max_concurrency, Some(4));
    assert_eq!(routes[0].account_request_max_concurrency, Some(2));
    assert_eq!(routes[0].account_request_min_start_interval_ms, Some(50));
    assert!(routes[0].codex_fast_enabled);
    assert_eq!(routes[1].account_name, "b");
    assert_eq!(routes[1].view_index, 0);
    assert_eq!(routes[1].cached_error_message, None);
}

#[test]
fn codex_candidates_need_a_codex_key_and_default_to_auto() {
    let views = vec![view("a", "active")];
    assert!(resolve_codex_route_candidates(&snapshot("kiro", "auto", &["a"]), &views, &Vec::new()).is_empty());
    let routes = resolve_codex_route_candidates(&snapshot("codex", "weighted", &["a"]), &views, &Vec::new());
    assert_eq!(routes.len(), 1);
    assert_eq!(routes[0].route_strategy_at_event, RouteStrategy::Auto);
}

#[test]
fn codex_candidate_shows_expired_token_error_when_refresh_is_off() {
    let mut v = view("a", "active");
    v.auth_refresh_enabled = false;
    v.token_is_usable = false;
    let routes = resolve_codex_route_candidates(&snapshot("codex", "auto", &["a"]), &vec![v], &Vec::new());
    assert_eq!(
        routes[0].cached_error_message.as_deref(),
        Some("codex auth refresh disabled and current access token expired")
    );
}

#[test]
fn kiro_view_cache_plan_splits_hits_by_generation() {
    let names = strings(&["a", "b", "c", "d"]);
    let plan = plan_kiro_account_view_load(&names, &vec![Some(7), Some(6), None, Some(7)], 7);
    assert_eq!(plan.hits, vec![("a".to_string(), 0), ("d".to_string(), 3)]);
    assert_eq!(plan.missing, strings(&["b", "c"]));

    let failed_read = plan_kiro_account_view_load(&names, &vec![None; 4], 7);
    assert!(failed_read.hits.is_empty());
    assert_eq!(failed_read.missing, names);

    let without_cache = plan_without_cache(&names);
    assert!(without_cache.hits.is_empty());
    assert_eq!(without_cache.missing, names);
}

#[test]
fn connection_config_from_runtime_config_clamps() {
    let config = DuckDbUsageConnectionConfig::from_admin_runtime_config(0, 16, 64);
    assert_eq!(config.memory_limit_mib, 1);
    assert_eq!(config.checkpoint_threshold_mib, 64);
    let config = DuckDbUsageConnectionConfig::from_admin_runtime_config(512, 128, 64);
    assert_eq!(config.memory_limit_mib, 512);
    assert_eq!(config.checkpoint_threshold_mib, 128);
}

#[test]
fn gzip_compress_always_yields_a_member() {
    let member = gzip_compress(b"detail payload").expect("gzip");
    assert_eq!(&member[..2], &[0x1f, 0x8b]);
    assert!(gzip_compress(b"").is_some());
}

#[test]
fn fact_row_from_event_fills_latency_and_payload_flag() {
    let mut c = columns();
    c.timing.latency_ms = None;
    c.timing.stream_finish_ms = None;
    c.timing.upstream_headers_ms = Some(30);
    c.timing.post_headers_body_ms = Some(45);
    let mut event = decode_usage_event_row(c, &vocabulary(), true).expect("decodes");
    event.quota_failover_count = u64::MAX;
    let row = UsageEventRow::from_usage_event(&event);
    assert_eq!(row.source_seq, 0);
    assert_eq!(row.source_event_id, "evt-1");
    assert_eq!(row.key_status_at_event, "active");
    assert_eq!(row.latency_ms, Some(75));
    assert_eq!(row.quota_failover_count, i64::MAX);
    assert_eq!(row.client_ip.as_deref(), Some("unknown"));
    assert_eq!(row.final_event_type.as_deref(), Some("message_stop"));
    assert!(row.detail_object_payload_present);
    assert_eq!(row.detail_object_path, None);

    let mut quiet = event.clone();
    quiet.client_request_body_json = Some("   ".to_string());
    quiet.upstream_request_body_json = None;
    quiet.full_request_json = None;
    quiet.error_body = None;
    quiet.timing.latency_ms = Some(9);
    quiet.quota_failover_count = 2;
    let row = UsageEventRow::from_usage_event(&quiet);
    assert!(!row.detail_object_payload_present);
    assert_eq!(row.latency_ms, Some(9));
    assert_eq!(row.quota_failover_count, 2);

    let mut saturating = event.clone();
    saturating.timing.upstream_headers_ms = Some(i64::MAX);
    let row = UsageEventRow::from_usage_event(&saturating);
    assert_eq!(row.latency_ms, Some(i64::MAX));
}

fn columns_of_row(row: &UsageEventRow) -> UsageEventColumns {
    UsageEventColumns {
        event_id: row.event_id.clone(),
        created_at_ms: row.created_at_ms,
        provider_type: row.provider_type.clone(),
        protocol_family: row.protocol_family.clone(),
        key_id: row.key_id.clone(),
        key_name: row.key_name.clone(),
        account_name: row.account_name.clone(),
        account_group_id_at_event: row.account_group_id_at_event.clone(),
        route_strategy_at_event: row.route_strategy_at_event.clone(),
        request_method: row.request_method.clone(),
        request_url: row.request_url.clone(),
        endpoint: row.endpoint.clone(),
        model: row.model.clone(),
        mapped_model: row.mapped_model.clone(),
        status_code: row.status_code,
        request_body_bytes: row.request_body_bytes,
        quota_failover_count: row.quota_failover_count,
        routing_diagnostics_json: row.routing_diagnostics_json.clone(),
        input_uncached_tokens: row.input_uncached_tokens,
        input_cached_tokens: row.input_cached_tokens,
        output_tokens: row.output_tokens,
        billable_tokens: row.billable_tokens,
        credit_usage: row.credit_usage.clone(),
        usage_missing: row.usage_missing,
        credit_usage_missing: row.credit_usage_missing,
        timing: UsageTimingColumns {
            latency_ms: row.latency_ms,
            routing_wait_ms: row.routing_wait_ms,
            upstream_headers_ms: row.upstream_headers_ms,
            post_headers_body_ms: row.post_headers_body_ms,
            request_body_read_ms: row.request_body_read_ms,
            request_json_parse_ms: row.request_json_parse_ms,
            pre_handler_ms: row.pre_handler_ms,
            first_sse_write_ms: row.first_sse_write_ms,
            stream_finish_ms: row.stream_finish_ms,
        },
        stream: UsageStreamColumns {
            stream_completed_cleanly: row.stream_completed_cleanly,
            downstream_disconnect: row.downstream_disconnect,
            final_event_type: row.final_event_type.clone(),
            bytes_streamed: row.bytes_streamed,
        },
        client_ip: row.client_ip.clone(),
        ip_region: row.ip_region.clone(),
        last_message_content: row.last_message_content.clone(),
        request_headers_json: Some(row.request_headers_json.clone()),
        client_request_body_json: row.client_request_body_json.clone(),
        upstream_request_body_json: row.upstream_request_body_json.clone(),
        full_request_json: row.full_request_json.clone(),
        error_message: row.error_message.clone(),
        error_body: row.error_body.clone(),
    }
}

#[test]
fn written_event_reads_back_from_its_fact_row() {
    let mut c = columns();
    c.request_headers_json = Some("{\"h\":1}".to_string());
    c.quota_failover_count = 4;
    let event = decode_usage_event_row(c, &vocabulary(), true).expect("decodes");
    let row = UsageEventRow::from_usage_event(&event);
    let back = decode_usage_event_row(columns_of_row(&row), &vocabulary(), true).expect("reads back");
    assert_eq!(back.event_id, event.event_id);
    assert_eq!(back.client_ip, event.client_ip);
    assert_eq!(back.request_headers_json, event.request_headers_json);
    assert_eq!(back.quota_failover_count, event.quota_failover_count);
    assert_eq!(back.timing, event.timing);
    assert_eq!(back.stream, event.stream);
    assert_eq!(back.client_request_body_json, event.client_request_body_json);
    assert_eq!(back.error_body, event.error_body);
    assert_eq!(back.route_strategy_at_event, event.route_strategy_at_event);
    assert_eq!(back.credit_usage, event.credit_usage);
}

#[test]
fn codex_account_route_needs_an_active_view_and_credentials() {
    let mut a = view("a", "active");
    a.auth_refresh_enabled = false;
    a.token_is_usable = false;
    a.last_error = Some("refresh failed".to_string());
    let views = vec![a, view("b", "disabled")];
    let statuses = vec![(
        "a".to_string(),
        CodexStatusErrorView { usage_error_message: None, last_usage_checked_at: Some(100) },
    )];
    let route = resolve_codex_account_route("a", &views, &statuses, true).expect("route");
    assert_eq!(route.view_index, 0);
    assert_eq!(route.route_strategy_at_event, RouteStrategy::Auto);
    assert!(route.codex_fast_enabled);
    assert_eq!(route.account_group_id_at_event, None);
    assert_eq!(route.request_max_concurrency, None);
    assert_eq!(route.account_request_max_concurrency, Some(2));
    assert_eq!(
        route.cached_error_message.as_deref(),
        Some("codex auth refresh disabled and current access token expired")
    );
    assert!(resolve_codex_account_route("a", &views, &statuses, false).is_none());
    assert!(resolve_codex_account_route("b", &views, &statuses, true).is_none());
    assert!(resolve_codex_account_route("c", &views, &statuses, true).is_none());
}
