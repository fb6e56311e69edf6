use llm_access_store::detail_pack::{
    detail_object_ref_from_columns, detail_ref_columns_present, pack_relative_path_for_rows, prepare_pack,
    DetailPackError,
};
use llm_access_store::digest::{detail_member_matches, gzip_compress, hash_bearer_secret, sha256_hex};
use llm_access_store::query::dedupe_usage_event_rows;
use llm_access_store::rollup_delta::aggregate_usage_rollup_deltas;
use llm_access_store::sql::{insert_usage_event_detail_sql, insert_usage_event_sql};
use llm_access_store::usage_row::{
    has_external_detail_payloads, usage_event_detail_insert_params, usage_event_insert_params, SqlValue,
    UsageEventDetailBlob, UsageEventDetailRow, UsageEventRow, UsageProxyAttribution,
};
use llm_access_store::writer::DuckDbUsageWriter;
use std::io::Read;

fn row(event_id: &str, key_id: &str, created_at_ms: i64) -> UsageEventRow {
    UsageEventRow {
        source_seq: 0,
        source_event_id: event_id.to_string(),
        event_id: event_id.to_string(),
        created_at_ms,
        provider_type: "codex".to_string(),
        protocol_family: "openai".to_string(),
        key_id: key_id.to_string(),
        key_name: "external".to_string(),
        key_status_at_event: "active".to_string(),
        account_name: None,
        account_group_id_at_event: None,
        route_strategy_at_event: None,
        request_method: "POST".to_string(),
        request_url: "https://ackingliu.top/v1/chat/completions".to_string(),
        endpoint: "/v1/chat/completions".to_string(),
        model: None,
        mapped_model: None,
        status_code: 200,
        latency_ms: None,
        routing_wait_ms: None,
        upstream_headers_ms: None,
        post_headers_body_ms: None,
        request_body_read_ms: None,
        request_json_parse_ms: None,
        pre_handler_ms: None,
        first_sse_write_ms: None,
        stream_finish_ms: None,
        stream_completed_cleanly: None,
        downstream_disconnect: None,
        final_event_type: None,
        bytes_streamed: None,
        request_body_bytes: None,
        quota_failover_count: 0,
        routing_diagnostics_json: None,
        input_uncached_tokens: 0,
        input_cached_tokens: 0,
        output_tokens: 0,
        billable_tokens: 0,
        credit_usage: None,
        usage_missing: false,
        credit_usage_missing: false,
        client_ip: Some("127.0.0.1".to_string()),
        ip_region: Some("local".to_string()),
        request_headers_json: "{}".to_string(),
        last_message_content: None,
        proxy_source_at_event: None,
        proxy_config_id_at_event: None,
        proxy_config_name_at_event: None,
        proxy_url_at_event: None,
        client_request_body_json: None,
        upstream_request_body_json: None,
        full_request_json: None,
        error_message: None,
        error_body: None,
        detail_object_payload_present: false,
        detail_object_path: None,
        detail_object_offset: None,
        detail_object_length: None,
        detail_object_sha256: None,
    }
}

#[test]
fn aggregate_usage_rollup_deltas_merges_events() {
    let mut first = row("evt-1", "key-1", 10);
    first.input_uncached_tokens = 10;
    first.input_cached_tokens = 1;
    first.output_tokens = 5;
    first.billable_tokens = 15;
    first.credit_usage = Some("1.25".to_string());
    let mut second = row("evt-2", "key-1", 25);
    second.input_uncached_tokens = 4;
    second.input_cached_tokens = 0;
    second.output_tokens = 1;
    second.billable_tokens = 5;
    second.credit_usage = Some("0.5".to_string());
    second.credit_usage_missing = true;
    let events = vec![first, second];

    let deltas = aggregate_usage_rollup_deltas(&events);
    assert_eq!(deltas.len(), 1);
    let (key_id, delta) = &deltas[0];
    assert_eq!(key_id, "key-1");
    assert_eq!(delta.input_uncached_tokens, 14);
    assert_eq!(delta.input_cached_tokens, 1);
    assert_eq!(delta.output_tokens, 6);
    assert_eq!(delta.billable_tokens, 20);
    let credit_total: f64 = delta
        .event_positions
        .iter()
        .map(|&i| events[i].credit_usage.as_deref().unwrap_or("0").parse::<f64>().expect("credit"))
        .sum();
    assert_eq!(credit_total, 1.75);
    assert_eq!(delta.credit_missing_events, 1);
    assert_eq!(delta.last_used_at_ms, 25);
}

#[test]
fn rollup_deltas_keep_first_seen_key_order_and_clamp() {
    let mut a = row("e1", "key-b", -5);
    a.output_tokens = -7;
    let mut b = row("e2", "key-a", 3);
    b.output_tokens = i64::MAX;
    let mut c = row("e3", "key-a", 1);
    c.output_tokens = 9;
    let deltas = aggregate_usage_rollup_deltas(&[a, b, c]);
    assert_eq!(deltas.len(), 2);
    assert_eq!(deltas[0].0, "key-b");
    assert_eq!(deltas[0].1.output_tokens, 0);
    assert_eq!(deltas[0].1.last_used_at_ms, 0);
    assert_eq!(deltas[1].0, "key-a");
    assert_eq!(deltas[1].1.output_tokens, i64::MAX);
    assert_eq!(deltas[1].1.last_used_at_ms, 3);
    assert_eq!(deltas[1].1.event_positions, vec![1, 2]);
}

#[test]
fn digests_are_lowercase_sha256_hex() {
    assert_eq!(sha256_hex(b"abc"), "ba7816bf8f01cfea414140de5dae2223b00361a396177a9cb410ff61f20015ad");
    assert_eq!(sha256_hex(b""), "e3b0c44298fc1c149afbf4c8996fb92427ae41e4649b934ca495991b7852b855");
    assert_eq!(hash_bearer_secret("abc"), sha256_hex(b"abc"));
    assert_ne!(hash_bearer_secret("abc"), "abc");
    assert!(detail_member_matches(b"abc", "ba7816bf8f01cfea414140de5dae2223b00361a396177a9cb410ff61f20015ad"));
    assert!(!detail_member_matches(b"abd", "ba7816bf8f01cfea414140de5dae2223b00361a396177a9cb410ff61f20015ad"));
}

fn gunzip(bytes: &[u8]) -> Vec<u8> {
    let mut out = Vec::new();
    flate2::read::GzDecoder::new(bytes).read_to_end(&mut out).expect("gunzip");
    out
}

#[test]
fn gzip_members_decompress_to_their_input() {
    let data = b"{\"request\":\"hello hello hello\"}".to_vec();
    let member = gzip_compress(&data).expect("gzip");
    assert_ne!(member, data);
    assert_eq!(gunzip(&member), data);
}

#[test]
fn external_payloads_need_non_blank_text() {
    assert!(!has_external_detail_payloads(&None, &Some("  ".to_string()), &None, &None));
    assert!(has_external_detail_payloads(&None, &None, &None, &Some("boom".to_string())));
    let mut r = row("e", "k", 0);
    r.full_request_json = Some("{}".to_string());
    let detail = UsageEventDetailRow::from_usage_event_row(&r);
    assert!(detail.has_external_payloads());
    let blob = UsageEventDetailBlob::from_detail_row(&detail);
    let back = blob.into_detail_row("e".to_string());
    assert_eq!(back.full_request_json.as_deref(), Some("{}"));
    assert_eq!(back.event_id, "e");
}

#[test]
fn proxy_attribution_fills_proxy_columns() {
    let attribution = UsageProxyAttribution {
        provider_type: "codex".to_string(),
        account_name: "acct".to_string(),
        proxy_source: "fixed".to_string(),
        proxy_config_id: Some("p1".to_string()),
        proxy_config_name: None,
        proxy_url: Some("http://proxy".to_string()),
    };
    let r = row("e", "k", 0).with_proxy_attribution(Some(&attribution));
    assert_eq!(r.proxy_source_at_event.as_deref(), Some("fixed"));
    assert_eq!(r.proxy_config_id_at_event.as_deref(), Some("p1"));
    assert_eq!(r.proxy_config_name_at_event, None);
    assert_eq!(r.proxy_url_at_event.as_deref(), Some("http://proxy"));
    let unchanged = row("e", "k", 0).with_proxy_attribution(None);
    assert_eq!(unchanged.proxy_source_at_event, None);
}

#[test]
fn insert_params_follow_column_order() {
    let mut r = row("evt-9", "key-9", 42);
    r.model = Some("gpt".to_string());
    let params = usage_event_insert_params(&r);
    assert_eq!(params.len(), 54);
    assert!(matches!(&params[0], SqlValue::Integer(0)));
    assert!(matches!(&params[2], SqlValue::Text(t) if t == "evt-9"));
    assert!(matches!(&params[3], SqlValue::Integer(42)));
    assert!(matches!(&params[9], SqlValue::Null));
    assert!(matches!(&params[15], SqlValue::Text(t) if t == "gpt"));
    let detail = usage_event_detail_insert_params(&r);
    assert_eq!(detail.len(), 9);
    assert!(matches!(&detail[0], SqlValue::Text(t) if t == "evt-9"));
}

#[test]
fn writer_queues_one_transaction_per_batch() {
    let mut writer = DuckDbUsageWriter::new();
    writer.insert_usage_events(&[]);
    assert!(writer.pending.is_empty());
    writer.insert_usage_events(&[row("a", "k", 1), row("b", "k", 2)]);
    writer.insert_usage_event(&row("c", "k", 3));
    writer.insert_usage_event_summaries_only(&[row("d", "k", 4)]);
    let pending = writer.take_pending();
    assert!(writer.pending.is_empty());
    assert_eq!(pending.len(), 3);
    assert_eq!(pending[0].statements.len(), 4);
    assert_eq!(pending[0].statements[0].sql, insert_usage_event_sql());
    assert_eq!(pending[0].statements[1].sql, insert_usage_event_detail_sql());
    assert!(matches!(&pending[0].statements[2].params[2], SqlValue::Text(t) if t == "b"));
    assert_eq!(pending[1].statements.len(), 2);
    assert_eq!(pending[2].statements.len(), 1);
    assert_eq!(pending[2].statements[0].params.len(), 54);
}

#[test]
fn dedupe_keeps_first_occurrence() {
    let mut dup = row("a", "k2", 9);
    dup.key_name = "second".to_string();
    let rows = vec![row("a", "k", 1), row("b", "k", 2), dup, row("c", "k", 3)];
    let out = dedupe_usage_event_rows(&rows);
    let ids: Vec<&str> = out.iter().map(|r| r.event_id.as_str()).collect();
    assert_eq!(ids, vec!["a", "b", "c"]);
    assert_eq!(out[0].key_name, "external");
}

#[test]
fn pack_path_uses_first_flagged_row() {
    let mut first = row("evt-1", "k", 1_704_153_600_000);
    first.provider_type = "kiro".to_string();
    let mut flagged = row("evt-2", "k", 0);
    flagged.detail_object_payload_present = true;
    let pack = b"pack-bytes".to_vec();
    let digest = sha256_hex(&pack);
    assert_eq!(
        pack_relative_path_for_rows(&vec![first.clone(), flagged.clone()], &pack),
        format!("packs/codex/1970/01/01/evt-2-{}.detailpack-v1", &digest[..16])
    );
    assert_eq!(
        pack_relative_path_for_rows(&vec![first], &pack),
        format!("packs/kiro/2024/01/02/evt-1-{}.detailpack-v1", &digest[..16])
    );
}

#[test]
fn prepare_pack_stores_each_member_once() {
    let mut a = row("evt-a", "k", 1_704_153_600_000);
    a.client_request_body_json = Some("{\"x\":1}".to_string());
    let mut b = row("evt-b", "k", 1_704_153_600_001);
    b.detail_object_path = Some("stale".to_string());
    let mut c = row("evt-c", "k", 1_704_153_600_002);
    c.client_request_body_json = Some("{\"x\":1}".to_string());
    let blob = b"{\"client_request_body_json\":\"{\\\"x\\\":1}\"}".to_vec();
    let mut rows = vec![a, b, c];
    let written = prepare_pack(&mut rows, &vec![blob.clone(), Vec::new(), blob.clone()])
        .expect("pack")
        .expect("pack has members");
    assert!(rows[0].detail_object_payload_present);
    assert!(!rows[1].detail_object_payload_present);
    assert_eq!(rows[1].detail_object_path, None);
    assert_eq!(rows[0].detail_object_offset, Some(0));
    assert_eq!(rows[2].detail_object_offset, Some(0));
    let length = rows[0].detail_object_length.expect("length") as usize;
    assert_eq!(rows[2].detail_object_length, Some(length as i64));
    assert_eq!(written.bytes.len(), length);
    assert_eq!(gunzip(&written.bytes[0..length]), blob);
    let sha = rows[0].detail_object_sha256.clone().expect("sha");
    assert!(detail_member_matches(&written.bytes[0..length], &sha));
    assert_eq!(rows[0].detail_object_path.as_deref(), Some(written.relative_path.as_str()));
    assert!(written.relative_path.starts_with("packs/codex/2024/01/02/evt-a-"));
}

#[test]
fn prepare_pack_without_payloads_writes_nothing() {
    let mut rows = vec![row("a", "k", 1)];
    let result = prepare_pack(&mut rows, &vec![Vec::new()]);
    assert_eq!(result.map(|w| w.is_none()), Ok(true));
    assert!(!rows[0].detail_object_payload_present);
    let error = DetailPackError::EncodeFailed { event_id: "x".to_string() };
    assert_ne!(error, DetailPackError::PackTooLarge);
}

#[test]
fn detail_refs_need_all_columns_and_valid_range() {
    let cols: Vec<String> = ["detail_object_path", "detail_object_offset", "detail_object_length", "detail_object_sha256"]
        .iter()
        .map(|s| s.to_string())
        .collect();
    assert!(detail_ref_columns_present(&cols));
    assert!(!detail_ref_columns_present(&cols[..3].to_vec()));
    let found = detail_object_ref_from_columns(Some("p".to_string()), Some(10), Some(5), Some("h".to_string()))
        .expect("reference");
    assert_eq!((found.byte_start, found.byte_end), (10, 15));
    assert!(detail_object_ref_from_columns(Some(" ".to_string()), Some(10), Some(5), Some("h".to_string())).is_none());
    assert!(detail_object_ref_from_columns(Some("p".to_string()), Some(-1), Some(5), Some("h".to_string())).is_none());
    assert!(detail_object_ref_from_columns(Some("p".to_string()), Some(0), Some(0), Some("h".to_string())).is_none());
    assert!(detail_object_ref_from_columns(Some("p".to_string()), None, Some(5), Some("h".to_string())).is_none());
}

#[test]
fn summaries_only_write_matches_full_write_on_the_fact_table() {
    let rows = [row("a", "k", 1), row("b", "k", 2), row("c", "k2", 3)];
    let mut full = DuckDbUsageWriter::new();
    full.insert_usage_events(&rows);
    let mut facts = DuckDbUsageWriter::new();
    facts.insert_usage_event_summaries_only(&rows);
    let full = full.take_pending();
    let facts = facts.take_pending();
    assert_eq!(full.len(), 1);
    assert_eq!(facts.len(), 1);
    let full_facts: Vec<String> = full[0]
        .statements
        .iter()
        .filter(|s| s.sql != insert_usage_event_detail_sql())
        .map(|s| format!("{}|{:?}", s.sql, s.params))
        .collect();
    let only_facts: Vec<String> = facts[0].statements.iter().map(|s| format!("{}|{:?}", s.sql, s.params)).collect();
    assert_eq!(full_facts, only_facts);
    assert_eq!(only_facts.len(), 3);
}
