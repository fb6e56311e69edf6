use llm_access_store::codex_auth::{
    codex_access_token_is_still_usable, codex_cached_error_message, codex_disabled_expired_auth_error,
    codex_local_auth_error_message, CodexStatusErrorView,
};
use llm_access_store::catalog_state::TestTieredUsageCatalog;
use llm_access_store::model::{DuckDbUsageConnectionConfig, TieredDuckDbUsageConfig};
use llm_access_store::records::{codex_effective_route_weight_tier, non_negative_i64_to_u64, ProxyConfigScope};
use llm_access_store::repository::{
    single_file_prune_report, writer_needs_reopen, DuckDbUsageRepository, UsageCatalogBackend, UsageRepositoryMode,
};
use llm_access_store::sql::{
    compact_source_column_expr, compact_source_required_expr, contains_column, duckdb_compact_connection_sql,
    duckdb_mib_setting, duckdb_string_literal, duckdb_usage_connection_sql, join_strings, usage_event_column_expr,
    usage_event_expr, usage_event_filter_column_sql, usage_event_required_expr,
};
use llm_access_store::text::{concat2, ends_with, format_i64, format_u64, starts_with, str_equals, trim_string};

fn config() -> TieredDuckDbUsageConfig {
    TieredDuckDbUsageConfig {
        active_dir: "/data/active".to_string(),
        archive_dir: "/data/archive".to_string(),
        rollover_bytes: 1 << 20,
        details_dir: Some("/data/details".to_string()),
    }
}

const CONNECTION: DuckDbUsageConnectionConfig = DuckDbUsageConnectionConfig {
    memory_limit_mib: 512,
    checkpoint_threshold_mib: 64,
};

#[test]
fn proxy_scopes_distinguish_core_and_nodes() {
    let core = ProxyConfigScope::core_scope();
    assert_eq!(core.cache_key_segment(), "core");
    assert_eq!(core.scope_node_id(), Some("core".to_string()));
    assert!(core.can_edit_slot_metadata());
    let edge = ProxyConfigScope::node("edge-a".to_string());
    assert_eq!(edge.cache_key_segment(), "edge-a");
    assert_eq!(edge.scope_node_id(), Some("edge-a".to_string()));
    assert!(!edge.can_edit_slot_metadata());
}

#[test]
fn stored_values_clamp_at_zero() {
    assert_eq!(non_negative_i64_to_u64(-10), Some(0));
    assert_eq!(non_negative_i64_to_u64(256), Some(256));
}

#[test]
fn route_weight_tier_prefers_explicit_override() {
    assert_eq!(codex_effective_route_weight_tier(Some("pro"), Some(" PLUS ")), "plus");
    assert_eq!(codex_effective_route_weight_tier(Some("Pro"), Some("auto")), "pro5x");
    assert_eq!(codex_effective_route_weight_tier(Some("pro20x"), None), "pro20x");
    assert_eq!(codex_effective_route_weight_tier(Some("team"), Some("  ")), "free");
    assert_eq!(codex_effective_route_weight_tier(None, None), "free");
}

#[test]
fn single_file_repository_keeps_its_path() {
    let repo = DuckDbUsageRepository::open_path("/data/usage.duckdb");
    assert!(!repo.is_tiered());
    assert!(repo.connection_config.is_none());
    assert!(matches!(&repo.mode, UsageRepositoryMode::Single { path } if path == "/data/usage.duckdb"));
    let configured = DuckDbUsageRepository::open_path_with_connection_config("/x.duckdb", CONNECTION);
    assert_eq!(configured.connection_config, Some(CONNECTION));
    assert_eq!(single_file_prune_report(), Default::default());
}

#[test]
fn tiered_repository_reopens_the_greatest_active_file() {
    let names = vec![
        "usage-active-000000000002.duckdb".to_string(),
        "usage-active-000000000005.duckdb".to_string(),
    ];
    let repo = DuckDbUsageRepository::open_tiered(config(), TestTieredUsageCatalog::new("/c.json".to_string()), &names);
    assert!(repo.is_tiered());
    match &repo.mode {
        UsageRepositoryMode::Tiered { state, catalog, .. } => {
            assert_eq!(state.active_path, "/data/active/usage-active-000000000005.duckdb");
            assert_eq!(state.next_sequence, 6);
            assert!(state.active_has_rows);
            assert!(matches!(catalog, UsageCatalogBackend::File(_)));
        },
        UsageRepositoryMode::Single { .. } => panic!("expected tiered"),
    }
}

#[test]
fn tiered_repository_over_postgres_catalog_starts_after_catalog() {
    let repo = DuckDbUsageRepository::open_tiered_with_postgres_catalog_with_connection_config(
        config(),
        CONNECTION,
        "postgres://db",
        9,
        &Vec::new(),
    );
    assert_eq!(repo.connection_config, Some(CONNECTION));
    match &repo.mode {
        UsageRepositoryMode::Tiered { state, catalog, .. } => {
            assert_eq!(state.active_path, "/data/active/usage-active-000000000010.duckdb");
            assert_eq!(state.next_sequence, 11);
            assert!(!state.active_has_rows);
            assert!(matches!(catalog, UsageCatalogBackend::Postgres { database_url } if database_url == "postgres://db"));
        },
        UsageRepositoryMode::Single { .. } => panic!("expected tiered"),
    }
    let with_config = DuckDbUsageRepository::open_tiered_with_connection_config(
        config(),
        CONNECTION,
        TestTieredUsageCatalog::new("/c.json".to_string()),
        &Vec::new(),
    );
    assert_eq!(with_config.connection_config, Some(CONNECTION));
}

#[test]
fn writer_reopens_when_settings_change() {
    assert!(writer_needs_reopen(None, CONNECTION));
    assert!(!writer_needs_reopen(Some(CONNECTION), CONNECTION));
    let other = DuckDbUsageConnectionConfig { memory_limit_mib: 512, checkpoint_threshold_mib: 65 };
    assert!(writer_needs_reopen(Some(other), CONNECTION));
}

#[test]
fn sql_literals_and_settings() {
    assert_eq!(duckdb_string_literal("it's"), "'it''s'");
    assert_eq!(duckdb_string_literal(""), "''");
    assert_eq!(duckdb_mib_setting(512), "512MB");
    assert_eq!(duckdb_mib_setting(0), "1MB");
    let usage = duckdb_usage_connection_sql(&CONNECTION, "/tmp/duck");
    assert!(usage.contains("SET memory_limit='512MB';"));
    assert!(usage.contains("SET checkpoint_threshold='64MB';"));
    assert!(usage.contains("SET temp_directory='/tmp/duck';"));
    assert!(usage.contains("SET threads=1;"));
    let compact = duckdb_compact_connection_sql(DuckDbUsageConnectionConfig { memory_limit_mib: 0, checkpoint_threshold_mib: 0 }, "/t");
    assert!(compact.contains("SET memory_limit='1MB';"));
    assert!(compact.contains("SET temp_directory='/t';"));
    assert!(!compact.contains("checkpoint_threshold"));
}

#[test]
fn column_expressions_fall_back_when_missing() {
    let columns = vec!["model".to_string(), "endpoint".to_string()];
    assert!(contains_column(&columns, "model"));
    assert!(!contains_column(&columns, "latency_ms"));
    assert_eq!(usage_event_required_expr("event_id"), "e.event_id AS event_id");
    assert_eq!(compact_source_required_expr("event_id"), "e.event_id AS event_id");
    assert_eq!(usage_event_column_expr(&columns, "model", "NULL"), "e.model AS model");
    assert_eq!(usage_event_column_expr(&columns, "latency_ms", "NULL"), "NULL AS latency_ms");
    assert_eq!(compact_source_column_expr(&columns, "latency_ms", "NULL"), "NULL AS latency_ms");
    assert_eq!(usage_event_expr(&columns, "endpoint", "lower(e.endpoint)", "''"), "lower(e.endpoint) AS endpoint");
    assert_eq!(usage_event_filter_column_sql(&columns, "u", "model", "NULL"), "u.model");
    assert_eq!(usage_event_filter_column_sql(&columns, "u", "account_name", "NULL"), "NULL");
    assert_eq!(join_strings(&vec!["a".to_string(), "b".to_string(), "c".to_string()], ", "), "a, b, c");
    assert_eq!(join_strings(&Vec::new(), ", "), "");
}

#[test]
fn text_helpers() {
    assert_eq!(format_u64(0), "0");
    assert_eq!(format_u64(u64::MAX), "18446744073709551615");
    assert_eq!(format_i64(i64::MIN), "-9223372036854775808");
    assert_eq!(format_i64(-7), "-7");
    assert_eq!(trim_string("\t hi \n"), "hi");
    assert_eq!(concat2("ab", "cd"), "abcd");
    assert!(starts_with("usage-active-1", "usage-active-"));
    assert!(ends_with("x.duckdb", ".duckdb"));
    assert!(!ends_with("x.duck", ".duckdb"));
    assert!(str_equals("same", "same"));
    assert!(!str_equals("same", "sam"));
}

#[test]
fn codex_auth_errors_follow_refresh_and_expiry() {
    let expired = Some("codex auth refresh disabled and current access token expired".to_string());
    assert!(codex_access_token_is_still_usable(None, 100));
    assert!(codex_access_token_is_still_usable(Some(101), 100));
    assert!(!codex_access_token_is_still_usable(Some(100), 100));
    assert_eq!(codex_disabled_expired_auth_error(false, false), expired);
    assert_eq!(codex_disabled_expired_auth_error(true, false), None);
    assert_eq!(codex_disabled_expired_auth_error(false, true), None);
    assert_eq!(codex_local_auth_error_message(Some("boom"), true, false), Some("boom".to_string()));
    assert_eq!(codex_local_auth_error_message(None, true, false), None);
    assert_eq!(codex_local_auth_error_message(Some("boom"), false, true), None);
    assert_eq!(codex_local_auth_error_message(Some("boom"), false, false), Some("boom".to_string()));
    assert_eq!(codex_local_auth_error_message(None, false, false), expired);

    let failing = CodexStatusErrorView { usage_error_message: Some("quota".to_string()), last_usage_checked_at: Some(5) };
    assert_eq!(codex_cached_error_message(Some("boom"), Some(9), true, true, Some(&failing)), Some("quota".to_string()));
    let checked = CodexStatusErrorView { usage_error_message: None, last_usage_checked_at: Some(5) };
    assert_eq!(codex_cached_error_message(Some("boom"), Some(9), true, true, Some(&checked)), Some("boom".to_string()));
    assert_eq!(codex_cached_error_message(Some("boom"), Some(5), true, true, Some(&checked)), None);
    assert_eq!(codex_cached_error_message(Some("boom"), Some(1), false, false, Some(&checked)), expired);
    assert_eq!(codex_cached_error_message(Some("boom"), None, true, false, None), Some("boom".to_string()));
}
