use llm_access_store::json_fields::{json_count, json_flag, json_integer, json_text, parse_json_fields};
use llm_access_store::kiro_admin::{
    admin_kiro_account_from_list_row_with_context, admin_kiro_account_from_record_with_context, kiro_account_proxy_choice,
    kiro_auth_fields, kiro_list_row_proxy_choice, resolve_admin_kiro_account_route, resolve_kiro_account_proxy_view,
    KiroAdminAccountListRow, KiroBalance, KiroCachedCache, KiroChannelDefaults, KiroProxyConfigFacts, KiroProxyView,
    KiroRouteError,
};
use llm_access_store::kiro_view_cache::{build_cached_kiro_account_view, resolve_kiro_account_route, KiroRouteCandidateRow};
use llm_access_store::codex_route::RouteStrategy;
use llm_access_store::proxy_resolution::{
    AdminProxyConfigFacts, ProviderProxyResolutionContext, ProxyBindingFacts, ProxyResolutionError,
};
use llm_access_store::records::{KiroAccountRecord, RuntimeConfigRecord};

fn record(status: &str, proxy_config_id: Option<&str>) -> KiroAccountRecord {
    KiroAccountRecord {
        account_name: "kiro-a".to_string(),
        auth_method: "idc".to_string(),
        account_id: None,
        profile_arn: None,
        user_id: Some("user-1".to_string()),
        status: status.to_string(),
        auth_json: "{}".to_string(),
        max_concurrency: Some(-3),
        min_start_interval_ms: None,
        proxy_config_id: proxy_config_id.map(|s| s.to_string()),
        last_refresh_at_ms: None,
        last_error: Some("last boom".to_string()),
        created_at_ms: 1,
        updated_at_ms: 2,
    }
}

const DEFAULTS: KiroChannelDefaults = KiroChannelDefaults { max_concurrency: 4, min_start_interval_ms: 250 };

fn binding() -> KiroProxyView {
    KiroProxyView { source: "binding".to_string(), proxy_url: Some("http://bound".to_string()), config_name: None }
}

#[test]
fn json_fields_read_trimmed_text_flags_and_counts() {
    let fields = parse_json_fields(r#"{"a":"  x ","b":"  ","c":true,"n":-5,"m":7,"f":1.5}"#).expect("json");
    assert_eq!(json_text(&fields, "a"), Some("x".to_string()));
    assert_eq!(json_text(&fields, "b"), None);
    assert_eq!(json_text(&fields, "c"), None);
    assert_eq!(json_flag(&fields, "c"), Some(true));
    assert_eq!(json_count(&fields, "n"), Some(0));
    assert_eq!(json_count(&fields, "m"), Some(7));
    assert_eq!(json_integer(&fields, "n"), Some(-5));
    assert_eq!(json_count(&fields, "f"), None);
    assert!(parse_json_fields("not json").is_none());
    assert!(parse_json_fields("[1,2]").expect("array").is_empty());
}

#[test]
fn kiro_auth_fields_prefer_camel_case() {
    let auth = kiro_auth_fields(
        r#"{"apiRegion":"eu-west-1","api_region":"x","region":"us-west-2","disabled":false,
            "refresh_token":"rt","proxyMode":" fixed ","proxy_config_id":"p9",
            "kiroChannelMaxConcurrency":0,"lastImportedAt":12,"email":"a@b.c"}"#,
    )
    .expect("json");
    assert_eq!(auth.api_region.as_deref(), Some("eu-west-1"));
    assert_eq!(auth.region.as_deref(), Some("us-west-2"));
    assert_eq!(auth.disabled, Some(false));
    assert!(auth.has_refresh_token);
    assert_eq!(auth.proxy_mode.as_deref(), Some("fixed"));
    assert_eq!(auth.proxy_config_id.as_deref(), Some("p9"));
    assert_eq!(auth.max_concurrency, Some(0));
    assert_eq!(auth.last_imported_at, Some(12));
    assert_eq!(auth.email.as_deref(), Some("a@b.c"));
    assert!(kiro_auth_fields("{").is_none());
}

#[test]
fn proxy_choice_and_effective_proxy() {
    let auth = kiro_auth_fields("{}").expect("json");
    assert_eq!(kiro_account_proxy_choice(&record("active", Some("p1")), &auth), ("fixed".to_string(), Some("p1".to_string())));
    assert_eq!(kiro_account_proxy_choice(&record("active", None), &auth), ("inherit".to_string(), None));
    let active = KiroProxyConfigFacts { name: "slot".to_string(), proxy_url: "http://p".to_string(), status: "active".to_string() };
    let paused = KiroProxyConfigFacts { status: "paused".to_string(), ..active.clone() };
    let fixed = resolve_kiro_account_proxy_view("fixed", Some("p1"), Some(&active), &binding());
    assert_eq!((fixed.source.as_str(), fixed.proxy_url.as_deref(), fixed.config_name.as_deref()), ("fixed", Some("http://p"), Some("slot")));
    let invalid = resolve_kiro_account_proxy_view("fixed", Some("p1"), Some(&paused), &binding());
    assert_eq!((invalid.source.as_str(), invalid.proxy_url.as_deref(), invalid.config_name.as_deref()), ("invalid", None, Some("slot")));
    assert_eq!(resolve_kiro_account_proxy_view("fixed", None, Some(&active), &binding()).source, "invalid");
    assert_eq!(resolve_kiro_account_proxy_view("none", None, None, &binding()).source, "none");
    assert_eq!(resolve_kiro_account_proxy_view("inherit", None, None, &binding()).proxy_url.as_deref(), Some("http://bound"));
}

#[test]
fn admin_view_from_record_hides_balance_when_disabled() {
    let auth = kiro_auth_fields(r#"{"disabled":true,"subscriptionTitle":"Pro","profile_arn":"arn:x"}"#).expect("json");
    let balance = KiroBalance { user_id: Some("up-1".to_string()), subscription_title: Some("Power".to_string()), details: 42u32 };
    let view = admin_kiro_account_from_record_with_context(
        &record("active", None),
        &auth,
        Some((Some(balance.clone()), "cached")),
        "default",
        binding(),
        DEFAULTS,
    );
    assert!(view.disabled);
    assert!(view.balance.is_none());
    assert_eq!(view.cache, "cached");
    assert_eq!(view.subscription_title.as_deref(), Some("Pro"));
    assert_eq!(view.upstream_user_id.as_deref(), Some("user-1"));
    assert_eq!(view.disabled_reason.as_deref(), Some("last boom"));
    assert_eq!(view.profile_arn.as_deref(), Some("arn:x"));
    assert_eq!(view.kiro_channel_max_concurrency, 1);
    assert_eq!(view.kiro_channel_min_start_interval_ms, 250);

    let enabled = kiro_auth_fields("{}").expect("json");
    let shown = admin_kiro_account_from_record_with_context(
        &record("active", None),
        &enabled,
        Some((Some(balance), "cached")),
        "default",
        binding(),
        DEFAULTS,
    );
    assert!(!shown.disabled);
    assert_eq!(shown.balance.as_ref().map(|b| b.details), Some(42));
    assert_eq!(shown.upstream_user_id.as_deref(), Some("up-1"));
    assert_eq!(shown.subscription_title.as_deref(), Some("Power"));
    let missing = admin_kiro_account_from_record_with_context::<u32, &str>(
        &record("disabled", None),
        &enabled,
        None,
        "default",
        binding(),
        DEFAULTS,
    );
    assert!(missing.disabled);
    assert_eq!(missing.cache, "default");
}

fn list_row() -> KiroAdminAccountListRow {
    KiroAdminAccountListRow {
        account_name: "kiro-b".to_string(),
        auth_method: "social".to_string(),
        profile_arn: None,
        user_id: None,
        status: "active".to_string(),
        provider: Some("Google".to_string()),
        email: None,
        expires_at: None,
        auth_profile_arn: Some("arn:auth".to_string()),
        has_refresh_token: true,
        disabled_json: false,
        disabled_reason: None,
        source: None,
        source_db_path: None,
        last_imported_at: None,
        subscription_title: Some("Free".to_string()),
        region: None,
        auth_region: None,
        api_region: None,
        machine_id: None,
        max_concurrency: None,
        auth_max_concurrency: Some(9),
        min_start_interval_ms: Some(-1),
        auth_min_start_interval_ms: Some(77),
        proxy_mode: None,
        proxy_config_id: None,
        auth_proxy_config_id: Some("p2".to_string()),
        proxy_url: None,
        last_error: None,
    }
}

#[test]
fn admin_view_from_list_row_uses_payload_fallbacks() {
    let row = list_row();
    assert_eq!(kiro_list_row_proxy_choice(&row), ("fixed".to_string(), Some("p2".to_string())));
    let view = admin_kiro_account_from_list_row_with_context::<u32, &str>(&row, None, "default", binding(), DEFAULTS);
    assert!(!view.disabled);
    assert_eq!(view.profile_arn.as_deref(), Some("arn:auth"));
    assert_eq!(view.kiro_channel_max_concurrency, 9);
    assert_eq!(view.kiro_channel_min_start_interval_ms, 0);
    assert_eq!(view.proxy_mode, "fixed");
    assert_eq!(view.subscription_title.as_deref(), Some("Free"));
    assert_eq!(view.cache, "default");
}

fn runtime() -> RuntimeConfigRecord {
    RuntimeConfigRecord {
        id: "default".to_string(),
        auth_cache_ttl_seconds: 60,
        max_request_body_bytes: 1,
        account_failure_retry_limit: 1,
        codex_client_version: "0.124.0".to_string(),
        kiro_channel_max_concurrency: 1,
        kiro_channel_min_start_interval_ms: 1,
        codex_status_refresh_min_interval_seconds: 1,
        codex_status_refresh_max_interval_seconds: 1,
        codex_status_account_jitter_max_seconds: 1,
        kiro_status_refresh_min_interval_seconds: 1,
        kiro_status_refresh_max_interval_seconds: 600,
        kiro_status_account_jitter_max_seconds: 1,
        usage_event_flush_batch_size: 1,
        usage_event_flush_interval_seconds: 1,
        usage_event_flush_max_buffer_bytes: 1,
        usage_event_maintenance_enabled: false,
        usage_event_maintenance_interval_seconds: 1,
        usage_event_detail_retention_days: 1,
        kiro_cache_kmodels_json: "{}".to_string(),
        kiro_billable_model_multipliers_json: "{}".to_string(),
        kiro_cache_policy_json: "{\"mode\":\"on\"}".to_string(),
        kiro_context_usage_min_request_tokens: -4,
        kiro_prefix_cache_mode: "off".to_string(),
        kiro_prefix_cache_max_tokens: -10,
        kiro_prefix_cache_entry_ttl_seconds: 30,
        kiro_conversation_anchor_max_entries: 5,
        kiro_conversation_anchor_ttl_seconds: -1,
        updated_at_ms: 0,
    }
}

fn proxy_context() -> ProviderProxyResolutionContext {
    ProviderProxyResolutionContext {
        proxy_configs: vec![AdminProxyConfigFacts {
            id: "proxy-1".to_string(),
            name: "proxy one".to_string(),
            status: "disabled".to_string(),
            proxy_url: "http://one.proxy:1".to_string(),
            proxy_username: None,
            proxy_password: None,
        }],
        binding: ProxyBindingFacts {
            error_message: None,
            effective_proxy_url: Some("http://bound.proxy:9".to_string()),
            effective_proxy_username: None,
            effective_proxy_password: None,
        },
    }
}

fn cached(user_id: Option<&str>) -> Option<(Option<KiroBalance<u32>>, KiroCachedCache<&'static str>)> {
    Some((
        Some(KiroBalance { user_id: user_id.map(|u| u.to_string()), subscription_title: None, details: 12 }),
        KiroCachedCache { status: "ready".to_string(), details: "cache-view" },
    ))
}

fn with_auth(status: &str, proxy_config_id: Option<&str>, auth_json: &str) -> KiroAccountRecord {
    let mut r = record(status, proxy_config_id);
    r.auth_json = auth_json.to_string();
    r
}

#[test]
fn route_needs_active_account_and_defaults_region() {
    let auth_json = r#"{"region":"ap-south-1","profileArn":"arn:p"}"#;
    let ctx = proxy_context();
    assert!(resolve_admin_kiro_account_route(&with_auth("disabled", None, auth_json), &runtime(), cached(None), &ctx)
        .expect("no error")
        .is_none());
    let route = resolve_admin_kiro_account_route(
        &with_auth("active", None, auth_json),
        &runtime(),
        cached(Some("cached-user")),
        &ctx,
    )
    .expect("proxy resolves")
    .expect("active");
    assert_eq!(route.account_name, "kiro-a");
    assert_eq!(route.route_strategy_at_event, RouteStrategy::Auto);
    assert_eq!(route.account_group_id_at_event, None);
    assert_eq!(route.auth_json, auth_json);
    assert_eq!(route.api_region, "ap-south-1");
    assert_eq!(route.profile_arn.as_deref(), Some("arn:p"));
    assert_eq!(route.routing_identity, "cached-user");
    assert_eq!(route.proxy_mode, "inherit");
    assert_eq!(route.proxy.as_ref().map(|p| p.proxy_url.as_str()), Some("http://bound.proxy:9"));
    assert!(route.request_validation_enabled);
    assert!(route.cache_estimation_enabled);
    assert!(!route.zero_cache_debug_enabled);
    assert!(!route.full_request_logging_enabled);
    assert!(!route.remote_media_resolution_enabled);
    assert!(route.latency_routing_enabled);
    assert_eq!(route.model_name_map_json, "{}");
    assert_eq!(route.cache_policy_json, "{\"mode\":\"on\"}");
    assert_eq!(route.prefix_cache_mode, "off");
    assert_eq!(route.context_usage_min_request_tokens, 0);
    assert_eq!(route.request_max_concurrency, None);
    assert_eq!(route.account_request_max_concurrency, Some(0));
    assert_eq!(route.prefix_cache_max_tokens, 0);
    assert_eq!(route.prefix_cache_entry_ttl_seconds, 30);
    assert_eq!(route.conversation_anchor_ttl_seconds, 0);
    assert_eq!(route.status_refresh_interval_seconds, 600);
    assert_eq!(route.cached_status.as_deref(), Some("ready"));
    assert_eq!(route.cached_balance.as_ref().map(|b| b.details), Some(12));
    assert_eq!(route.cached_cache.as_ref().map(|c| c.details), Some("cache-view"));
    let mut anonymous = with_auth("active", None, "{}");
    anonymous.user_id = None;
    let fallback = resolve_admin_kiro_account_route(&anonymous, &runtime(), None::<(Option<KiroBalance<u32>>, KiroCachedCache<u8>)>, &ctx)
        .expect("proxy resolves")
        .expect("active");
    assert_eq!(fallback.api_region, "us-east-1");
    assert_eq!(fallback.routing_identity, "kiro-a");
    assert_eq!(fallback.cached_status, None);
    assert!(fallback.cached_cache.is_none());
}

#[test]
fn route_fails_on_bad_auth_json_or_disabled_fixed_proxy() {
    let error = resolve_admin_kiro_account_route(&with_auth("active", Some("proxy-1"), "{}"), &runtime(), cached(None), &proxy_context())
        .unwrap_err();
    assert_eq!(error, KiroRouteError::Proxy(ProxyResolutionError::FixedConfigDisabled { name: "proxy one".to_string() }));
    let error = resolve_admin_kiro_account_route(&with_auth("active", None, "not json"), &runtime(), cached(None), &proxy_context())
        .unwrap_err();
    assert_eq!(error, KiroRouteError::InvalidAuthJson);
    assert!(resolve_admin_kiro_account_route(&with_auth("disabled", Some("proxy-1"), "not json"), &runtime(), cached(None), &proxy_context())
        .expect("inactive accounts are not resolved")
        .is_none());
}

fn candidate(name: &str, status: &str) -> KiroRouteCandidateRow {
    KiroRouteCandidateRow {
        account_name: name.to_string(),
        profile_arn: Some("arn:row".to_string()),
        user_id: None,
        status: status.to_string(),
        max_concurrency: Some(3),
        min_start_interval_ms: None,
        proxy_config_id: None,
        disabled: false,
        auth_profile_arn: None,
        api_region: Some("eu-west-1".to_string()),
        proxy_mode: Some("none".to_string()),
        auth_proxy_config_id: None,
    }
}

#[test]
fn kiro_account_route_comes_from_an_active_cached_view() {
    let ctx = proxy_context();
    let views = vec![
        build_cached_kiro_account_view::<u8, u8>(&candidate("kiro-a", "active"), None, None, &ctx, 1).expect("view"),
        build_cached_kiro_account_view::<u8, u8>(&candidate("kiro-b", "disabled"), None, None, &ctx, 1).expect("view"),
    ];
    let route = resolve_kiro_account_route("kiro-a", &views, true, &runtime()).expect("route");
    assert_eq!(route.view_index, 0);
    assert_eq!(route.route_strategy_at_event, RouteStrategy::Auto);
    assert_eq!(route.api_region, "eu-west-1");
    assert_eq!(route.routing_identity, "kiro-a");
    assert_eq!(route.proxy, None);
    assert_eq!(route.account_request_max_concurrency, Some(3));
    assert_eq!(route.prefix_cache_max_tokens, 0);
    assert_eq!(route.status_refresh_interval_seconds, 600);
    assert!(resolve_kiro_account_route("kiro-a", &views, false, &runtime()).is_none());
    assert!(resolve_kiro_account_route("kiro-b", &views, true, &runtime()).is_none());
    assert!(resolve_kiro_account_route("kiro-z", &views, true, &runtime()).is_none());
}
