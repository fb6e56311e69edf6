use llm_access_store::codex_route::RouteStrategy;
use llm_access_store::kiro_view_cache::{
    build_cached_kiro_account_view, resolve_kiro_route_candidates, KiroRouteCandidateRow, KiroRouteEligibility,
    KiroRouteSnapshot,
};
use llm_access_store::proxy_resolution::{
    resolve_provider_proxy_config_from_context, AdminProxyConfigFacts, ProviderProxyResolutionContext,
    ProxyBindingFacts, ProxyResolutionError,
};

fn config(id: &str, name: &str, status: &str, url: &str) -> AdminProxyConfigFacts {
    AdminProxyConfigFacts {
        id: id.to_string(),
        name: name.to_string(),
        status: status.to_string(),
        proxy_url: url.to_string(),
        proxy_username: Some("edge-user".to_string()),
        proxy_password: None,
    }
}

fn context(binding_url: Option<&str>, binding_error: Option<&str>) -> ProviderProxyResolutionContext {
    ProviderProxyResolutionContext {
        proxy_configs: vec![
            config("proxy-slot-1", "slot one", "active", "http://edge.proxy:2222"),
            config("proxy-slot-2", "slot two", "disabled", "http://off.proxy:3333"),
        ],
        binding: ProxyBindingFacts {
            error_message: binding_error.map(|m| m.to_string()),
            effective_proxy_url: binding_url.map(|u| u.to_string()),
            effective_proxy_username: Some("bound".to_string()),
            effective_proxy_password: Some("secret".to_string()),
        },
    }
}

#[test]
fn fixed_mode_resolves_the_named_active_config() {
    let ctx = context(Some("http://edge.proxy:2222"), None);
    let proxy = resolve_provider_proxy_config_from_context("fixed", Some("proxy-slot-1"), &ctx)
        .expect("resolve fixed edge proxy")
        .expect("fixed proxy present");
    assert_eq!(proxy.proxy_url, "http://edge.proxy:2222");
    assert_eq!(proxy.proxy_username.as_deref(), Some("edge-user"));
}

#[test]
fn fixed_mode_errors() {
    let ctx = context(None, None);
    let missing_id = resolve_provider_proxy_config_from_context("fixed", None, &ctx).unwrap_err();
    assert_eq!(missing_id, ProxyResolutionError::FixedWithoutConfigId);
    assert_eq!(missing_id.message(), "fixed proxy mode requires proxy_config_id");
    let missing = resolve_provider_proxy_config_from_context("fixed", Some("nope"), &ctx).unwrap_err();
    assert_eq!(missing.message(), "fixed proxy config `nope` is missing");
    let disabled = resolve_provider_proxy_config_from_context("fixed", Some("proxy-slot-2"), &ctx).unwrap_err();
    assert_eq!(disabled, ProxyResolutionError::FixedConfigDisabled { name: "slot two".to_string() });
    assert_eq!(disabled.message(), "fixed proxy config `slot two` is disabled");
}

#[test]
fn other_modes_use_the_binding_or_no_proxy() {
    let ctx = context(Some("http://bound.proxy:1"), None);
    assert_eq!(resolve_provider_proxy_config_from_context("none", Some("proxy-slot-1"), &ctx), Ok(None));
    assert_eq!(resolve_provider_proxy_config_from_context("direct", None, &ctx), Ok(None));
    let bound = resolve_provider_proxy_config_from_context("inherit", None, &ctx).unwrap().unwrap();
    assert_eq!(bound.proxy_url, "http://bound.proxy:1");
    assert_eq!(bound.proxy_password.as_deref(), Some("secret"));
    assert_eq!(resolve_provider_proxy_config_from_context("inherit", None, &context(None, None)), Ok(None));
    let invalid = resolve_provider_proxy_config_from_context("inherit", None, &context(None, Some("slot gone")))
        .unwrap_err();
    assert_eq!(invalid.message(), "provider proxy binding is invalid: slot gone");
}

fn candidate_row() -> KiroRouteCandidateRow {
    KiroRouteCandidateRow {
        account_name: "kiro-a".to_string(),
        profile_arn: None,
        user_id: Some("user-row".to_string()),
        status: "active".to_string(),
        max_concurrency: Some(-2),
        min_start_interval_ms: Some(250),
        proxy_config_id: None,
        disabled: false,
        auth_profile_arn: Some("arn:auth".to_string()),
        api_region: None,
        proxy_mode: None,
        auth_proxy_config_id: Some("proxy-slot-1".to_string()),
    }
}

#[test]
fn cached_kiro_view_is_built_from_row_status_and_proxy() {
    let ctx = context(Some("http://bound.proxy:1"), None);
    let view = build_cached_kiro_account_view(
        &candidate_row(),
        Some((Some(3u32), "cache-state")),
        Some("user-balance"),
        &ctx,
        11,
    )
    .expect("view");
    assert_eq!(view.generation, 11);
    assert_eq!(view.profile_arn.as_deref(), Some("arn:auth"));
    assert_eq!(view.api_region, "us-east-1");
    assert_eq!(view.routing_identity, "user-balance");
    assert_eq!(view.request_max_concurrency, Some(0));
    assert_eq!(view.request_min_start_interval_ms, Some(250));
    assert_eq!(view.proxy.as_ref().map(|p| p.proxy_url.as_str()), Some("http://bound.proxy:1"));
    assert_eq!(view.cached_balance, Some(3));
    assert_eq!(view.cached_cache, Some("cache-state"));

    let without_status =
        build_cached_kiro_account_view::<u32, &str>(&candidate_row(), None, None, &ctx, 11).expect("view");
    assert_eq!(without_status.routing_identity, "user-row");
    assert_eq!(without_status.cached_cache, None);

    let mut fixed = candidate_row();
    fixed.proxy_config_id = Some("proxy-slot-2".to_string());
    let error = build_cached_kiro_account_view::<u32, &str>(&fixed, None, None, &ctx, 11).unwrap_err();
    assert_eq!(error, ProxyResolutionError::FixedConfigDisabled { name: "slot two".to_string() });
}

fn eligibility(name: &str, status: &str, disabled: bool, cache: Option<&str>, exhausted: bool) -> KiroRouteEligibility {
    KiroRouteEligibility {
        account_name: name.to_string(),
        status: status.to_string(),
        disabled,
        cached_cache_status: cache.map(|c| c.to_string()),
        balance_exhausted: exhausted,
    }
}

#[test]
fn kiro_candidates_skip_accounts_that_cannot_serve() {
    let views = vec![
        eligibility("ok", "active", false, Some("ready"), false),
        eligibility("off", "disabled", false, None, false),
        eligibility("flagged", "active", true, None, false),
        eligibility("exhausted-cache", "active", false, Some("quota_exhausted"), false),
        eligibility("blocked-cache", "active", false, Some("disabled"), false),
        eligibility("no-credits", "active", false, None, true),
        eligibility("fresh", "active", false, None, false),
    ];
    let names: Vec<String> = ["fresh", "off", "flagged", "exhausted-cache", "blocked-cache", "no-credits", "unknown", "ok"]
        .iter()
        .map(|n| n.to_string())
        .collect();
    let plan = resolve_kiro_route_candidates(
        &KiroRouteSnapshot {
            key_provider_type: "kiro".to_string(),
            route_strategy: "fixed".to_string(),
            selected_account_names: names.clone(),
        },
        &views,
    );
    assert_eq!(plan.route_strategy_at_event, RouteStrategy::Fixed);
    assert_eq!(plan.view_indices, vec![6, 0]);
    let other = resolve_kiro_route_candidates(
        &KiroRouteSnapshot {
            key_provider_type: "codex".to_string(),
            route_strategy: "auto".to_string(),
            selected_account_names: names,
        },
        &views,
    );
    assert!(other.view_indices.is_empty());
    assert_eq!(other.route_strategy_at_event, RouteStrategy::Auto);
}
