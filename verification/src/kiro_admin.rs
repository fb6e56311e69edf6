//! Kiro accounts as the admin view and the router see them: the fields read
//! from an account's stored auth payload, the account's proxy choice and its
//! effective proxy, the admin view of an account (from its record or from a
//! list row) and the route settings of an active account.
use vstd::prelude::*;
use crate::json_fields::{
    field_count, field_flag, field_integer, field_text, fields_view, json_count, json_flag, json_integer,
    json_object_fields, json_text, parse_json_fields, JsonField, JsonFieldView,
};
use crate::proxy_resolution::{
    error_view, outcome_view, resolve_provider_proxy_config_from_context, resolved_proxy, ProviderProxyConfig,
    ProviderProxyResolutionContext, ProxyErrorView, ProxyResolutionError,
};
use crate::codex_route::RouteStrategy;
use crate::records::{non_negative_i64_to_u64, KiroAccountRecord, RuntimeConfigRecord};
use crate::text::str_equals;

verus! {

/// `a`, or `b` when `a` is absent.
pub open spec fn first_of<T>(a: Option<T>, b: Option<T>) -> Option<T> {
    if a is Some { a } else { b }
}

/// A stored signed count clamped at zero.
pub open spec fn count_of(v: Option<i64>) -> Option<u64> {
    match v {
        Some(x) => Some((if x < 0 { 0 } else { x }) as u64),
        None => None,
    }
}

/// The fields of a Kiro auth payload that the admin view and the router
/// read (each text trimmed and absent when blank).
#[derive(Debug, Clone)]
pub struct KiroAuthFields {
    pub provider: Option<String>,
    pub email: Option<String>,
    pub expires_at: Option<String>,
    pub profile_arn: Option<String>,
    pub has_refresh_token: bool,
    pub disabled: Option<bool>,
    pub disabled_reason: Option<String>,
    pub source: Option<String>,
    pub source_db_path: Option<String>,
    pub last_imported_at: Option<i64>,
    pub subscription_title: Option<String>,
    pub region: Option<String>,
    pub auth_region: Option<String>,
    pub api_region: Option<String>,
    pub machine_id: Option<String>,
    pub max_concurrency: Option<u64>,
    pub min_start_interval_ms: Option<u64>,
    pub proxy_mode: Option<String>,
    pub proxy_config_id: Option<String>,
    pub proxy_url: Option<String>,
}

/// Text under the first of two keys that has it.
pub open spec fn text2(f: Seq<(Seq<char>, JsonFieldView)>, a: Seq<char>, b: Seq<char>) -> Option<Seq<char>> {
    first_of(field_text(f, a), field_text(f, b))
}

/// Whether `a` holds what the auth payload fields `f` say, key by key
/// (camelCase first, then snake_case).
pub open spec fn auth_matches(a: KiroAuthFields, f: Seq<(Seq<char>, JsonFieldView)>) -> bool {
    &&& a.provider.deep_view() == field_text(f, "provider"@)
    &&& a.email.deep_view() == field_text(f, "email"@)
    &&& a.expires_at.deep_view() == text2(f, "expiresAt"@, "expires_at"@)
    &&& a.profile_arn.deep_view() == text2(f, "profileArn"@, "profile_arn"@)
    &&& a.has_refresh_token == (text2(f, "refreshToken"@, "refresh_token"@) is Some)
    &&& a.disabled == field_flag(f, "disabled"@)
    &&& a.disabled_reason.deep_view() == text2(f, "disabledReason"@, "disabled_reason"@)
    &&& a.source.deep_view() == field_text(f, "source"@)
    &&& a.source_db_path.deep_view() == text2(f, "sourceDbPath"@, "source_db_path"@)
    &&& a.last_imported_at == first_of(field_integer(f, "lastImportedAt"@), field_integer(f, "last_imported_at"@))
    &&& a.subscription_title.deep_view() == text2(f, "subscriptionTitle"@, "subscription_title"@)
    &&& a.region.deep_view() == field_text(f, "region"@)
    &&& a.auth_region.deep_view() == text2(f, "authRegion"@, "auth_region"@)
    &&& a.api_region.deep_view() == text2(f, "apiRegion"@, "api_region"@)
    &&& a.machine_id.deep_view() == text2(f, "machineId"@, "machine_id"@)
    &&& a.max_concurrency == first_of(
        field_count(f, "kiroChannelMaxConcurrency"@),
        field_count(f, "kiro_channel_max_concurrency"@),
    )
    &&& a.min_start_interval_ms == first_of(
        field_count(f, "kiroChannelMinStartIntervalMs"@),
        field_count(f, "kiro_channel_min_start_interval_ms"@),
    )
    &&& a.proxy_mode.deep_view() == text2(f, "proxyMode"@, "proxy_mode"@)
    &&& a.proxy_config_id.deep_view() == text2(f, "proxyConfigId"@, "proxy_config_id"@)
    &&& a.proxy_url.deep_view() == text2(f, "proxyUrl"@, "proxy_url"@)
}

/// `a`, or `b` when `a` is absent.
pub fn opt_or(a: Option<String>, b: Option<String>) -> (r: Option<String>)
    ensures
        r.deep_view() == first_of(a.deep_view(), b.deep_view()),
{
    if a.is_some() { a } else { b }
}

fn json_text2(fields: &Vec<JsonField>, a: &str, b: &str) -> (r: Option<String>)
    ensures
        r.deep_view() == text2(fields_view(fields@), a@, b@),
{
    opt_or(json_text(fields, a), json_text(fields, b))
}

fn json_count2(fields: &Vec<JsonField>, a: &str, b: &str) -> (r: Option<u64>)
    ensures
        r == first_of(field_count(fields_view(fields@), a@), field_count(fields_view(fields@), b@)),
{
    match json_count(fields, a) {
        Some(v) => Some(v),
        None => json_count(fields, b),
    }
}

/// The admin and routing fields of a Kiro auth payload, or `None` when the
/// payload is not JSON.
pub fn kiro_auth_fields(auth_json: &str) -> (r: Option<KiroAuthFields>)
    ensures
        r is None <==> json_object_fields(auth_json@) is None,
        r matches Some(a) ==> auth_matches(a, json_object_fields(auth_json@)->0),
{
    let fields = match parse_json_fields(auth_json) {
        Some(f) => f,
        None => return None,
    };
    let last_imported_at = match json_integer(&fields, "lastImportedAt") {
        Some(v) => Some(v),
        None => json_integer(&fields, "last_imported_at"),
    };
    let refresh = json_text2(&fields, "refreshToken", "refresh_token");
    let a = KiroAuthFields {
        provider: json_text(&fields, "provider"),
        email: json_text(&fields, "email"),
        expires_at: json_text2(&fields, "expiresAt", "expires_at"),
        profile_arn: json_text2(&fields, "profileArn", "profile_arn"),
        has_refresh_token: refresh.is_some(),
        disabled: json_flag(&fields, "disabled"),
        disabled_reason: json_text2(&fields, "disabledReason", "disabled_reason"),
        source: json_text(&fields, "source"),
        source_db_path: json_text2(&fields, "sourceDbPath", "source_db_path"),
        last_imported_at,
        subscription_title: json_text2(&fields, "subscriptionTitle", "subscription_title"),
        region: json_text(&fields, "region"),
        auth_region: json_text2(&fields, "authRegion", "auth_region"),
        api_region: json_text2(&fields, "apiRegion", "api_region"),
        machine_id: json_text2(&fields, "machineId", "machine_id"),
        max_concurrency: json_count2(&fields, "kiroChannelMaxConcurrency", "kiro_channel_max_concurrency"),
        min_start_interval_ms: json_count2(&fields, "kiroChannelMinStartIntervalMs", "kiro_channel_min_start_interval_ms"),
        proxy_mode: json_text2(&fields, "proxyMode", "proxy_mode"),
        proxy_config_id: json_text2(&fields, "proxyConfigId", "proxy_config_id"),
        proxy_url: json_text2(&fields, "proxyUrl", "proxy_url"),
    };
    Some(a)
}

/// The proxy mode of an account: the payload's, else `fixed` when the
/// account has a proxy config id, else `inherit`.
pub open spec fn account_proxy_mode(explicit: Option<Seq<char>>, has_config: bool) -> Seq<char> {
    match explicit {
        Some(m) => m,
        None => if has_config { "fixed"@ } else { "inherit"@ },
    }
}

/// An account's explicit proxy mode, or `fixed` when it names a proxy
/// config and `inherit` otherwise.
pub fn proxy_mode_or_default(explicit: &Option<String>, has_config: bool) -> (r: String)
    ensures
        r@ == account_proxy_mode(explicit.deep_view(), has_config),
{
    match explicit {
        Some(m) => m.clone(),
        None => if has_config { "fixed".to_owned() } else { "inherit".to_owned() },
    }
}

/// The proxy mode and proxy config id of an account from its record and
/// auth payload: the record's config id wins; the mode defaults by whether
/// the record names a config.
pub fn kiro_account_proxy_choice(record: &KiroAccountRecord, auth: &KiroAuthFields) -> (r: (String, Option<String>))
    ensures
        r.0@ == account_proxy_mode(auth.proxy_mode.deep_view(), record.proxy_config_id is Some),
        r.1.deep_view() == first_of(record.proxy_config_id.deep_view(), auth.proxy_config_id.deep_view()),
{
    let mode = proxy_mode_or_default(&auth.proxy_mode, record.proxy_config_id.is_some());
    let id = opt_or(record.proxy_config_id.clone(), auth.proxy_config_id.clone());
    (mode, id)
}

/// A proxy config as the view reads it.
#[derive(Debug, Clone)]
pub struct KiroProxyConfigFacts {
    pub name: String,
    pub proxy_url: String,
    pub status: String,
}

/// The proxy an account ends up using, as the admin view shows it.
#[derive(Debug, Clone)]
pub struct KiroProxyView {
    pub source: String,
    pub proxy_url: Option<String>,
    pub config_name: Option<String>,
}

/// What a proxy view shows.
pub open spec fn proxy_view_of(v: KiroProxyView) -> (Seq<char>, Option<Seq<char>>, Option<Seq<char>>) {
    (v.source@, v.proxy_url.deep_view(), v.config_name.deep_view())
}

/// The effective proxy of a mode: none for `none`; for `fixed`, the named
/// config when it is active (invalid when it is missing or not active);
/// otherwise the provider's binding.
pub open spec fn effective_proxy(
    mode: Seq<char>,
    has_config_id: bool,
    fixed: Option<KiroProxyConfigFacts>,
    binding: KiroProxyView,
) -> (Seq<char>, Option<Seq<char>>, Option<Seq<char>>) {
    if mode == "none"@ {
        ("none"@, None, None)
    } else if mode == "fixed"@ {
        if !has_config_id {
            ("invalid"@, None, None)
        } else {
            match fixed {
                Some(p) => if p.status@ == "active"@ {
                    ("fixed"@, Some(p.proxy_url@), Some(p.name@))
                } else {
                    ("invalid"@, None, Some(p.name@))
                },
                None => ("invalid"@, None, None),
            }
        }
    } else {
        proxy_view_of(binding)
    }
}

/// The effective proxy of an account, given the config its id names (as
/// looked up by the caller) and the provider's proxy binding.
pub fn resolve_kiro_account_proxy_view(
    proxy_mode: &str,
    proxy_config_id: Option<&str>,
    fixed: Option<&KiroProxyConfigFacts>,
    binding: &KiroProxyView,
) -> (r: KiroProxyView)
    ensures
        proxy_view_of(r) == effective_proxy(
            proxy_mode@,
            proxy_config_id is Some,
            match fixed { Some(p) => Some(*p), None => None },
            *binding,
        ),
{
    proof {
        reveal_strlit("none");
        reveal_strlit("fixed");
        reveal_strlit("active");
        reveal_strlit("invalid");
    }
    if str_equals(proxy_mode, "none") {
        return KiroProxyView { source: "none".to_owned(), proxy_url: None, config_name: None };
    }
    if str_equals(proxy_mode, "fixed") {
        if proxy_config_id.is_none() {
            return KiroProxyView { source: "invalid".to_owned(), proxy_url: None, config_name: None };
        }
        return match fixed {
            Some(p) => if str_equals(p.status.as_str(), "active") {
                KiroProxyView {
                    source: "fixed".to_owned(),
                    proxy_url: Some(p.proxy_url.clone()),
                    config_name: Some(p.name.clone()),
                }
            } else {
                KiroProxyView { source: "invalid".to_owned(), proxy_url: None, config_name: Some(p.name.clone()) }
            },
            None => KiroProxyView { source: "invalid".to_owned(), proxy_url: None, config_name: None },
        };
    }
    KiroProxyView {
        source: binding.source.clone(),
        proxy_url: crate::usage_row::dup_opt_string(&binding.proxy_url),
        config_name: crate::usage_row::dup_opt_string(&binding.config_name),
    }
}

/// The cached balance of an account as the view reads it; `details` holds
/// what the view passes through unread.
#[derive(Debug, Clone)]
pub struct KiroBalance<X> {
    pub user_id: Option<String>,
    pub subscription_title: Option<String>,
    pub details: X,
}

/// The per-account channel defaults of the gateway.
#[derive(Debug, Clone, Copy)]
pub struct KiroChannelDefaults {
    pub max_concurrency: u64,
    pub min_start_interval_ms: u64,
}

/// The admin view of a Kiro account. `cache` is the account's cached
/// status view, passed through.
#[derive(Debug, Clone)]
pub struct AdminKiroAccount<X, C> {
    pub name: String,
    pub auth_method: String,
    pub provider: Option<String>,
    pub upstream_user_id: Option<String>,
    pub email: Option<String>,
    pub expires_at: Option<String>,
    pub profile_arn: Option<String>,
    pub has_refresh_token: bool,
    pub disabled: bool,
    pub disabled_reason: Option<String>,
    pub source: Option<String>,
    pub source_db_path: Option<String>,
    pub last_imported_at: Option<i64>,
    pub subscription_title: Option<String>,
    pub region: Option<String>,
    pub auth_region: Option<String>,
    pub api_region: Option<String>,
    pub machine_id: Option<String>,
    pub kiro_channel_max_concurrency: u64,
    pub kiro_channel_min_start_interval_ms: u64,
    pub proxy_mode: String,
    pub proxy_config_id: Option<String>,
    pub effective_proxy: KiroProxyView,
    pub proxy_url: Option<String>,
    pub balance: Option<KiroBalance<X>>,
    pub cache: C,
}

/// The channel concurrency shown: the first count present, else the
/// default, at least one.
pub open spec fn channel_concurrency(first: Option<u64>, second: Option<u64>, default: u64) -> u64 {
    let v: u64 = match first_of(first, second) { Some(v) => v, None => default };
    if v < 1 { 1 } else { v }
}

/// The channel pacing interval shown: the first present, else the default.
pub open spec fn channel_interval(first: Option<u64>, second: Option<u64>, default: u64) -> u64 {
    match first_of(first, second) { Some(v) => v, None => default }
}

fn channel_concurrency_exec(first: Option<u64>, second: Option<u64>, default: u64) -> (r: u64)
    ensures
        r == channel_concurrency(first, second, default),
{
    let v = match first {
        Some(v) => v,
        None => match second {
            Some(v) => v,
            None => default,
        },
    };
    if v < 1 { 1 } else { v }
}

fn channel_interval_exec(first: Option<u64>, second: Option<u64>, default: u64) -> (r: u64)
    ensures
        r == channel_interval(first, second, default),
{
    match first {
        Some(v) => v,
        None => match second {
            Some(v) => v,
            None => default,
        },
    }
}

fn balance_user<X>(balance: &Option<KiroBalance<X>>) -> (r: Option<String>)
    ensures
        r.deep_view() == match balance { Some(b) => b.user_id.deep_view(), None => None },
{
    match balance {
        Some(b) => crate::usage_row::dup_opt_string(&b.user_id),
        None => None,
    }
}

fn balance_title<X>(balance: &Option<KiroBalance<X>>) -> (r: Option<String>)
    ensures
        r.deep_view() == match balance { Some(b) => b.subscription_title.deep_view(), None => None },
{
    match balance {
        Some(b) => crate::usage_row::dup_opt_string(&b.subscription_title),
        None => None,
    }
}

/// The user id of a balance, if any.
pub open spec fn balance_user_view<X>(balance: Option<KiroBalance<X>>) -> Option<Seq<char>> {
    match balance { Some(b) => b.user_id.deep_view(), None => None }
}

/// The subscription title of a balance, if any.
pub open spec fn balance_title_view<X>(balance: Option<KiroBalance<X>>) -> Option<Seq<char>> {
    match balance { Some(b) => b.subscription_title.deep_view(), None => None }
}

/// The balance and cache of an account: its cached status, or no balance
/// and the default cache.
pub open spec fn status_balance<X, C>(status: Option<(Option<KiroBalance<X>>, C)>) -> Option<KiroBalance<X>> {
    match status { Some((b, _)) => b, None => None }
}

pub open spec fn status_cache<X, C>(status: Option<(Option<KiroBalance<X>>, C)>, default_cache: C) -> C {
    match status { Some((_, c)) => c, None => default_cache }
}

fn split_status<X, C>(status: Option<(Option<KiroBalance<X>>, C)>, default_cache: C) -> (r: (Option<KiroBalance<X>>, C))
    ensures
        r.0 == status_balance(status),
        r.1 == status_cache(status, default_cache),
{
    match status {
        Some((b, c)) => (b, c),
        None => (None, default_cache),
    }
}

/// The admin view of a Kiro account from its record, the fields of its
/// auth payload, its cached status (balance and cache view, when cached)
/// with the default cache view, its effective proxy and the channel
/// defaults. A disabled account (flagged in its payload, or not `active`)
/// shows no balance.
pub fn admin_kiro_account_from_record_with_context<X, C>(
    record: &KiroAccountRecord,
    auth: &KiroAuthFields,
    status: Option<(Option<KiroBalance<X>>, C)>,
    default_cache: C,
    effective_proxy: KiroProxyView,
    defaults: KiroChannelDefaults,
) -> (r: AdminKiroAccount<X, C>)
    ensures
        r.name@ == record.account_name@,
        r.auth_method@ == record.auth_method@,
        r.disabled == (auth.disabled == Some(true) || record.status@ != "active"@),
        r.disabled ==> r.balance is None,
        !r.disabled ==> r.balance == status_balance(status),
        r.cache == status_cache(status, default_cache),
        r.disabled_reason.deep_view() == first_of(auth.disabled_reason.deep_view(), record.last_error.deep_view()),
        r.upstream_user_id.deep_view() == first_of(balance_user_view(r.balance), record.user_id.deep_view()),
        r.subscription_title.deep_view() == first_of(balance_title_view(r.balance), auth.subscription_title.deep_view()),
        r.profile_arn.deep_view() == first_of(record.profile_arn.deep_view(), auth.profile_arn.deep_view()),
        r.provider == auth.provider && r.email == auth.email && r.expires_at == auth.expires_at,
        r.has_refresh_token == auth.has_refresh_token,
        r.source == auth.source && r.source_db_path == auth.source_db_path,
        r.last_imported_at == auth.last_imported_at,
        r.region == auth.region && r.auth_region == auth.auth_region && r.api_region == auth.api_region,
        r.machine_id == auth.machine_id,
        r.proxy_url == auth.proxy_url,
        r.kiro_channel_max_concurrency == channel_concurrency(
            count_of(record.max_concurrency),
            auth.max_concurrency,
            defaults.max_concurrency,
        ),
        r.kiro_channel_max_concurrency >= 1,
        r.kiro_channel_min_start_interval_ms == channel_interval(
            count_of(record.min_start_interval_ms),
            auth.min_start_interval_ms,
            defaults.min_start_interval_ms,
        ),
        r.proxy_mode@ == account_proxy_mode(auth.proxy_mode.deep_view(), record.proxy_config_id is Some),
        r.proxy_config_id.deep_view() == first_of(record.proxy_config_id.deep_view(), auth.proxy_config_id.deep_view()),
        r.effective_proxy == effective_proxy,
{
    proof {
        reveal_strlit("active");
    }
    let (balance, cache) = split_status(status, default_cache);
    let (proxy_mode, proxy_config_id) = kiro_account_proxy_choice(record, auth);
    let disabled_json = match auth.disabled {
        Some(b) => b,
        None => false,
    };
    let disabled = disabled_json || !str_equals(record.status.as_str(), "active");
    let disabled_reason = opt_or(crate::usage_row::dup_opt_string(&auth.disabled_reason), crate::usage_row::dup_opt_string(&record.last_error));
    let balance = if disabled { None } else { balance };
    let subscription_title = opt_or(balance_title(&balance), crate::usage_row::dup_opt_string(&auth.subscription_title));
    let upstream_user_id = opt_or(balance_user(&balance), crate::usage_row::dup_opt_string(&record.user_id));
    let profile_arn = opt_or(crate::usage_row::dup_opt_string(&record.profile_arn), crate::usage_row::dup_opt_string(&auth.profile_arn));
    let max_concurrency = channel_concurrency_exec(
        match record.max_concurrency { Some(v) => non_negative_i64_to_u64(v), None => None },
        auth.max_concurrency,
        defaults.max_concurrency,
    );
    let min_interval = channel_interval_exec(
        match record.min_start_interval_ms { Some(v) => non_negative_i64_to_u64(v), None => None },
        auth.min_start_interval_ms,
        defaults.min_start_interval_ms,
    );
    AdminKiroAccount {
        name: record.account_name.clone(),
        auth_method: record.auth_method.clone(),
        provider: crate::usage_row::dup_opt_string(&auth.provider),
        upstream_user_id,
        email: crate::usage_row::dup_opt_string(&auth.email),
        expires_at: crate::usage_row::dup_opt_string(&auth.expires_at),
        profile_arn,
        has_refresh_token: auth.has_refresh_token,
        disabled,
        disabled_reason,
        source: crate::usage_row::dup_opt_string(&auth.source),
        source_db_path: crate::usage_row::dup_opt_string(&auth.source_db_path),
        last_imported_at: auth.last_imported_at,
        subscription_title,
        region: crate::usage_row::dup_opt_string(&auth.region),
        auth_region: crate::usage_row::dup_opt_string(&auth.auth_region),
        api_region: crate::usage_row::dup_opt_string(&auth.api_region),
        machine_id: crate::usage_row::dup_opt_string(&auth.machine_id),
        kiro_channel_max_concurrency: max_concurrency,
        kiro_channel_min_start_interval_ms: min_interval,
        proxy_mode,
        proxy_config_id,
        effective_proxy,
        proxy_url: crate::usage_row::dup_opt_string(&auth.proxy_url),
        balance,
        cache,
    }
}

/// A Kiro account as the admin list reads it, with the payload fields the
/// listing query extracted.
#[derive(Debug, Clone)]
pub struct KiroAdminAccountListRow {
    pub account_name: String,
    pub auth_method: String,
    pub profile_arn: Option<String>,
    pub user_id: Option<String>,
    pub status: String,
    pub provider: Option<String>,
    pub email: Option<String>,
    pub expires_at: Option<String>,
    pub auth_profile_arn: Option<String>,
    pub has_refresh_token: bool,
    pub disabled_json: bool,
    pub disabled_reason: Option<String>,
    pub source: Option<String>,
    pub source_db_path: Option<String>,
    pub last_imported_at: Option<i64>,
    pub subscription_title: Option<String>,
    pub region: Option<String>,
    pub auth_region: Option<String>,
    pub api_region: Option<String>,
    pub machine_id: Option<String>,
    pub max_concurrency: Option<i64>,
    pub auth_max_concurrency: Option<i64>,
    pub min_start_interval_ms: Option<i64>,
    pub auth_min_start_interval_ms: Option<i64>,
    pub proxy_mode: Option<String>,
    pub proxy_config_id: Option<String>,
    pub auth_proxy_config_id: Option<String>,
    pub proxy_url: Option<String>,
    pub last_error: Option<String>,
}

/// The proxy mode and proxy config id of a listed account: the row's config
/// id, else the payload's; the mode defaults by whether either is present.
pub fn kiro_list_row_proxy_choice(row: &KiroAdminAccountListRow) -> (r: (String, Option<String>))
    ensures
        r.1.deep_view() == first_of(row.proxy_config_id.deep_view(), row.auth_proxy_config_id.deep_view()),
        r.0@ == account_proxy_mode(row.proxy_mode.deep_view(), r.1 is Some),
{
    let id = opt_or(crate::usage_row::dup_opt_string(&row.proxy_config_id), crate::usage_row::dup_opt_string(&row.auth_proxy_config_id));
    let mode = proxy_mode_or_default(&row.proxy_mode, id.is_some());
    (mode, id)
}

fn count_exec(v: Option<i64>) -> (r: Option<u64>)
    ensures
        r == count_of(v),
{
    match v {
        Some(x) => non_negative_i64_to_u64(x),
        None => None,
    }
}

/// The admin view of a listed Kiro account, from its list row, its cached
/// status with the default cache view, its effective proxy and the channel
/// defaults. A disabled account shows no balance.
pub fn admin_kiro_account_from_list_row_with_context<X, C>(
    row: &KiroAdminAccountListRow,
    status: Option<(Option<KiroBalance<X>>, C)>,
    default_cache: C,
    effective_proxy: KiroProxyView,
    defaults: KiroChannelDefaults,
) -> (r: AdminKiroAccount<X, C>)
    ensures
        r.name@ == row.account_name@,
        r.auth_method@ == row.auth_method@,
        r.disabled == (row.disabled_json || row.status@ != "active"@),
        r.disabled ==> r.balance is None,
        !r.disabled ==> r.balance == status_balance(status),
        r.cache == status_cache(status, default_cache),
        r.disabled_reason.deep_view() == first_of(row.disabled_reason.deep_view(), row.last_error.deep_view()),
        r.upstream_user_id.deep_view() == first_of(balance_user_view(r.balance), row.user_id.deep_view()),
        r.subscription_title.deep_view() == first_of(balance_title_view(r.balance), row.subscription_title.deep_view()),
        r.profile_arn.deep_view() == first_of(row.profile_arn.deep_view(), row.auth_profile_arn.deep_view()),
        r.provider == row.provider && r.email == row.email && r.expires_at == row.expires_at,
        r.has_refresh_token == row.has_refresh_token,
        r.source == row.source && r.source_db_path == row.source_db_path,
        r.last_imported_at == row.last_imported_at,
        r.region == row.region && r.auth_region == row.auth_region && r.api_region == row.api_region,
        r.machine_id == row.machine_id,
        r.proxy_url == row.proxy_url,
        r.kiro_channel_max_concurrency == channel_concurrency(
            count_of(row.max_concurrency),
            count_of(row.auth_max_concurrency),
            defaults.max_concurrency,
        ),
        r.kiro_channel_max_concurrency >= 1,
        r.kiro_channel_min_start_interval_ms == channel_interval(
            count_of(row.min_start_interval_ms),
            count_of(row.auth_min_start_interval_ms),
            defaults.min_start_interval_ms,
        ),
        r.proxy_config_id.deep_view() == first_of(row.proxy_config_id.deep_view(), row.auth_proxy_config_id.deep_view()),
        r.proxy_mode@ == account_proxy_mode(row.proxy_mode.deep_view(), r.proxy_config_id is Some),
        r.effective_proxy == effective_proxy,
{
    proof {
        reveal_strlit("active");
    }
    let (balance, cache) = split_status(status, default_cache);
    let (proxy_mode, proxy_config_id) = kiro_list_row_proxy_choice(row);
    let disabled = row.disabled_json || !str_equals(row.status.as_str(), "active");
    let disabled_reason = opt_or(crate::usage_row::dup_opt_string(&row.disabled_reason), crate::usage_row::dup_opt_string(&row.last_error));
    let balance = if disabled { None } else { balance };
    let subscription_title = opt_or(balance_title(&balance), crate::usage_row::dup_opt_string(&row.subscription_title));
    let upstream_user_id = opt_or(balance_user(&balance), crate::usage_row::dup_opt_string(&row.user_id));
    let profile_arn = opt_or(crate::usage_row::dup_opt_string(&row.profile_arn), crate::usage_row::dup_opt_string(&row.auth_profile_arn));
    let max_concurrency = channel_concurrency_exec(
        count_exec(row.max_concurrency),
        count_exec(row.auth_max_concurrency),
        defaults.max_concurrency,
    );
    let min_interval = channel_interval_exec(
        count_exec(row.min_start_interval_ms),
        count_exec(row.auth_min_start_interval_ms),
        defaults.min_start_interval_ms,
    );
    AdminKiroAccount {
        name: row.account_name.clone(),
        auth_method: row.auth_method.clone(),
        provider: crate::usage_row::dup_opt_string(&row.provider),
        upstream_user_id,
        email: crate::usage_row::dup_opt_string(&row.email),
        expires_at: crate::usage_row::dup_opt_string(&row.expires_at),
        profile_arn,
        has_refresh_token: row.has_refresh_token,
        disabled,
        disabled_reason,
        source: crate::usage_row::dup_opt_string(&row.source),
        source_db_path: crate::usage_row::dup_opt_string(&row.source_db_path),
        last_imported_at: row.last_imported_at,
        subscription_title,
        region: crate::usage_row::dup_opt_string(&row.region),
        auth_region: crate::usage_row::dup_opt_string(&row.auth_region),
        api_region: crate::usage_row::dup_opt_string(&row.api_region),
        machine_id: crate::usage_row::dup_opt_string(&row.machine_id),
        kiro_channel_max_concurrency: max_concurrency,
        kiro_channel_min_start_interval_ms: min_interval,
        proxy_mode,
        proxy_config_id,
        effective_proxy,
        proxy_url: crate::usage_row::dup_opt_string(&row.proxy_url),
        balance,
        cache,
    }
}

/// The cache state of an account's cached status: its status label, and
/// the rest of the view passed through.
#[derive(Debug, Clone)]
pub struct KiroCachedCache<C> {
    pub status: String,
    pub details: C,
}

/// The route of a Kiro account that an operator picked by name: the
/// account's own settings, the gateway defaults of such a route (the `auto`
/// strategy, no account group, no key-level limits), the Kiro settings of
/// the runtime config and the account's cached status.
#[derive(Debug, Clone)]
pub struct ProviderKiroRoute<X, C> {
    pub account_name: String,
    pub account_group_id_at_event: Option<String>,
    pub route_strategy_at_event: RouteStrategy,
    pub auth_json: String,
    pub profile_arn: Option<String>,
    pub api_region: String,
    pub request_validation_enabled: bool,
    pub cache_estimation_enabled: bool,
    pub zero_cache_debug_enabled: bool,
    pub full_request_logging_enabled: bool,
    pub remote_media_resolution_enabled: bool,
    pub latency_routing_enabled: bool,
    pub model_name_map_json: String,
    pub cache_kmodels_json: String,
    pub cache_policy_json: String,
    pub context_usage_min_request_tokens: u64,
    pub prefix_cache_mode: String,
    pub prefix_cache_max_tokens: u64,
    pub prefix_cache_entry_ttl_seconds: u64,
    pub conversation_anchor_max_entries: u64,
    pub conversation_anchor_ttl_seconds: u64,
    pub billable_model_multipliers_json: String,
    pub request_max_concurrency: Option<u64>,
    pub request_min_start_interval_ms: Option<u64>,
    pub account_request_max_concurrency: Option<u64>,
    pub account_request_min_start_interval_ms: Option<u64>,
    pub proxy_mode: String,
    pub proxy_config_id: Option<String>,
    /// The proxy the mode and config id resolve to.
    pub proxy: Option<ProviderProxyConfig>,
    pub routing_identity: String,
    /// The status label of the cached cache state.
    pub cached_status: Option<String>,
    pub cached_balance: Option<KiroBalance<X>>,
    pub cached_cache: Option<KiroCachedCache<C>>,
    pub status_refresh_interval_seconds: u64,
}

/// Why an operator-picked Kiro route cannot be resolved.
#[derive(Debug, Clone, PartialEq, Eq)]
pub enum KiroRouteError {
    /// The account's stored auth payload is not JSON.
    InvalidAuthJson,
    /// The account's proxy cannot be resolved.
    Proxy(ProxyResolutionError),
}

/// A runtime setting clamped at zero.
pub open spec fn clamped(v: i64) -> u64 {
    (if v < 0 { 0 } else { v }) as u64
}

fn clamped_exec(v: i64) -> (r: u64)
    ensures
        r == clamped(v),
{
    if v < 0 { 0 } else { v as u64 }
}

/// The API region of a route: the payload's API region, else its region,
/// else `us-east-1`.
pub open spec fn route_api_region(auth: KiroAuthFields) -> Seq<char> {
    match first_of(auth.api_region.deep_view(), auth.region.deep_view()) {
        Some(r) => r,
        None => "us-east-1"@,
    }
}

/// The routing identity of an account: the cached balance's user id, else
/// the record's, else the account name.
pub open spec fn routing_identity(cached_user: Option<Seq<char>>, record: KiroAccountRecord) -> Seq<char> {
    match first_of(cached_user, record.user_id.deep_view()) {
        Some(u) => u,
        None => record.account_name@,
    }
}

/// The user id of the balance of a cached status.
pub open spec fn status_balance_user<X, C>(status: Option<(Option<KiroBalance<X>>, KiroCachedCache<C>)>) -> Option<Seq<char>> {
    match status {
        Some((Some(b), _)) => b.user_id.deep_view(),
        _ => None,
    }
}

/// The proxy resolution an account's record and auth payload call for.
pub open spec fn route_proxy(
    record: KiroAccountRecord,
    auth: KiroAuthFields,
    proxy_context: ProviderProxyResolutionContext,
) -> Result<Option<ProviderProxyConfig>, ProxyErrorView> {
    resolved_proxy(
        account_proxy_mode(auth.proxy_mode.deep_view(), record.proxy_config_id is Some),
        first_of(record.proxy_config_id.deep_view(), auth.proxy_config_id.deep_view()),
        proxy_context,
    )
}

/// Whether `s` is the route of `record`, whose auth payload has `auth`, from
/// the runtime config, the cached status and the resolved proxy.
pub open spec fn is_admin_kiro_route<X, C>(
    s: ProviderKiroRoute<X, C>,
    record: KiroAccountRecord,
    auth: KiroAuthFields,
    runtime: RuntimeConfigRecord,
    status: Option<(Option<KiroBalance<X>>, KiroCachedCache<C>)>,
    proxy: Option<ProviderProxyConfig>,
) -> bool {
    &&& s.account_name@ == record.account_name@
    &&& s.account_group_id_at_event is None
    &&& s.route_strategy_at_event == RouteStrategy::Auto
    &&& s.auth_json@ == record.auth_json@
    &&& s.profile_arn.deep_view() == first_of(record.profile_arn.deep_view(), auth.profile_arn.deep_view())
    &&& s.api_region@ == route_api_region(auth)
    &&& s.request_validation_enabled
    &&& s.cache_estimation_enabled
    &&& !s.zero_cache_debug_enabled
    &&& !s.full_request_logging_enabled
    &&& !s.remote_media_resolution_enabled
    &&& s.latency_routing_enabled
    &&& s.model_name_map_json@ == "{}"@
    &&& s.cache_kmodels_json@ == runtime.kiro_cache_kmodels_json@
    &&& s.cache_policy_json@ == runtime.kiro_cache_policy_json@
    &&& s.context_usage_min_request_tokens == clamped(runtime.kiro_context_usage_min_request_tokens)
    &&& s.prefix_cache_mode@ == runtime.kiro_prefix_cache_mode@
    &&& s.prefix_cache_max_tokens == clamped(runtime.kiro_prefix_cache_max_tokens)
    &&& s.prefix_cache_entry_ttl_seconds == clamped(runtime.kiro_prefix_cache_entry_ttl_seconds)
    &&& s.conversation_anchor_max_entries == clamped(runtime.kiro_conversation_anchor_max_entries)
    &&& s.conversation_anchor_ttl_seconds == clamped(runtime.kiro_conversation_anchor_ttl_seconds)
    &&& s.billable_model_multipliers_json@ == runtime.kiro_billable_model_multipliers_json@
    &&& s.request_max_concurrency is None
    &&& s.request_min_start_interval_ms is None
    &&& s.account_request_max_concurrency == count_of(record.max_concurrency)
    &&& s.account_request_min_start_interval_ms == count_of(record.min_start_interval_ms)
    &&& s.proxy_mode@ == account_proxy_mode(auth.proxy_mode.deep_view(), record.proxy_config_id is Some)
    &&& s.proxy_config_id.deep_view() == first_of(record.proxy_config_id.deep_view(), auth.proxy_config_id.deep_view())
    &&& s.proxy == proxy
    &&& s.routing_identity@ == routing_identity(status_balance_user(status), record)
    &&& s.cached_status.deep_view() == (match status {
        Some((_, c)) => Some(c.status@),
        None => None,
    })
    &&& s.cached_balance == (match status {
        Some((b, _)) => b,
        None => None,
    })
    &&& s.cached_cache == (match status {
        Some((_, c)) => Some(c),
        None => None,
    })
    &&& s.status_refresh_interval_seconds == clamped(runtime.kiro_status_refresh_max_interval_seconds)
}

/// The route of a Kiro account picked by an operator, from its record, the
/// runtime config, its cached status and the provider's proxy context: none
/// unless the account is `active`; for an active account, an error when its
/// stored auth payload is not JSON or its proxy cannot be resolved.
pub fn resolve_admin_kiro_account_route<X, C>(
    record: &KiroAccountRecord,
    runtime: &RuntimeConfigRecord,
    status: Option<(Option<KiroBalance<X>>, KiroCachedCache<C>)>,
    proxy_context: &ProviderProxyResolutionContext,
) -> (r: Result<Option<ProviderKiroRoute<X, C>>, KiroRouteError>)
    ensures
        r matches Ok(None) <==> record.status@ != "active"@,
        r matches Err(KiroRouteError::InvalidAuthJson) <==> (record.status@ == "active"@
            && json_object_fields(record.auth_json@) is None),
        forall|auth: KiroAuthFields|
            record.status@ == "active"@ && json_object_fields(record.auth_json@) is Some && #[trigger] auth_matches(
                auth,
                json_object_fields(record.auth_json@)->0,
            ) ==> {
            let proxy = route_proxy(*record, auth, *proxy_context);
            &&& (r is Err <==> proxy is Err)
            &&& (r matches Err(KiroRouteError::Proxy(e)) ==> proxy == Err::<Option<ProviderProxyConfig>, ProxyErrorView>(
                error_view(e),
            ))
            &&& (r matches Ok(Some(s)) ==> proxy == Ok::<Option<ProviderProxyConfig>, ProxyErrorView>(s.proxy)
                && is_admin_kiro_route(s, *record, auth, *runtime, status, s.proxy))
            &&& (proxy is Ok ==> r is Ok && r->Ok_0 is Some)
        },
{
    proof {
        reveal_strlit("active");
        reveal_strlit("us-east-1");
        reveal_strlit("{}");
    }
    if !str_equals(record.status.as_str(), "active") {
        return Ok(None);
    }
    let auth = match kiro_auth_fields(record.auth_json.as_str()) {
        Some(a) => a,
        None => return Err(KiroRouteError::InvalidAuthJson),
    };
    let (proxy_mode, proxy_config_id) = kiro_account_proxy_choice(record, &auth);
    let proxy = match resolve_provider_proxy_config_from_context(
        proxy_mode.as_str(),
        match &proxy_config_id { Some(id) => Some(id.as_str()), None => None },
        proxy_context,
    ) {
        Ok(p) => p,
        Err(e) => return Err(KiroRouteError::Proxy(e)),
    };
    let profile_arn = opt_or(crate::usage_row::dup_opt_string(&record.profile_arn), crate::usage_row::dup_opt_string(&auth.profile_arn));
    let api_region = match opt_or(crate::usage_row::dup_opt_string(&auth.api_region), crate::usage_row::dup_opt_string(&auth.region)) {
        Some(r) => r,
        None => "us-east-1".to_owned(),
    };
    let (cached_balance, cached_cache) = match status {
        Some((b, c)) => (b, Some(c)),
        None => (None, None),
    };
    let cached_user: Option<String> = match &cached_balance {
        Some(b) => crate::usage_row::dup_opt_string(&b.user_id),
        None => None,
    };
    let routing_identity = match opt_or(cached_user, crate::usage_row::dup_opt_string(&record.user_id)) {
        Some(u) => u,
        None => record.account_name.clone(),
    };
    let cached_status = match &cached_cache {
        Some(c) => Some(c.status.clone()),
        None => None,
    };
    Ok(Some(ProviderKiroRoute {
        account_name: record.account_name.clone(),
        account_group_id_at_event: None,
        route_strategy_at_event: RouteStrategy::Auto,
        auth_json: record.auth_json.clone(),
        profile_arn,
        api_region,
        request_validation_enabled: true,
        cache_estimation_enabled: true,
        zero_cache_debug_enabled: false,
        full_request_logging_enabled: false,
        remote_media_resolution_enabled: false,
        latency_routing_enabled: true,
        model_name_map_json: "{}".to_owned(),
        cache_kmodels_json: runtime.kiro_cache_kmodels_json.clone(),
        cache_policy_json: runtime.kiro_cache_policy_json.clone(),
        context_usage_min_request_tokens: clamped_exec(runtime.kiro_context_usage_min_request_tokens),
        prefix_cache_mode: runtime.kiro_prefix_cache_mode.clone(),
        prefix_cache_max_tokens: clamped_exec(runtime.kiro_prefix_cache_max_tokens),
        prefix_cache_entry_ttl_seconds: clamped_exec(runtime.kiro_prefix_cache_entry_ttl_seconds),
        conversation_anchor_max_entries: clamped_exec(runtime.kiro_conversation_anchor_max_entries),
        conversation_anchor_ttl_seconds: clamped_exec(runtime.kiro_conversation_anchor_ttl_seconds),
        billable_model_multipliers_json: runtime.kiro_billable_model_multipliers_json.clone(),
        request_max_concurrency: None,
        request_min_start_interval_ms: None,
        account_request_max_concurrency: count_exec(record.max_concurrency),
        account_request_min_start_interval_ms: count_exec(record.min_start_interval_ms),
        proxy_mode,
        proxy_config_id,
        proxy,
        routing_identity,
        cached_status,
        cached_balance,
        cached_cache,
        status_refresh_interval_seconds: clamped_exec(runtime.kiro_status_refresh_max_interval_seconds),
    }))
}

/// The channel concurrency shown is the record's value, else the payload's,
/// else the default, and never below one; the pacing interval is chosen the
/// same way without the floor.
pub proof fn lemma_channel_settings_pick_first_present(first: Option<u64>, second: Option<u64>, default: u64)
    ensures
        channel_concurrency(first, second, default) >= 1,
        first matches Some(v) ==> channel_concurrency(first, second, default) == (if v == 0 { 1 } else { v }),
        first is None ==> (second matches Some(v) ==> channel_concurrency(first, second, default) == (if v == 0 {
            1
        } else {
            v
        })),
        first is None && second is None ==> channel_concurrency(first, second, default) == (if default == 0 {
            1
        } else {
            default
        }),
        first matches Some(v) ==> channel_interval(first, second, default) == v,
        first is None ==> (second matches Some(v) ==> channel_interval(first, second, default) == v),
        first is None && second is None ==> channel_interval(first, second, default) == default,
{
}

} // verus!
