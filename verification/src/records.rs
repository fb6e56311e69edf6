//! Control-plane records of keys, routes, runtime configuration and upstream
//! accounts, the node scope of proxy configuration, and the Codex route
//! weight tier rule.
use vstd::prelude::*;
use crate::text::{ascii_lowercase, chars_of, chars_equal, lowercase_chars, trim, trimmed_chars};

verus! {

/// API key current-state row.
#[derive(Debug, Clone)]
pub struct KeyRecord {
    /// Stable key id.
    pub key_id: String,
    /// Human-readable key name.
    pub name: String,
    /// Plaintext secret retained for source-compatible admin behavior.
    pub secret: String,
    /// SHA-256 hash of the bearer secret.
    pub key_hash: String,
    /// Key status.
    pub status: String,
    /// Provider type.
    pub provider_type: String,
    /// Client protocol family.
    pub protocol_family: String,
    /// Whether this key is public-visible.
    pub public_visible: bool,
    /// Billable quota limit.
    pub quota_billable_limit: i64,
    /// Creation timestamp in Unix milliseconds.
    pub created_at_ms: i64,
    /// Update timestamp in Unix milliseconds.
    pub updated_at_ms: i64,
}

/// API key route configuration row.
#[derive(Debug, Clone)]
pub struct KeyRouteConfig {
    /// Owning key id.
    pub key_id: String,
    /// Account route strategy.
    pub route_strategy: Option<String>,
    /// Fixed account name for fixed routing.
    pub fixed_account_name: Option<String>,
    /// JSON array of account names for auto routing.
    pub auto_account_names_json: Option<String>,
    /// Account group id selected by the key.
    pub account_group_id: Option<String>,
    /// JSON object mapping public model names to upstream model names.
    pub model_name_map_json: Option<String>,
    /// Optional per-key concurrency cap.
    pub request_max_concurrency: Option<i64>,
    /// Optional per-key pacing interval.
    pub request_min_start_interval_ms: Option<i64>,
    /// Whether Kiro public request validation is enabled.
    pub kiro_request_validation_enabled: bool,
    /// Whether Kiro cache estimation is enabled.
    pub kiro_cache_estimation_enabled: bool,
    /// Whether zero-cache diagnostic capture is enabled.
    pub kiro_zero_cache_debug_enabled: bool,
    /// Optional Kiro cache policy override JSON.
    pub kiro_cache_policy_override_json: Option<String>,
    /// Optional Kiro billable multiplier override JSON.
    pub kiro_billable_model_multipliers_override_json: Option<String>,
}

/// Runtime configuration row.
#[derive(Debug, Clone)]
pub struct RuntimeConfigRecord {
    /// Singleton id.
    pub id: String,
    /// Auth cache TTL in seconds.
    pub auth_cache_ttl_seconds: i64,
    /// Maximum request body size.
    pub max_request_body_bytes: i64,
    /// Account failure retry limit.
    pub account_failure_retry_limit: i64,
    /// Codex client version.
    pub codex_client_version: String,
    /// Default Kiro per-account concurrency.
    pub kiro_channel_max_concurrency: i64,
    /// Default Kiro per-account pacing interval.
    pub kiro_channel_min_start_interval_ms: i64,
    /// Codex minimum status refresh interval.
    pub codex_status_refresh_min_interval_seconds: i64,
    /// Codex maximum status refresh interval.
    pub codex_status_refresh_max_interval_seconds: i64,
    /// Codex per-account refresh jitter.
    pub codex_status_account_jitter_max_seconds: i64,
    /// Kiro minimum status refresh interval.
    pub kiro_status_refresh_min_interval_seconds: i64,
    /// Kiro maximum status refresh interval.
    pub kiro_status_refresh_max_interval_seconds: i64,
    /// Kiro per-account refresh jitter.
    pub kiro_status_account_jitter_max_seconds: i64,
    /// Usage event flush batch size.
    pub usage_event_flush_batch_size: i64,
    /// Usage event flush interval.
    pub usage_event_flush_interval_seconds: i64,
    /// Usage event flush max buffer bytes.
    pub usage_event_flush_max_buffer_bytes: i64,
    /// Whether usage maintenance is enabled.
    pub usage_event_maintenance_enabled: bool,
    /// Usage maintenance interval.
    pub usage_event_maintenance_interval_seconds: i64,
    /// Heavy usage detail retention in days.
    pub usage_event_detail_retention_days: i64,
    /// Kiro cache k-models JSON.
    pub kiro_cache_kmodels_json: String,
    /// Kiro billable model multipliers JSON.
    pub kiro_billable_model_multipliers_json: String,
    /// Kiro cache policy JSON.
    pub kiro_cache_policy_json: String,
    /// Minimum request size, in tokens, for Kiro context usage reporting.
    pub kiro_context_usage_min_request_tokens: i64,
    /// Kiro prefix cache mode.
    pub kiro_prefix_cache_mode: String,
    /// Kiro prefix cache max tokens.
    pub kiro_prefix_cache_max_tokens: i64,
    /// Kiro prefix cache entry TTL.
    pub kiro_prefix_cache_entry_ttl_seconds: i64,
    /// Kiro conversation anchor max entries.
    pub kiro_conversation_anchor_max_entries: i64,
    /// Kiro conversation anchor TTL.
    pub kiro_conversation_anchor_ttl_seconds: i64,
    /// Update timestamp in Unix milliseconds.
    pub updated_at_ms: i64,
}

/// Codex account control-plane row.
#[derive(Debug, Clone)]
pub struct CodexAccountRecord {
    /// Account display name.
    pub account_name: String,
    /// Upstream account id when known.
    pub account_id: Option<String>,
    /// Account email when known.
    pub email: Option<String>,
    /// Runtime status.
    pub status: String,
    /// Persisted auth payload JSON.
    pub auth_json: String,
    /// Persisted settings JSON.
    pub settings_json: String,
    /// Last refresh timestamp.
    pub last_refresh_at_ms: Option<i64>,
    /// Last refresh or runtime error.
    pub last_error: Option<String>,
    /// Creation timestamp.
    pub created_at_ms: i64,
    /// Update timestamp.
    pub updated_at_ms: i64,
}

/// Kiro account control-plane row.
#[derive(Debug, Clone)]
pub struct KiroAccountRecord {
    /// Account display name.
    pub account_name: String,
    /// Kiro auth method.
    pub auth_method: String,
    /// Upstream account id when known.
    pub account_id: Option<String>,
    /// Kiro profile ARN when known.
    pub profile_arn: Option<String>,
    /// Upstream user id from usage limits when known.
    pub user_id: Option<String>,
    /// Runtime status.
    pub status: String,
    /// Persisted auth payload JSON.
    pub auth_json: String,
    /// Per-account concurrency cap.
    pub max_concurrency: Option<i64>,
    /// Per-account pacing interval.
    pub min_start_interval_ms: Option<i64>,
    /// Optional proxy config id.
    pub proxy_config_id: Option<String>,
    /// Last refresh timestamp.
    pub last_refresh_at_ms: Option<i64>,
    /// Last refresh or runtime error.
    pub last_error: Option<String>,
    /// Creation timestamp.
    pub created_at_ms: i64,
    /// Update timestamp.
    pub updated_at_ms: i64,
}

/// Node-local scope used to resolve effective proxy slot contents.
#[derive(Debug, Clone)]
pub struct ProxyConfigScope {
    node_id: String,
    is_core: bool,
}

impl ProxyConfigScope {
    /// The node id of the scope.
    pub closed spec fn node_id_view(&self) -> Seq<char> {
        self.node_id@
    }

    /// Whether this is the core scope.
    pub closed spec fn is_core_scope(&self) -> bool {
        self.is_core
    }

    /// Default core scope used when cluster identity is not configured.
    pub fn core_scope() -> (r: Self)
        ensures
            r.node_id_view() == "core"@,
            r.is_core_scope(),
    {
        ProxyConfigScope { node_id: "core".to_owned(), is_core: true }
    }

    /// Non-core node scope keyed by the configured node id.
    pub fn node(node_id: String) -> (r: Self)
        ensures
            r.node_id_view() == node_id@,
            !r.is_core_scope(),
    {
        ProxyConfigScope { node_id, is_core: false }
    }

    /// The segment that request-cache keys of this scope carry.
    pub fn cache_key_segment(&self) -> (r: &str)
        ensures
            r@ == self.node_id_view(),
    {
        self.node_id.as_str()
    }

    /// The node id recorded on node-scoped proxy rows.
    pub fn scope_node_id(&self) -> (r: Option<String>)
        ensures
            r matches Some(id) && id@ == self.node_id_view(),
    {
        Some(self.node_id.clone())
    }

    /// Whether this scope may edit shared proxy slot metadata (only the core).
    pub fn can_edit_slot_metadata(&self) -> (r: bool)
        ensures
            r == self.is_core_scope(),
    {
        self.is_core
    }
}

/// A stored signed value clamped at zero.
pub fn non_negative_i64_to_u64(value: i64) -> (r: Option<u64>)
    ensures
        r == Some((if value < 0 { 0 } else { value }) as u64),
{
    if value < 0 {
        Some(0)
    } else {
        Some(value as u64)
    }
}

/// A trimmed, lower-cased optional tier name, absent when blank.
pub open spec fn tier_name(value: Option<Seq<char>>) -> Option<Seq<char>> {
    match value {
        Some(v) => if trim(v).len() > 0 { Some(ascii_lowercase(trim(v))) } else { None },
        None => None,
    }
}

/// The Codex route weight tier: an explicit `free`, `plus`, `pro5x` or
/// `pro20x` override wins; otherwise the tier follows the plan type (`pro`
/// counts as `pro5x`), defaulting to `free`.
pub open spec fn effective_route_weight_tier(
    plan_type: Option<Seq<char>>,
    route_weight_tier: Option<Seq<char>>,
) -> Seq<char> {
    let tier = tier_name(route_weight_tier);
    let plan = tier_name(plan_type);
    if tier == Some("free"@) {
        "free"@
    } else if tier == Some("plus"@) {
        "plus"@
    } else if tier == Some("pro5x"@) {
        "pro5x"@
    } else if tier == Some("pro20x"@) {
        "pro20x"@
    } else if plan == Some("free"@) {
        "free"@
    } else if plan == Some("plus"@) {
        "plus"@
    } else if plan == Some("pro20x"@) {
        "pro20x"@
    } else if plan == Some("pro"@) || plan == Some("pro5x"@) {
        "pro5x"@
    } else {
        "free"@
    }
}

fn tier_chars(value: Option<&str>) -> (r: Option<Vec<char>>)
    ensures
        match r {
            Some(c) => tier_name(crate::metrics::opt_str_view(value)) == Some(c@),
            None => tier_name(crate::metrics::opt_str_view(value)) is None,
        },
{
    match value {
        Some(v) => {
            let t = trimmed_chars(v);
            if t.len() > 0 {
                Some(lowercase_chars(&t))
            } else {
                None
            }
        },
        None => None,
    }
}

fn is_name(value: &Option<Vec<char>>, name: &str) -> (r: bool)
    ensures
        r == (match value {
            Some(c) => c@ == name@,
            None => false,
        }),
{
    match value {
        Some(c) => chars_equal(c, &chars_of(name)),
        None => false,
    }
}

/// The Codex route weight tier of an account.
pub fn codex_effective_route_weight_tier(plan_type: Option<&str>, route_weight_tier: Option<&str>) -> (r:
    &'static str)
    ensures
        r@ == effective_route_weight_tier(
            crate::metrics::opt_str_view(plan_type),
            crate::metrics::opt_str_view(route_weight_tier),
        ),
{
    let tier = tier_chars(route_weight_tier);
    if is_name(&tier, "free") {
        return "free";
    }
    if is_name(&tier, "plus") {
        return "plus";
    }
    if is_name(&tier, "pro5x") {
        return "pro5x";
    }
    if is_name(&tier, "pro20x") {
        return "pro20x";
    }
    let plan = tier_chars(plan_type);
    if is_name(&plan, "free") {
        "free"
    } else if is_name(&plan, "plus") {
        "plus"
    } else if is_name(&plan, "pro20x") {
        "pro20x"
    } else if is_name(&plan, "pro") || is_name(&plan, "pro5x") {
        "pro5x"
    } else {
        "free"
    }
}

} // verus!
