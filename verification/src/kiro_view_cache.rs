//! Loading the cached views of Kiro accounts: which names the request cache
//! answered with a view of the current dispatch generation, which names
//! must be fetched from the store (and written back to the cache), the
//! view built for a fetched account, which cached views may serve a key's
//! requests, and the route of one named account.
use vstd::prelude::*;
use crate::kiro_admin::{account_proxy_mode, clamped, count_of, first_of, opt_or, proxy_mode_or_default};
use crate::proxy_resolution::{
    outcome_view, resolve_provider_proxy_config_from_context, resolved_proxy, ProviderProxyConfig,
    ProviderProxyResolutionContext, ProxyResolutionError,
};
use crate::records::{non_negative_i64_to_u64, RuntimeConfigRecord};
use crate::codex_route::{strategy_of, RouteStrategy};
use crate::text::str_equals;
use crate::usage_row::dup_opt_string;

verus! {

/// What a batch read of the request cache decides for a list of names.
#[derive(Debug, Clone)]
pub struct KiroViewCachePlan {
    /// Each name answered by the cache, with the position of its cached
    /// value in the batch read.
    pub hits: Vec<(String, usize)>,
    /// The names to fetch from the store, in order.
    pub missing: Vec<String>,
}

/// Whether the cached value at a position is a view of `generation`.
pub open spec fn is_hit(cached_generations: Seq<Option<i64>>, i: int, generation: i64) -> bool {
    cached_generations[i] == Some(generation)
}

/// The names answered by the cache among the first `n`, with their
/// positions, in order.
pub open spec fn plan_hits(names: Seq<String>, cached_generations: Seq<Option<i64>>, generation: i64, n: int) -> Seq<(Seq<char>, int)>
    decreases n,
{
    if n <= 0 {
        Seq::empty()
    } else {
        let prev = plan_hits(names, cached_generations, generation, n - 1);
        if is_hit(cached_generations, n - 1, generation) { prev.push((names[n - 1]@, n - 1)) } else { prev }
    }
}

/// The names among the first `n` that the cache did not answer, in order.
pub open spec fn plan_missing(names: Seq<String>, cached_generations: Seq<Option<i64>>, generation: i64, n: int) -> Seq<Seq<char>>
    decreases n,
{
    if n <= 0 {
        Seq::empty()
    } else {
        let prev = plan_missing(names, cached_generations, generation, n - 1);
        if is_hit(cached_generations, n - 1, generation) { prev } else { prev.push(names[n - 1]@) }
    }
}

/// How many names a batch read covers: names and cached values are paired
/// position by position, as far as both go.
pub open spec fn paired_len(names: Seq<String>, cached_generations: Seq<Option<i64>>) -> int {
    if names.len() <= cached_generations.len() { names.len() as int } else { cached_generations.len() as int }
}

/// Splits the names of a batch read into cache hits and names to fetch. The
/// cache answers a name when the value read for it is a view of the current
/// dispatch generation; a failed read counts as no value for every name,
/// and without a request cache every name is fetched.
pub fn plan_kiro_account_view_load(
    account_names: &Vec<String>,
    cached_generations: &Vec<Option<i64>>,
    generation: i64,
) -> (r: KiroViewCachePlan)
    ensures
        r.hits@.len() == plan_hits(account_names@, cached_generations@, generation, paired_len(account_names@, cached_generations@)).len(),
        forall|j: int| 0 <= j < r.hits@.len() ==> {
            let h = plan_hits(account_names@, cached_generations@, generation, paired_len(account_names@, cached_generations@))[j];
            &&& (#[trigger] r.hits@[j]).0@ == h.0
            &&& r.hits@[j].1 == h.1
        },
        r.missing@.len() == plan_missing(account_names@, cached_generations@, generation, paired_len(account_names@, cached_generations@)).len(),
        forall|j: int| 0 <= j < r.missing@.len() ==> (#[trigger] r.missing@[j])@ == plan_missing(
            account_names@,
            cached_generations@,
            generation,
            paired_len(account_names@, cached_generations@),
        )[j],
{
    let n: usize = if account_names.len() <= cached_generations.len() {
        account_names.len()
    } else {
        cached_generations.len()
    };
    let mut hits: Vec<(String, usize)> = Vec::new();
    let mut missing: Vec<String> = Vec::new();
    let mut i: usize = 0;
    while i < n
        invariant
            i <= n,
            n == paired_len(account_names@, cached_generations@),
            n <= account_names@.len(),
            n <= cached_generations@.len(),
            hits@.len() == plan_hits(account_names@, cached_generations@, generation, i as int).len(),
            forall|j: int| 0 <= j < hits@.len() ==> {
                let h = plan_hits(account_names@, cached_generations@, generation, i as int)[j];
                &&& (#[trigger] hits@[j]).0@ == h.0
                &&& hits@[j].1 == h.1
            },
            missing@.len() == plan_missing(account_names@, cached_generations@, generation, i as int).len(),
            forall|j: int| 0 <= j < missing@.len() ==> (#[trigger] missing@[j])@ == plan_missing(
                account_names@,
                cached_generations@,
                generation,
                i as int,
            )[j],
        decreases n - i,
    {
        let hit = match cached_generations[i] {
            Some(g) => g == generation,
            None => false,
        };
        if hit {
            hits.push((account_names[i].clone(), i));
        } else {
            missing.push(account_names[i].clone());
        }
        i = i + 1;
    }
    KiroViewCachePlan { hits, missing }
}

/// The plan when there is no request cache: every name is fetched.
pub fn plan_without_cache(account_names: &Vec<String>) -> (r: KiroViewCachePlan)
    ensures
        r.hits@.len() == 0,
        r.missing@.len() == account_names@.len(),
        forall|j: int| 0 <= j < r.missing@.len() ==> (#[trigger] r.missing@[j])@ == account_names@[j]@,
{
    let mut missing: Vec<String> = Vec::new();
    let mut i: usize = 0;
    while i < account_names.len()
        invariant
            i <= account_names@.len(),
            missing@.len() == i,
            forall|j: int| 0 <= j < i ==> (#[trigger] missing@[j])@ == account_names@[j]@,
        decreases account_names.len() - i,
    {
        missing.push(account_names[i].clone());
        i = i + 1;
    }
    KiroViewCachePlan { hits: Vec::new(), missing }
}

/// What building a Kiro account's cached view reads of the account's row
/// and of its stored auth payload.
#[derive(Debug, Clone)]
pub struct KiroRouteCandidateRow {
    pub account_name: String,
    pub profile_arn: Option<String>,
    pub user_id: Option<String>,
    pub status: String,
    pub max_concurrency: Option<i64>,
    pub min_start_interval_ms: Option<i64>,
    pub proxy_config_id: Option<String>,
    pub disabled: bool,
    pub auth_profile_arn: Option<String>,
    pub api_region: Option<String>,
    pub proxy_mode: Option<String>,
    pub auth_proxy_config_id: Option<String>,
}

/// The cached routing view of a Kiro account; the cached balance and cache
/// state are carried through unread.
#[derive(Debug, Clone)]
pub struct CachedKiroAccountView<B, C> {
    pub account_name: String,
    pub generation: i64,
    pub profile_arn: Option<String>,
    pub user_id: Option<String>,
    pub status: String,
    pub request_max_concurrency: Option<u64>,
    pub request_min_start_interval_ms: Option<u64>,
    pub disabled: bool,
    pub api_region: String,
    pub proxy: Option<ProviderProxyConfig>,
    pub routing_identity: String,
    pub cached_balance: Option<B>,
    pub cached_cache: Option<C>,
}

/// The identity an account routes under: the user id of its cached
/// balance, else its own user id, else its name.
pub open spec fn view_routing_identity(cached_user: Option<Seq<char>>, row: KiroRouteCandidateRow) -> Seq<char> {
    match first_of(cached_user, row.user_id.deep_view()) {
        Some(u) => u,
        None => row.account_name@,
    }
}

/// Builds the cached view of an account of the current dispatch generation
/// from its row, its cached status (balance and cache state, with the user
/// id of the balance when there is one) and the provider's proxy context.
/// It fails exactly when the account's proxy cannot be resolved.
pub fn build_cached_kiro_account_view<B, C>(
    row: &KiroRouteCandidateRow,
    cached_status: Option<(Option<B>, C)>,
    cached_balance_user_id: Option<&str>,
    proxy_context: &ProviderProxyResolutionContext,
    generation: i64,
) -> (r: Result<CachedKiroAccountView<B, C>, ProxyResolutionError>)
    ensures
        ({
            let mode = account_proxy_mode(row.proxy_mode.deep_view(), row.proxy_config_id is Some);
            let config_id = first_of(row.proxy_config_id.deep_view(), row.auth_proxy_config_id.deep_view());
            let proxy = resolved_proxy(mode, config_id, *proxy_context);
            &&& (r is Err <==> proxy is Err)
            &&& (r matches Err(e) ==> outcome_view(Err(e)) == proxy)
            &&& (r matches Ok(v) ==> {
                &&& proxy == Ok::<Option<ProviderProxyConfig>, crate::proxy_resolution::ProxyErrorView>(v.proxy)
                &&& v.account_name == row.account_name
                &&& v.generation == generation
                &&& v.profile_arn.deep_view() == first_of(row.profile_arn.deep_view(), row.auth_profile_arn.deep_view())
                &&& v.user_id == row.user_id
                &&& v.status == row.status
                &&& v.request_max_concurrency == count_of(row.max_concurrency)
                &&& v.request_min_start_interval_ms == count_of(row.min_start_interval_ms)
                &&& v.disabled == row.disabled
                &&& v.api_region@ == (match row.api_region {
                    Some(a) => a@,
                    None => "us-east-1"@,
                })
                &&& v.routing_identity@ == view_routing_identity(crate::metrics::opt_str_view(cached_balance_user_id), *row)
                &&& v.cached_balance == (match cached_status {
                    Some((b, _)) => b,
                    None => None,
                })
                &&& v.cached_cache == (match cached_status {
                    Some((_, c)) => Some(c),
                    None => None,
                })
            })
        }),
{
    proof {
        reveal_strlit("us-east-1");
    }
    let proxy_mode = proxy_mode_or_default(&row.proxy_mode, row.proxy_config_id.is_some());
    let proxy_config_id = opt_or(dup_opt_string(&row.proxy_config_id), dup_opt_string(&row.auth_proxy_config_id));
    let proxy = match resolve_provider_proxy_config_from_context(
        proxy_mode.as_str(),
        match &proxy_config_id { Some(id) => Some(id.as_str()), None => None },
        proxy_context,
    ) {
        Ok(p) => p,
        Err(e) => return Err(e),
    };
    let routing_identity = match cached_balance_user_id {
        Some(u) => u.to_owned(),
        None => match &row.user_id {
            Some(u) => u.clone(),
            None => row.account_name.clone(),
        },
    };
    let api_region = match &row.api_region {
        Some(a) => a.clone(),
        None => "us-east-1".to_owned(),
    };
    let (cached_balance, cached_cache) = match cached_status {
        Some((b, c)) => (b, Some(c)),
        None => (None, None),
    };
    Ok(CachedKiroAccountView {
        account_name: row.account_name.clone(),
        generation,
        profile_arn: opt_or(dup_opt_string(&row.profile_arn), dup_opt_string(&row.auth_profile_arn)),
        user_id: dup_opt_string(&row.user_id),
        status: row.status.clone(),
        request_max_concurrency: match row.max_concurrency {
            Some(v) => non_negative_i64_to_u64(v),
            None => None,
        },
        request_min_start_interval_ms: match row.min_start_interval_ms {
            Some(v) => non_negative_i64_to_u64(v),
            None => None,
        },
        disabled: row.disabled,
        api_region,
        proxy,
        routing_identity,
        cached_balance,
        cached_cache,
    })
}

/// What choosing a key's Kiro route candidates reads of an account's cached
/// view; `balance_exhausted` is whether its cached balance has no credits
/// left above the account's blocking minimum.
#[derive(Debug, Clone)]
pub struct KiroRouteEligibility {
    pub account_name: String,
    pub status: String,
    pub disabled: bool,
    pub cached_cache_status: Option<String>,
    pub balance_exhausted: bool,
}

/// What choosing candidates reads of a key's cached request snapshot.
#[derive(Debug, Clone)]
pub struct KiroRouteSnapshot {
    pub key_provider_type: String,
    pub route_strategy: String,
    /// The accounts the key may use, in routing order.
    pub selected_account_names: Vec<String>,
}

/// The candidates of a key: its route strategy and, in routing order, the
/// positions of the account views that may serve it.
#[derive(Debug, Clone)]
pub struct KiroRoutePlan {
    pub route_strategy_at_event: RouteStrategy,
    pub view_indices: Vec<usize>,
}

/// Whether an account may serve requests: `active`, not disabled, its
/// cached cache state neither `disabled` nor `quota_exhausted`, and credits
/// left.
pub open spec fn kiro_view_eligible(v: KiroRouteEligibility) -> bool {
    &&& v.status@ == "active"@
    &&& !v.disabled
    &&& !(v.cached_cache_status matches Some(s) && (s@ == "disabled"@ || s@ == "quota_exhausted"@))
    &&& !v.balance_exhausted
}

/// The position of the last view named `name`, or -1 when none is.
pub open spec fn last_eligibility_index(views: Seq<KiroRouteEligibility>, name: Seq<char>) -> int
    decreases views.len(),
{
    if views.len() == 0 {
        -1
    } else if views.last().account_name@ == name {
        views.len() - 1
    } else {
        last_eligibility_index(views.drop_last(), name)
    }
}

/// The views that become candidates, in the order of the selected names.
pub open spec fn kiro_candidate_views(names: Seq<String>, views: Seq<KiroRouteEligibility>) -> Seq<int>
    decreases names.len(),
{
    if names.len() == 0 {
        Seq::empty()
    } else {
        let prev = kiro_candidate_views(names.drop_last(), views);
        let k = last_eligibility_index(views, names.last()@);
        if k >= 0 && kiro_view_eligible(views[k]) { prev.push(k) } else { prev }
    }
}

fn find_eligibility(views: &Vec<KiroRouteEligibility>, name: &str) -> (r: Option<usize>)
    ensures
        r matches Some(k) ==> k == last_eligibility_index(views@, name@) && k < views@.len(),
        r is None ==> last_eligibility_index(views@, name@) == -1,
{
    let mut found: Option<usize> = None;
    let mut i: usize = 0;
    while i < views.len()
        invariant
            i <= views@.len(),
            found matches Some(k) ==> k == last_eligibility_index(views@.take(i as int), name@) && k < i,
            found is None ==> last_eligibility_index(views@.take(i as int), name@) == -1,
        decreases views.len() - i,
    {
        assert(views@.take(i + 1).drop_last() =~= views@.take(i as int));
        if str_equals(views[i].account_name.as_str(), name) {
            found = Some(i);
        }
        i = i + 1;
    }
    assert(views@.take(views@.len() as int) =~= views@);
    found
}

fn eligible(v: &KiroRouteEligibility) -> (r: bool)
    ensures
        r == kiro_view_eligible(*v),
{
    if !str_equals(v.status.as_str(), "active") || v.disabled || v.balance_exhausted {
        return false;
    }
    match &v.cached_cache_status {
        Some(s) => !(str_equals(s.as_str(), "disabled") || str_equals(s.as_str(), "quota_exhausted")),
        None => true,
    }
}

/// The route candidates of a key from its request snapshot and the cached
/// views of its accounts: none unless the key is a `kiro` key; otherwise,
/// in the order of the selected names, each name whose view exists and may
/// serve requests.
pub fn resolve_kiro_route_candidates(snapshot: &KiroRouteSnapshot, views: &Vec<KiroRouteEligibility>) -> (r: KiroRoutePlan)
    ensures
        r.route_strategy_at_event == strategy_of(snapshot.route_strategy@),
        snapshot.key_provider_type@ != "kiro"@ ==> r.view_indices@.len() == 0,
        snapshot.key_provider_type@ == "kiro"@ ==> {
            let ks = kiro_candidate_views(snapshot.selected_account_names@, views@);
            &&& r.view_indices@.len() == ks.len()
            &&& forall|j: int| 0 <= j < ks.len() ==> (#[trigger] r.view_indices@[j]) == ks[j]
        },
{
    proof {
        reveal_strlit("kiro");
        reveal_strlit("fixed");
    }
    let route_strategy_at_event = if str_equals(snapshot.route_strategy.as_str(), "fixed") {
        RouteStrategy::Fixed
    } else {
        RouteStrategy::Auto
    };
    let mut view_indices: Vec<usize> = Vec::new();
    if !str_equals(snapshot.key_provider_type.as_str(), "kiro") {
        return KiroRoutePlan { route_strategy_at_event, view_indices };
    }
    let names = &snapshot.selected_account_names;
    let mut i: usize = 0;
    while i < names.len()
        invariant
            i <= names@.len(),
            names@ == snapshot.selected_account_names@,
            view_indices@.len() == kiro_candidate_views(names@.take(i as int), views@).len(),
            forall|j: int| 0 <= j < view_indices@.len() ==> (#[trigger] view_indices@[j]) == kiro_candidate_views(
                names@.take(i as int),
                views@,
            )[j],
        decreases names.len() - i,
    {
        assert(names@.take(i + 1).drop_last() =~= names@.take(i as int));
        if let Some(k) = find_eligibility(views, names[i].as_str()) {
            if eligible(&views[k]) {
                view_indices.push(k);
            }
        }
        i = i + 1;
    }
    assert(names@.take(names@.len() as int) =~= names@);
    KiroRoutePlan { route_strategy_at_event, view_indices }
}

/// The route of one named Kiro account, as a caller that picked the account
/// itself uses it: the account's settings from its cached view and the
/// runtime config, with no key's settings (the `auto` strategy, no account
/// group, no key-level limits).
#[derive(Debug, Clone)]
pub struct KiroAccountRoute {
    /// The position of the account's cached view among the views given.
    pub view_index: usize,
    pub account_name: String,
    pub route_strategy_at_event: RouteStrategy,
    pub profile_arn: Option<String>,
    pub api_region: String,
    pub routing_identity: String,
    pub proxy: Option<ProviderProxyConfig>,
    pub account_request_max_concurrency: Option<u64>,
    pub account_request_min_start_interval_ms: Option<u64>,
    pub prefix_cache_max_tokens: u64,
    pub prefix_cache_entry_ttl_seconds: u64,
    pub conversation_anchor_max_entries: u64,
    pub conversation_anchor_ttl_seconds: u64,
    pub status_refresh_interval_seconds: u64,
}

/// The position of the last cached view named `name`, or -1 when none is.
pub open spec fn last_cached_view_index<B, C>(views: Seq<CachedKiroAccountView<B, C>>, name: Seq<char>) -> int
    decreases views.len(),
{
    if views.len() == 0 {
        -1
    } else if views.last().account_name@ == name {
        views.len() - 1
    } else {
        last_cached_view_index(views.drop_last(), name)
    }
}

fn find_cached_view<B, C>(views: &Vec<CachedKiroAccountView<B, C>>, name: &str) -> (r: Option<usize>)
    ensures
        r matches Some(k) ==> k == last_cached_view_index(views@, name@) && k < views@.len()
            && views@[k as int].account_name@ == name@,
        r is None ==> last_cached_view_index(views@, name@) == -1,
{
    let mut found: Option<usize> = None;
    let mut i: usize = 0;
    while i < views.len()
        invariant
            i <= views@.len(),
            found matches Some(k) ==> k == last_cached_view_index(views@.take(i as int), name@) && k < i
                && views@[k as int].account_name@ == name@,
            found is None ==> last_cached_view_index(views@.take(i as int), name@) == -1,
        decreases views.len() - i,
    {
        assert(views@.take(i + 1).drop_last() =~= views@.take(i as int));
        if str_equals(views[i].account_name.as_str(), name) {
            found = Some(i);
        }
        i = i + 1;
    }
    assert(views@.take(views@.len() as int) =~= views@);
    found
}

/// The route of the account named `account_name` from the cached views and
/// the runtime config: none unless its view exists and is `active` and its
/// credentials are at hand (`auth_present`).
pub fn resolve_kiro_account_route<B, C>(
    account_name: &str,
    views: &Vec<CachedKiroAccountView<B, C>>,
    auth_present: bool,
    runtime: &RuntimeConfigRecord,
) -> (r: Option<KiroAccountRoute>)
    ensures
        ({
            let k = last_cached_view_index(views@, account_name@);
            &&& (r is Some <==> (k >= 0 && views@[k].status@ == "active"@ && auth_present))
            &&& (r matches Some(route) ==> {
                let v = views@[k];
                &&& route.view_index == k
                &&& route.account_name@ == account_name@
                &&& route.route_strategy_at_event == RouteStrategy::Auto
                &&& route.profile_arn == v.profile_arn
                &&& route.api_region == v.api_region
                &&& route.routing_identity == v.routing_identity
                &&& route.proxy == v.proxy
                &&& route.account_request_max_concurrency == v.request_max_concurrency
                &&& route.account_request_min_start_interval_ms == v.request_min_start_interval_ms
                &&& route.prefix_cache_max_tokens == clamped(runtime.kiro_prefix_cache_max_tokens)
                &&& route.prefix_cache_entry_ttl_seconds == clamped(runtime.kiro_prefix_cache_entry_ttl_seconds)
                &&& route.conversation_anchor_max_entries == clamped(runtime.kiro_conversation_anchor_max_entries)
                &&& route.conversation_anchor_ttl_seconds == clamped(runtime.kiro_conversation_anchor_ttl_seconds)
                &&& route.status_refresh_interval_seconds == clamped(runtime.kiro_status_refresh_max_interval_seconds)
            })
        }),
{
    proof {
        reveal_strlit("active");
    }
    let k = match find_cached_view(views, account_name) {
        Some(k) => k,
        None => return None,
    };
    let view = &views[k];
    if !str_equals(view.status.as_str(), "active") || !auth_present {
        return None;
    }
    let proxy = match &view.proxy {
        Some(p) => Some(ProviderProxyConfig {
            proxy_url: p.proxy_url.clone(),
            proxy_username: dup_opt_string(&p.proxy_username),
            proxy_password: dup_opt_string(&p.proxy_password),
        }),
        None => None,
    };
    Some(KiroAccountRoute {
        view_index: k,
        account_name: view.account_name.clone(),
        route_strategy_at_event: RouteStrategy::Auto,
        profile_arn: dup_opt_string(&view.profile_arn),
        api_region: view.api_region.clone(),
        routing_identity: view.routing_identity.clone(),
        proxy,
        account_request_max_concurrency: view.request_max_concurrency,
        account_request_min_start_interval_ms: view.request_min_start_interval_ms,
        prefix_cache_max_tokens: clamp_setting(runtime.kiro_prefix_cache_max_tokens),
        prefix_cache_entry_ttl_seconds: clamp_setting(runtime.kiro_prefix_cache_entry_ttl_seconds),
        conversation_anchor_max_entries: clamp_setting(runtime.kiro_conversation_anchor_max_entries),
        conversation_anchor_ttl_seconds: clamp_setting(runtime.kiro_conversation_anchor_ttl_seconds),
        status_refresh_interval_seconds: clamp_setting(runtime.kiro_status_refresh_max_interval_seconds),
    })
}

fn clamp_setting(v: i64) -> (r: u64)
    ensures
        r == clamped(v),
{
    if v < 0 { 0 } else { v as u64 }
}

/// The view found for a name, if any, has that name.
proof fn lemma_last_eligibility_index_names(views: Seq<KiroRouteEligibility>, name: Seq<char>)
    ensures
        -1 <= last_eligibility_index(views, name) < views.len(),
        last_eligibility_index(views, name) >= 0 ==> views[last_eligibility_index(views, name)].account_name@ == name,
    decreases views.len(),
{
    if views.len() > 0 {
        lemma_last_eligibility_index_names(views.drop_last(), name);
    }
}

/// The Kiro candidates of a key are views named by one of the key's selected
/// accounts that may serve requests: `active`, not disabled, with credits
/// left and a cache state neither `disabled` nor `quota_exhausted`; at most
/// one per selected name.
pub proof fn lemma_kiro_candidates_can_serve(names: Seq<String>, views: Seq<KiroRouteEligibility>)
    ensures
        kiro_candidate_views(names, views).len() <= names.len(),
        forall|j: int| 0 <= j < kiro_candidate_views(names, views).len() ==> {
            let k = #[trigger] kiro_candidate_views(names, views)[j];
            let v = views[k];
            &&& 0 <= k < views.len()
            &&& v.status@ == "active"@
            &&& !v.disabled
            &&& !v.balance_exhausted
            &&& (v.cached_cache_status matches Some(c) ==> c@ != "disabled"@ && c@ != "quota_exhausted"@)
            &&& exists|i: int| 0 <= i < names.len() && (#[trigger] names[i])@ == v.account_name@
        },
    decreases names.len(),
{
    if names.len() > 0 {
        let prefix = names.drop_last();
        lemma_kiro_candidates_can_serve(prefix, views);
        lemma_last_eligibility_index_names(views, names.last()@);
        let r = kiro_candidate_views(names, views);
        let before = kiro_candidate_views(prefix, views);
        assert forall|j: int| 0 <= j < r.len() implies {
            let k = #[trigger] r[j];
            let v = views[k];
            &&& 0 <= k < views.len()
            &&& v.status@ == "active"@
            &&& !v.disabled
            &&& !v.balance_exhausted
            &&& (v.cached_cache_status matches Some(c) ==> c@ != "disabled"@ && c@ != "quota_exhausted"@)
            &&& exists|i: int| 0 <= i < names.len() && (#[trigger] names[i])@ == v.account_name@
        } by {
            if j < before.len() {
                assert(r[j] == before[j]);
                let k = before[j];
                let i = choose|i: int| 0 <= i < prefix.len() && (#[trigger] prefix[i])@ == views[k].account_name@;
                assert(names[i] == prefix[i]);
            } else {
                assert(names[names.len() - 1] == names.last());
            }
        }
    }
}

} // verus!
