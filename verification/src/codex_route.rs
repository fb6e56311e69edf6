//! The route candidates of a Codex key: for each account the key's request
//! snapshot selected, in order, the account's cached view when it exists and
//! is active, with the key's route settings and the credential error the
//! account shows from its cached status.
use vstd::prelude::*;
use crate::codex_auth::{cached_auth_error, codex_cached_error_message, CodexStatusErrorView};
use crate::text::str_equals;
use crate::usage_row::dup_opt_string;

verus! {

/// How a key picks among its accounts.
#[derive(Debug, Clone, Copy, PartialEq, Eq)]
pub enum RouteStrategy {
    Fixed,
    Auto,
}

/// What routing reads of a key's cached request snapshot.
#[derive(Debug, Clone)]
pub struct CodexRouteSnapshot {
    /// The provider type of the key.
    pub key_provider_type: String,
    /// The stored route strategy of the key.
    pub route_strategy: String,
    pub account_group_id_at_event: Option<String>,
    /// The accounts the key may use, in routing order.
    pub selected_account_names: Vec<String>,
    pub codex_fast_enabled: bool,
    pub request_max_concurrency: Option<u64>,
    pub request_min_start_interval_ms: Option<u64>,
}

/// What routing reads of an account's cached view.
#[derive(Debug, Clone)]
pub struct CodexAccountRouteView {
    pub account_name: String,
    pub status: String,
    pub last_error: Option<String>,
    pub last_refresh_at_ms: Option<i64>,
    pub auth_refresh_enabled: bool,
    pub map_gpt53_codex_to_spark: bool,
    pub request_max_concurrency: Option<u64>,
    pub request_min_start_interval_ms: Option<u64>,
    /// Whether the account's current access token is still usable now.
    pub token_is_usable: bool,
}

/// One route candidate of a key.
#[derive(Debug, Clone)]
pub struct CodexRouteCandidate {
    pub account_name: String,
    /// The position of the account's view among the views routing was
    /// given; the caller takes the account's proxy from there.
    pub view_index: usize,
    pub account_group_id_at_event: Option<String>,
    pub route_strategy_at_event: RouteStrategy,
    pub map_gpt53_codex_to_spark: bool,
    pub auth_refresh_enabled: bool,
    pub codex_fast_enabled: bool,
    pub request_max_concurrency: Option<u64>,
    pub request_min_start_interval_ms: Option<u64>,
    pub account_request_max_concurrency: Option<u64>,
    pub account_request_min_start_interval_ms: Option<u64>,
    pub cached_error_message: Option<String>,
}

/// The route strategy a stored name stands for: `fixed`, or else `auto`.
pub open spec fn strategy_of(stored: Seq<char>) -> RouteStrategy {
    if stored == "fixed"@ { RouteStrategy::Fixed } else { RouteStrategy::Auto }
}

/// The position of the last view named `name`, or -1 when none is; as in a
/// map collected from the views, a later view of a name wins.
pub open spec fn last_view_index(views: Seq<CodexAccountRouteView>, name: Seq<char>) -> int
    decreases views.len(),
{
    if views.len() == 0 {
        -1
    } else if views.last().account_name@ == name {
        views.len() - 1
    } else {
        last_view_index(views.drop_last(), name)
    }
}

/// The cached status of the account named `name`: the last entry with that
/// name, as in a map collected from the entries.
pub open spec fn status_for(statuses: Seq<(String, CodexStatusErrorView)>, name: Seq<char>) -> Option<CodexStatusErrorView>
    decreases statuses.len(),
{
    if statuses.len() == 0 {
        None
    } else if statuses.last().0@ == name {
        Some(statuses.last().1)
    } else {
        status_for(statuses.drop_last(), name)
    }
}

/// The views that become candidates, in the order of the selected names: a
/// name's view when it has one and it is `active`.
pub open spec fn candidate_views(names: Seq<String>, views: Seq<CodexAccountRouteView>) -> Seq<int>
    decreases names.len(),
{
    if names.len() == 0 {
        Seq::empty()
    } else {
        let prev = candidate_views(names.drop_last(), views);
        let k = last_view_index(views, names.last()@);
        if k >= 0 && views[k].status@ == "active"@ { prev.push(k) } else { prev }
    }
}

/// Whether `c` is the candidate built from view `k` for the snapshot.
pub open spec fn is_candidate(
    c: CodexRouteCandidate,
    k: int,
    snapshot: CodexRouteSnapshot,
    views: Seq<CodexAccountRouteView>,
    statuses: Seq<(String, CodexStatusErrorView)>,
) -> bool {
    let v = views[k];
    &&& c.view_index == k
    &&& c.account_name@ == v.account_name@
    &&& c.account_group_id_at_event.deep_view() == snapshot.account_group_id_at_event.deep_view()
    &&& c.route_strategy_at_event == strategy_of(snapshot.route_strategy@)
    &&& c.map_gpt53_codex_to_spark == v.map_gpt53_codex_to_spark
    &&& c.auth_refresh_enabled == v.auth_refresh_enabled
    &&& c.codex_fast_enabled == snapshot.codex_fast_enabled
    &&& c.request_max_concurrency == snapshot.request_max_concurrency
    &&& c.request_min_start_interval_ms == snapshot.request_min_start_interval_ms
    &&& c.account_request_max_concurrency == v.request_max_concurrency
    &&& c.account_request_min_start_interval_ms == v.request_min_start_interval_ms
    &&& c.cached_error_message.deep_view() == cached_auth_error(
        v.last_error.deep_view(),
        v.last_refresh_at_ms,
        v.auth_refresh_enabled,
        v.token_is_usable,
        status_for(statuses, v.account_name@),
    )
}

/// The position of the last view named `name`.
pub fn find_route_view(views: &Vec<CodexAccountRouteView>, name: &str) -> (r: Option<usize>)
    ensures
        r matches Some(k) ==> k == last_view_index(views@, name@) && k < views@.len()
            && views@[k as int].account_name@ == name@,
        r is None ==> last_view_index(views@, name@) == -1,
{
    let mut found: Option<usize> = None;
    let mut i: usize = 0;
    while i < views.len()
        invariant
            i <= views@.len(),
            found matches Some(k) ==> k == last_view_index(views@.take(i as int), name@) && k < i
                && views@[k as int].account_name@ == name@,
            found is None ==> last_view_index(views@.take(i as int), name@) == -1,
        decreases views.len() - i,
    {
        assert(views@.take(i + 1).drop_last() =~= views@.take(i as int));
        if str_equals(views[i].account_name.as_str(), name) {
            found = Some(i);
        }
        i = i + 1;
    }
    assert(views@.take(views@.len() as int) =~= views@);
    found
}

/// The cached status of the account named `name`.
pub fn find_route_status<'a>(statuses: &'a Vec<(String, CodexStatusErrorView)>, name: &str) -> (r: Option<&'a CodexStatusErrorView>)
    ensures
        r matches Some(s) ==> status_for(statuses@, name@) == Some(*s),
        r is None ==> status_for(statuses@, name@) is None,
{
    let mut found: Option<&'a CodexStatusErrorView> = None;
    let mut i: usize = 0;
    while i < statuses.len()
        invariant
            i <= statuses@.len(),
            found matches Some(s) ==> status_for(statuses@.take(i as int), name@) == Some(*s),
            found is None ==> status_for(statuses@.take(i as int), name@) is None,
        decreases statuses.len() - i,
    {
        assert(statuses@.take(i + 1).drop_last() =~= statuses@.take(i as int));
        if str_equals(statuses[i].0.as_str(), name) {
            found = Some(&statuses[i].1);
        }
        i = i + 1;
    }
    assert(statuses@.take(statuses@.len() as int) =~= statuses@);
    found
}

/// The route candidates of a key from its request snapshot, the cached views
/// of its accounts and their cached statuses: none unless the key is a
/// `codex` key; otherwise one per selected name whose view exists and is
/// `active`, in the order of the selected names. Ordering the candidates
/// by their remaining quota is left to the caller.
pub fn resolve_codex_route_candidates(
    snapshot: &CodexRouteSnapshot,
    views: &Vec<CodexAccountRouteView>,
    statuses: &Vec<(String, CodexStatusErrorView)>,
) -> (r: Vec<CodexRouteCandidate>)
    ensures
        snapshot.key_provider_type@ != "codex"@ ==> r@.len() == 0,
        snapshot.key_provider_type@ == "codex"@ ==> {
            let ks = candidate_views(snapshot.selected_account_names@, views@);
            &&& r@.len() == ks.len()
            &&& forall|j: int| 0 <= j < ks.len() ==> is_candidate(#[trigger] r@[j], ks[j], *snapshot, views@, statuses@)
        },
{
    proof {
        reveal_strlit("codex");
        reveal_strlit("fixed");
        reveal_strlit("active");
    }
    let mut routes: Vec<CodexRouteCandidate> = Vec::new();
    if !str_equals(snapshot.key_provider_type.as_str(), "codex") {
        return routes;
    }
    let strategy = if str_equals(snapshot.route_strategy.as_str(), "fixed") {
        RouteStrategy::Fixed
    } else {
        RouteStrategy::Auto
    };
    let names = &snapshot.selected_account_names;
    let mut i: usize = 0;
    while i < names.len()
        invariant
            i <= names@.len(),
            names@ == snapshot.selected_account_names@,
            strategy == strategy_of(snapshot.route_strategy@),
            routes@.len() == candidate_views(names@.take(i as int), views@).len(),
            forall|j: int| 0 <= j < routes@.len() ==> is_candidate(
                #[trigger] routes@[j],
                candidate_views(names@.take(i as int), views@)[j],
                *snapshot,
                views@,
                statuses@,
            ),
        decreases names.len() - i,
    {
        assert(names@.take(i + 1).drop_last() =~= names@.take(i as int));
        let ghost prev = candidate_views(names@.take(i as int), views@);
        match find_route_view(views, names[i].as_str()) {
            Some(k) => {
                let view = &views[k];
                if str_equals(view.status.as_str(), "active") {
                    let status = find_route_status(statuses, view.account_name.as_str());
                    let cached_error_message = codex_cached_error_message(
                        match &view.last_error { Some(e) => Some(e.as_str()), None => None },
                        view.last_refresh_at_ms,
                        view.auth_refresh_enabled,
                        view.token_is_usable,
                        status,
                    );
                    let candidate = CodexRouteCandidate {
                        account_name: view.account_name.clone(),
                        view_index: k,
                        account_group_id_at_event: dup_opt_string(&snapshot.account_group_id_at_event),
                        route_strategy_at_event: strategy,
                        map_gpt53_codex_to_spark: view.map_gpt53_codex_to_spark,
                        auth_refresh_enabled: view.auth_refresh_enabled,
                        codex_fast_enabled: snapshot.codex_fast_enabled,
                        request_max_concurrency: snapshot.request_max_concurrency,
                        request_min_start_interval_ms: snapshot.request_min_start_interval_ms,
                        account_request_max_concurrency: view.request_max_concurrency,
                        account_request_min_start_interval_ms: view.request_min_start_interval_ms,
                        cached_error_message,
                    };
                    routes.push(candidate);
                    assert(candidate_views(names@.take(i + 1), views@) == prev.push(k as int));
                } else {
                    assert(candidate_views(names@.take(i + 1), views@) == prev);
                }
            },
            None => {
                assert(candidate_views(names@.take(i + 1), views@) == prev);
            },
        }
        i = i + 1;
    }
    assert(names@.take(names@.len() as int) =~= names@);
    routes
}

/// The route of one named Codex account, as a caller that picked the
/// account itself uses it: the account's cached view must exist and be
/// `active`, and its credentials must be at hand (`auth_present`). The
/// route carries no key's settings: no account group, the `auto` strategy,
/// fast mode on and no key-level limits.
pub fn resolve_codex_account_route(
    account_name: &str,
    views: &Vec<CodexAccountRouteView>,
    statuses: &Vec<(String, CodexStatusErrorView)>,
    auth_present: bool,
) -> (r: Option<CodexRouteCandidate>)
    ensures
        ({
            let k = last_view_index(views@, account_name@);
            &&& (r is Some <==> (k >= 0 && views@[k].status@ == "active"@ && auth_present))
            &&& (r matches Some(c) ==> {
                let v = views@[k];
                &&& c.view_index == k
                &&& c.account_name@ == account_name@
                &&& c.account_group_id_at_event is None
                &&& c.route_strategy_at_event == RouteStrategy::Auto
                &&& c.map_gpt53_codex_to_spark == v.map_gpt53_codex_to_spark
                &&& c.auth_refresh_enabled == v.auth_refresh_enabled
                &&& c.codex_fast_enabled
                &&& c.request_max_concurrency is None
                &&& c.request_min_start_interval_ms is None
                &&& c.account_request_max_concurrency == v.request_max_concurrency
                &&& c.account_request_min_start_interval_ms == v.request_min_start_interval_ms
                &&& c.cached_error_message.deep_view() == cached_auth_error(
                    v.last_error.deep_view(),
                    v.last_refresh_at_ms,
                    v.auth_refresh_enabled,
                    v.token_is_usable,
                    status_for(statuses@, account_name@),
                )
            })
        }),
{
    proof {
        reveal_strlit("active");
    }
    let k = match find_route_view(views, account_name) {
        Some(k) => k,
        None => return None,
    };
    let view = &views[k];
    if !str_equals(view.status.as_str(), "active") || !auth_present {
        return None;
    }
    let status = find_route_status(statuses, account_name);
    let cached_error_message = codex_cached_error_message(
        match &view.last_error { Some(e) => Some(e.as_str()), None => None },
        view.last_refresh_at_ms,
        view.auth_refresh_enabled,
        view.token_is_usable,
        status,
    );
    Some(CodexRouteCandidate {
        account_name: view.account_name.clone(),
        view_index: k,
        account_group_id_at_event: None,
        route_strategy_at_event: RouteStrategy::Auto,
        map_gpt53_codex_to_spark: view.map_gpt53_codex_to_spark,
        auth_refresh_enabled: view.auth_refresh_enabled,
        codex_fast_enabled: true,
        request_max_concurrency: None,
        request_min_start_interval_ms: None,
        account_request_max_concurrency: view.request_max_concurrency,
        account_request_min_start_interval_ms: view.request_min_start_interval_ms,
        cached_error_message,
    })
}

/// The view found for a name, if any, has that name, and it is the last
/// one with it.
pub proof fn lemma_last_view_index_names(views: Seq<CodexAccountRouteView>, name: Seq<char>)
    ensures
        -1 <= last_view_index(views, name) < views.len(),
        last_view_index(views, name) >= 0 ==> views[last_view_index(views, name)].account_name@ == name
            && forall|j: int| last_view_index(views, name) < j < views.len() ==> (#[trigger] views[j]).account_name@ != name,
        last_view_index(views, name) == -1 ==> forall|j: int| 0 <= j < views.len() ==> (#[trigger] views[j]).account_name@ != name,
    decreases views.len(),
{
    if views.len() > 0 {
        lemma_last_view_index_names(views.drop_last(), name);
        assert forall|j: int| 0 <= j < views.len() - 1 implies views.drop_last()[j] == views[j] by {}
    }
}

/// The candidates of a key are views that are `active` and named by one of
/// the key's selected accounts, at most one per selected name.
pub proof fn lemma_candidate_views_are_active_selected(names: Seq<String>, views: Seq<CodexAccountRouteView>)
    ensures
        candidate_views(names, views).len() <= names.len(),
        forall|j: int| 0 <= j < candidate_views(names, views).len() ==> {
            let k = #[trigger] candidate_views(names, views)[j];
            &&& 0 <= k < views.len()
            &&& views[k].status@ == "active"@
            &&& exists|i: int| 0 <= i < names.len() && (#[trigger] names[i])@ == views[k].account_name@
        },
    decreases names.len(),
{
    if names.len() > 0 {
        let prefix = names.drop_last();
        lemma_candidate_views_are_active_selected(prefix, views);
        lemma_last_view_index_names(views, names.last()@);
        let r = candidate_views(names, views);
        let before = candidate_views(prefix, views);
        assert forall|j: int| 0 <= j < r.len() implies {
            let k = #[trigger] r[j];
            &&& 0 <= k < views.len()
            &&& views[k].status@ == "active"@
            &&& exists|i: int| 0 <= i < names.len() && (#[trigger] names[i])@ == views[k].account_name@
        } by {
            if j < before.len() {
                assert(r[j] == before[j]);
                let k = before[j];
                let i = choose|i: int| 0 <= i < prefix.len() && (#[trigger] prefix[i])@ == views[k].account_name@;
                assert(names[i] == prefix[i]);
            } else {
                assert(names[names.len() - 1] == names.last());
            }
        }
    }
}

} // verus!
