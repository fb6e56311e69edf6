//! Resolving the upstream proxy of a provider account from its proxy mode:
//! no proxy (`none`, `direct`), a named proxy config (`fixed`), or the
//! provider's proxy binding (any other mode).
use vstd::prelude::*;
use crate::text::{concat2, str_equals};
use crate::usage_row::dup_opt_string;

verus! {

/// The proxy a request goes through.
#[derive(Debug, Clone, PartialEq, Eq)]
pub struct ProviderProxyConfig {
    pub proxy_url: String,
    pub proxy_username: Option<String>,
    pub proxy_password: Option<String>,
}

/// A proxy config as the admin store holds it.
#[derive(Debug, Clone)]
pub struct AdminProxyConfigFacts {
    pub id: String,
    pub name: String,
    pub status: String,
    pub proxy_url: String,
    pub proxy_username: Option<String>,
    pub proxy_password: Option<String>,
}

/// The provider's proxy binding, as resolved for this node.
#[derive(Debug, Clone)]
pub struct ProxyBindingFacts {
    pub error_message: Option<String>,
    pub effective_proxy_url: Option<String>,
    pub effective_proxy_username: Option<String>,
    pub effective_proxy_password: Option<String>,
}

/// What proxy resolution reads: the proxy configs and the binding.
#[derive(Debug, Clone)]
pub struct ProviderProxyResolutionContext {
    pub proxy_configs: Vec<AdminProxyConfigFacts>,
    pub binding: ProxyBindingFacts,
}

/// Why an account's proxy cannot be resolved.
#[derive(Debug, Clone, PartialEq, Eq)]
pub enum ProxyResolutionError {
    FixedWithoutConfigId,
    FixedConfigMissing { proxy_config_id: String },
    FixedConfigDisabled { name: String },
    BindingInvalid { message: String },
}

impl ProxyResolutionError {
    /// The error's message.
    pub fn message(&self) -> (r: String)
        ensures
            r@ == match self {
                ProxyResolutionError::FixedWithoutConfigId => "fixed proxy mode requires proxy_config_id"@,
                ProxyResolutionError::FixedConfigMissing { proxy_config_id } => "fixed proxy config `"@
                    + proxy_config_id@ + "` is missing"@,
                ProxyResolutionError::FixedConfigDisabled { name } => "fixed proxy config `"@ + name@ + "` is disabled"@,
                ProxyResolutionError::BindingInvalid { message } => "provider proxy binding is invalid: "@ + message@,
            },
    {
        match self {
            ProxyResolutionError::FixedWithoutConfigId => "fixed proxy mode requires proxy_config_id".to_owned(),
            ProxyResolutionError::FixedConfigMissing { proxy_config_id } => {
                let head = concat2("fixed proxy config `", proxy_config_id.as_str());
                concat2(head.as_str(), "` is missing")
            },
            ProxyResolutionError::FixedConfigDisabled { name } => {
                let head = concat2("fixed proxy config `", name.as_str());
                concat2(head.as_str(), "` is disabled")
            },
            ProxyResolutionError::BindingInvalid { message } => concat2(
                "provider proxy binding is invalid: ",
                message.as_str(),
            ),
        }
    }
}

/// What a resolution error says, over plain text.
pub enum ProxyErrorView {
    FixedWithoutConfigId,
    FixedConfigMissing(Seq<char>),
    FixedConfigDisabled(Seq<char>),
    BindingInvalid(Seq<char>),
}

/// The view of a resolution error.
pub open spec fn error_view(e: ProxyResolutionError) -> ProxyErrorView {
    match e {
        ProxyResolutionError::FixedWithoutConfigId => ProxyErrorView::FixedWithoutConfigId,
        ProxyResolutionError::FixedConfigMissing { proxy_config_id } => ProxyErrorView::FixedConfigMissing(proxy_config_id@),
        ProxyResolutionError::FixedConfigDisabled { name } => ProxyErrorView::FixedConfigDisabled(name@),
        ProxyResolutionError::BindingInvalid { message } => ProxyErrorView::BindingInvalid(message@),
    }
}

/// The view of a resolution outcome.
pub open spec fn outcome_view(
    r: Result<Option<ProviderProxyConfig>, ProxyResolutionError>,
) -> Result<Option<ProviderProxyConfig>, ProxyErrorView> {
    match r {
        Ok(p) => Ok(p),
        Err(e) => Err(error_view(e)),
    }
}

/// The config with id `id`: the last one so named, as in a map collected
/// from the configs.
pub open spec fn config_for(configs: Seq<AdminProxyConfigFacts>, id: Seq<char>) -> Option<AdminProxyConfigFacts>
    decreases configs.len(),
{
    if configs.len() == 0 {
        None
    } else if configs.last().id@ == id {
        Some(configs.last())
    } else {
        config_for(configs.drop_last(), id)
    }
}

/// The proxy of a config, as a request uses it.
pub open spec fn proxy_of_config(c: AdminProxyConfigFacts) -> ProviderProxyConfig {
    ProviderProxyConfig { proxy_url: c.proxy_url, proxy_username: c.proxy_username, proxy_password: c.proxy_password }
}

/// What resolution gives for a mode, a config id and a context.
pub open spec fn resolved_proxy(
    mode: Seq<char>,
    proxy_config_id: Option<Seq<char>>,
    context: ProviderProxyResolutionContext,
) -> Result<Option<ProviderProxyConfig>, ProxyErrorView> {
    if mode == "none"@ || mode == "direct"@ {
        Ok(None)
    } else if mode == "fixed"@ {
        match proxy_config_id {
            None => Err(ProxyErrorView::FixedWithoutConfigId),
            Some(id) => match config_for(context.proxy_configs@, id) {
                None => Err(ProxyErrorView::FixedConfigMissing(id)),
                Some(c) => if c.status@ == "active"@ {
                    Ok(Some(proxy_of_config(c)))
                } else {
                    Err(ProxyErrorView::FixedConfigDisabled(c.name@))
                },
            },
        }
    } else {
        match context.binding.error_message {
            Some(m) => Err(ProxyErrorView::BindingInvalid(m@)),
            None => match context.binding.effective_proxy_url {
                Some(url) => Ok(Some(ProviderProxyConfig {
                    proxy_url: url,
                    proxy_username: context.binding.effective_proxy_username,
                    proxy_password: context.binding.effective_proxy_password,
                })),
                None => Ok(None),
            },
        }
    }
}

/// The position of the config with id `id`.
fn find_config(configs: &Vec<AdminProxyConfigFacts>, id: &str) -> (r: Option<usize>)
    ensures
        r matches Some(k) ==> k < configs@.len() && config_for(configs@, id@) == Some(configs@[k as int]),
        r is None ==> config_for(configs@, id@) is None,
{
    let mut found: Option<usize> = None;
    let mut i: usize = 0;
    while i < configs.len()
        invariant
            i <= configs@.len(),
            found matches Some(k) ==> k < i && config_for(configs@.take(i as int), id@) == Some(configs@[k as int]),
            found is None ==> config_for(configs@.take(i as int), id@) is None,
        decreases configs.len() - i,
    {
        assert(configs@.take(i + 1).drop_last() =~= configs@.take(i as int));
        if str_equals(configs[i].id.as_str(), id) {
            found = Some(i);
        }
        i = i + 1;
    }
    assert(configs@.take(configs@.len() as int) =~= configs@);
    found
}

/// Resolves the proxy of an account from its proxy mode and config id: none
/// for `none` and `direct`; for `fixed`, the named config, which must exist
/// and be `active`; otherwise the provider's binding, unless the binding
/// reports an error.
pub fn resolve_provider_proxy_config_from_context(
    proxy_mode: &str,
    proxy_config_id: Option<&str>,
    context: &ProviderProxyResolutionContext,
) -> (r: Result<Option<ProviderProxyConfig>, ProxyResolutionError>)
    ensures
        outcome_view(r) == resolved_proxy(proxy_mode@, crate::metrics::opt_str_view(proxy_config_id), *context),
{
    proof {
        reveal_strlit("none");
        reveal_strlit("direct");
        reveal_strlit("fixed");
        reveal_strlit("active");
    }
    if str_equals(proxy_mode, "none") || str_equals(proxy_mode, "direct") {
        return Ok(None);
    }
    if str_equals(proxy_mode, "fixed") {
        let id = match proxy_config_id {
            Some(id) => id,
            None => return Err(ProxyResolutionError::FixedWithoutConfigId),
        };
        return match find_config(&context.proxy_configs, id) {
            None => Err(ProxyResolutionError::FixedConfigMissing { proxy_config_id: id.to_owned() }),
            Some(k) => {
                let c = &context.proxy_configs[k];
                if str_equals(c.status.as_str(), "active") {
                    Ok(
                        Some(
                            ProviderProxyConfig {
                                proxy_url: c.proxy_url.clone(),
                                proxy_username: dup_opt_string(&c.proxy_username),
                                proxy_password: dup_opt_string(&c.proxy_password),
                            },
                        ),
                    )
                } else {
                    Err(ProxyResolutionError::FixedConfigDisabled { name: c.name.clone() })
                }
            },
        };
    }
    let binding = &context.binding;
    if let Some(message) = &binding.error_message {
        return Err(ProxyResolutionError::BindingInvalid { message: message.clone() });
    }
    match &binding.effective_proxy_url {
        Some(url) => Ok(
            Some(
                ProviderProxyConfig {
                    proxy_url: url.clone(),
                    proxy_username: dup_opt_string(&binding.effective_proxy_username),
                    proxy_password: dup_opt_string(&binding.effective_proxy_password),
                },
            ),
        ),
        None => Ok(None),
    }
}

/// The config found for an id is the last config with that id, and none is
/// found exactly when no config has that id.
pub proof fn lemma_config_for_finds_last_with_id(configs: Seq<AdminProxyConfigFacts>, id: Seq<char>)
    ensures
        config_for(configs, id) is None <==> forall|k: int| 0 <= k < configs.len() ==> (#[trigger] configs[k]).id@ != id,
        config_for(configs, id) matches Some(c) ==> exists|k: int|
            0 <= k < configs.len() && #[trigger] configs[k] == c && c.id@ == id && forall|j: int|
                k < j < configs.len() ==> (#[trigger] configs[j]).id@ != id,
    decreases configs.len(),
{
    if configs.len() > 0 {
        let prefix = configs.drop_last();
        lemma_config_for_finds_last_with_id(prefix, id);
        if configs.last().id@ == id {
            let k = configs.len() - 1;
            assert(configs[k] == configs.last());
        } else {
            assert forall|k: int| 0 <= k < prefix.len() implies configs[k] == prefix[k] by {}
            if config_for(prefix, id) is None {
                assert forall|k: int| 0 <= k < configs.len() implies (#[trigger] configs[k]).id@ != id by {
                    if k < prefix.len() {
                        assert(prefix[k] == configs[k]);
                    }
                }
            } else {
                let c = config_for(prefix, id)->0;
                let k = choose|k: int|
                    0 <= k < prefix.len() && #[trigger] prefix[k] == c && c.id@ == id && forall|j: int|
                        k < j < prefix.len() ==> (#[trigger] prefix[j]).id@ != id;
                assert(configs[k] == c);
                assert forall|j: int| k < j < configs.len() implies (#[trigger] configs[j]).id@ != id by {
                    if j < prefix.len() {
                        assert(prefix[j] == configs[j]);
                    }
                }
                assert(configs[prefix.len() as int].id@ != id);
            }
        }
    }
}

/// How an account's proxy resolves, by mode: `none` and `direct` give no
/// proxy; `fixed` needs a config id, and then the config with that id, which
/// must be `active`, and gives that config's URL, user name and password
/// unchanged (a missing config names the id, a disabled one its name); any
/// other mode reports the binding's error, or gives the binding's URL, user
/// name and password, or no proxy when the binding has no URL.
pub proof fn lemma_resolved_proxy_by_mode(
    mode: Seq<char>,
    proxy_config_id: Option<Seq<char>>,
    context: ProviderProxyResolutionContext,
)
    ensures
        ({
            let r = resolved_proxy(mode, proxy_config_id, context);
            let binding = context.binding;
            &&& (mode == "none"@ || mode == "direct"@ ==> r == Ok::<Option<ProviderProxyConfig>, ProxyErrorView>(None))
            &&& (mode == "fixed"@ && proxy_config_id is None ==> r == Err::<Option<ProviderProxyConfig>, ProxyErrorView>(
                ProxyErrorView::FixedWithoutConfigId,
            ))
            &&& (mode == "fixed"@ ==> (proxy_config_id matches Some(id) ==> {
                &&& (config_for(context.proxy_configs@, id) is None ==> r == Err::<
                    Option<ProviderProxyConfig>,
                    ProxyErrorView,
                >(ProxyErrorView::FixedConfigMissing(id)))
                &&& (config_for(context.proxy_configs@, id) matches Some(c) ==> {
                    &&& (c.status@ == "active"@ ==> (r matches Ok(Some(p)) && p.proxy_url == c.proxy_url
                        && p.proxy_username == c.proxy_username && p.proxy_password == c.proxy_password))
                    &&& (c.status@ != "active"@ ==> r == Err::<Option<ProviderProxyConfig>, ProxyErrorView>(
                        ProxyErrorView::FixedConfigDisabled(c.name@),
                    ))
                })
            }))
            &&& (mode != "none"@ && mode != "direct"@ && mode != "fixed"@ ==> {
                &&& (binding.error_message matches Some(msg) ==> r == Err::<Option<ProviderProxyConfig>, ProxyErrorView>(
                    ProxyErrorView::BindingInvalid(msg@),
                ))
                &&& (binding.error_message is None ==> (binding.effective_proxy_url matches Some(url) ==> (r matches Ok(
                    Some(p),
                ) && p.proxy_url == url && p.proxy_username == binding.effective_proxy_username
                    && p.proxy_password == binding.effective_proxy_password)))
                &&& (binding.error_message is None && binding.effective_proxy_url is None ==> r == Ok::<
                    Option<ProviderProxyConfig>,
                    ProxyErrorView,
                >(None))
            })
        }),
{
    reveal_strlit("none");
    reveal_strlit("direct");
    reveal_strlit("fixed");
    assert("fixed"@.len() != "none"@.len());
    assert("fixed"@.len() != "direct"@.len());
}

} // verus!
