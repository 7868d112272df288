//! Configuration: values and the rules that resolve providers, models and
//! credentials from them.
pub mod env;
pub mod types;

use vstd::prelude::*;

use crate::config::env::{env_value, env_view, lookup, provider_api_key, env_api_key};
use crate::config::types::{
    LiteLLMConfig, ModelTiers, ProviderConfig, ProviderConfigView, ProviderDefaults, ReviewConfig,
};
use crate::error::Error;
use crate::review::response::opt_view;
use crate::text::{all_ws, chars_of, is_blank, push_str, str_eq, string_from};

verus! {

/// The configuration that the rules read. Model prices are kept by the
/// program beside it.
#[derive(Debug, PartialEq, Eq)]
pub struct Config {
    pub defaults: ProviderDefaults,
    pub providers: Vec<(String, ProviderConfig)>,
    pub tiers: ModelTiers,
    pub litellm: Option<LiteLLMConfig>,
    pub review: ReviewConfig,
}

impl Config {
    /// The configuration's own invariant: every provider is configured under
    /// a name of its own.
    pub open spec fn wf(&self) -> bool {
        names_distinct(providers_view(self.providers@))
    }
}

pub open spec fn providers_view(v: Seq<(String, ProviderConfig)>) -> Seq<(Seq<char>, ProviderConfigView)> {
    v.map_values(|p: (String, ProviderConfig)| (p.0@, p.1@))
}

/// The provider configured under `name`: the first entry so named.
pub open spec fn provider_entry(ps: Seq<(Seq<char>, ProviderConfigView)>, name: Seq<char>) -> Option<ProviderConfigView>
    decreases ps.len(),
{
    if ps.len() == 0 {
        None
    } else if ps[0].0 == name {
        Some(ps[0].1)
    } else {
        provider_entry(ps.drop_first(), name)
    }
}

fn find_provider<'a>(providers: &'a Vec<(String, ProviderConfig)>, name: &str) -> (r: Option<&'a ProviderConfig>)
    ensures
        match r {
            Some(p) => provider_entry(providers_view(providers@), name@) == Some(p@),
            None => provider_entry(providers_view(providers@), name@) is None,
        },
{
    let mut k: usize = 0;
    assert(providers_view(providers@).skip(0) =~= providers_view(providers@));
    while k < providers.len()
        invariant
            k <= providers@.len(),
            provider_entry(providers_view(providers@), name@) == provider_entry(
                providers_view(providers@).skip(k as int),
                name@,
            ),
        decreases providers@.len() - k,
    {
        let ghost rest = providers_view(providers@).skip(k as int);
        assert(rest[0] == (providers@[k as int].0@, providers@[k as int].1@));
        if str_eq(providers[k].0.as_str(), name) {
            return Some(&providers[k].1);
        }
        assert(rest.drop_first() =~= providers_view(providers@).skip(k + 1));
        k += 1;
    }
    None
}

/// A known provider at its public endpoint, without credentials.
pub open spec fn builtin_provider(endpoint: Seq<char>) -> ProviderConfigView {
    ProviderConfigView { endpoint, api_key: None, default_model: None, catalog_endpoint: None }
}

/// The provider that `name` resolves to: the configured one, else the
/// built-in OpenAI and OpenRouter providers; `None` for an unknown name.
pub open spec fn provider_for(ps: Seq<(Seq<char>, ProviderConfigView)>, name: Seq<char>) -> Option<ProviderConfigView> {
    match provider_entry(ps, name) {
        Some(p) => Some(p),
        None => if name == "openai"@ {
            Some(builtin_provider("https://api.openai.com/v1"@))
        } else if name == "openrouter"@ {
            Some(builtin_provider("https://openrouter.ai/api/v1"@))
        } else {
            None
        },
    }
}

pub fn resolve_provider(config: &Config, provider_name: &str) -> (r: Result<ProviderConfig, Error>)
    ensures
        match r {
            Ok(p) => provider_for(providers_view(config.providers@), provider_name@) == Some(p@),
            Err(e) => provider_for(providers_view(config.providers@), provider_name@) is None && (
            e matches Error::ProviderNotFound(n) && n@ == provider_name@),
        },
{
    match find_provider(&config.providers, provider_name) {
        Some(p) => Ok(p.clone()),
        None => {
            if str_eq(provider_name, "openai") {
                Ok(
                    ProviderConfig {
                        endpoint: String::from_str("https://api.openai.com/v1"),
                        api_key: None,
                        default_model: None,
                        catalog_endpoint: None,
                    },
                )
            } else if str_eq(provider_name, "openrouter") {
                Ok(
                    ProviderConfig {
                        endpoint: String::from_str("https://openrouter.ai/api/v1"),
                        api_key: None,
                        default_model: None,
                        catalog_endpoint: None,
                    },
                )
            } else {
                Err(Error::ProviderNotFound(String::from_str(provider_name)))
            }
        },
    }
}

/// The model of the default provider when no tier or default names one.
pub open spec fn default_model_for(config: Config) -> Result<Seq<char>, Seq<char>> {
    let provider = match opt_view(config.defaults.provider) {
        Some(p) => p,
        None => "openrouter"@,
    };
    if provider == "openai"@ {
        Ok("gpt-4o-mini"@)
    } else if provider == "openrouter"@ {
        Ok("~deepseek/deepseek-v4-flash-latest"@)
    } else {
        match provider_entry(providers_view(config.providers@), provider) {
            Some(pc) => match pc.default_model {
                Some(m) => Ok(m),
                None => Err("no default model configured"@),
            },
            None => Err("no default model configured"@),
        }
    }
}

fn resolve_default_model(config: &Config) -> (r: Result<String, Error>)
    ensures
        match r {
            Ok(m) => default_model_for(*config) == Ok::<Seq<char>, Seq<char>>(m@),
            Err(e) => default_model_for(*config) == Err::<Seq<char>, Seq<char>>("no default model configured"@)
                && (e matches Error::ConfigError(m) && m@ == "no default model configured"@),
        },
{
    let provider: &str = match &config.defaults.provider {
        Some(p) => p.as_str(),
        None => "openrouter",
    };
    if str_eq(provider, "openai") {
        Ok(String::from_str("gpt-4o-mini"))
    } else if str_eq(provider, "openrouter") {
        Ok(String::from_str("~deepseek/deepseek-v4-flash-latest"))
    } else {
        match find_provider(&config.providers, provider) {
            Some(pc) => match &pc.default_model {
                Some(m) => Ok(m.clone()),
                None => Err(Error::ConfigError(String::from_str("no default model configured"))),
            },
            None => Err(Error::ConfigError(String::from_str("no default model configured"))),
        }
    }
}

/// The model for a request: an explicit model, else the tier's model, else
/// the default model, else the default provider's model. An unknown tier is
/// an error (the outer `Err` holds the tier).
pub open spec fn model_for(config: Config, tier: Option<Seq<char>>, explicit: Option<Seq<char>>) -> Result<
    Result<Seq<char>, Seq<char>>,
    Seq<char>,
> {
    match explicit {
        Some(m) => Ok(Ok(m)),
        None => {
            let slot = if tier is None || tier == Some("1"@) {
                Some(opt_view(config.tiers.small))
            } else if tier == Some("2"@) {
                Some(opt_view(config.tiers.normal))
            } else if tier == Some("3"@) {
                Some(opt_view(config.tiers.thinking))
            } else {
                None
            };
            match slot {
                None => Err(tier->0),
                Some(Some(m)) => Ok(Ok(m)),
                Some(None) => match opt_view(config.defaults.model) {
                    Some(m) => Ok(Ok(m)),
                    None => Ok(default_model_for(config)),
                },
            }
        },
    }
}

/// Which model a request uses: an explicit model always; else a configured
/// tier model, the small tier's for no tier or "1", the normal tier's for
/// "2" and the thinking tier's for "3", else the default model; a tier
/// other than these is refused.
pub proof fn tier_models_are_used(config: Config, tier: Option<Seq<char>>, explicit: Option<Seq<char>>)
    ensures
        explicit matches Some(e) ==> model_for(config, tier, explicit) == Ok::<_, Seq<char>>(Ok::<_, Seq<char>>(e)),
        opt_view(config.tiers.small) matches Some(m) ==> model_for(config, None, None) == Ok::<_, Seq<char>>(
            Ok::<_, Seq<char>>(m),
        ) && model_for(config, Some("1"@), None) == Ok::<_, Seq<char>>(Ok::<_, Seq<char>>(m)),
        opt_view(config.tiers.normal) matches Some(m) ==> model_for(config, Some("2"@), None) == Ok::<
            _,
            Seq<char>,
        >(Ok::<_, Seq<char>>(m)),
        opt_view(config.tiers.thinking) matches Some(m) ==> model_for(config, Some("3"@), None) == Ok::<
            _,
            Seq<char>,
        >(Ok::<_, Seq<char>>(m)),
        opt_view(config.tiers.small) is None ==> (opt_view(config.defaults.model) matches Some(d)
            ==> model_for(config, None, None) == Ok::<_, Seq<char>>(Ok::<_, Seq<char>>(d))),
        tier matches Some(t) ==> (t != "1"@ && t != "2"@ && t != "3"@ ==> model_for(config, tier, None) == Err::<
            Result<Seq<char>, Seq<char>>,
            _,
        >(t)),
{
    reveal_strlit("1");
    reveal_strlit("2");
    reveal_strlit("3");
    assert("2"@ != "1"@) by {
        assert("2"@[0] != "1"@[0]);
    }
    assert("3"@ != "1"@) by {
        assert("3"@[0] != "1"@[0]);
    }
    assert("3"@ != "2"@) by {
        assert("3"@[0] != "2"@[0]);
    }
}

pub fn resolve_model(config: &Config, tier: Option<&str>, explicit_model: Option<&str>) -> (r: Result<String, Error>)
    ensures
        ({
            let tier_view = match tier {
                Some(t) => Some(t@),
                None => None,
            };
            let explicit_view = match explicit_model {
                Some(m) => Some(m@),
                None => None,
            };
            match model_for(*config, tier_view, explicit_view) {
                Ok(Ok(m)) => r matches Ok(x) && x@ == m,
                Ok(Err(msg)) => r matches Err(Error::ConfigError(x)) && x@ == msg,
                Err(t) => r matches Err(Error::ConfigError(x)) && x@ == "unknown tier: "@ + t,
            }
        }),
{
    if let Some(model) = explicit_model {
        return Ok(String::from_str(model));
    }
    let slot: Option<&Option<String>> = match tier {
        None => Some(&config.tiers.small),
        Some(t) => {
            if str_eq(t, "1") {
                Some(&config.tiers.small)
            } else if str_eq(t, "2") {
                Some(&config.tiers.normal)
            } else if str_eq(t, "3") {
                Some(&config.tiers.thinking)
            } else {
                None
            }
        },
    };
    match slot {
        None => {
            let t = match tier {
                Some(t) => t,
                None => "",
            };
            let mut message = String::from_str("unknown tier: ");
            push_str(&mut message, t);
            Err(Error::ConfigError(message))
        },
        Some(Some(model)) => Ok(model.clone()),
        Some(None) => match &config.defaults.model {
            Some(model) => Ok(model.clone()),
            None => resolve_default_model(config),
        },
    }
}

pub open spec fn is_name_char(c: char, first: bool) -> bool {
    c == '_' || ('A' <= c && c <= 'Z') || (!first && '0' <= c && c <= '9')
}

/// The variable that a `${NAME}` credential refers to: a non-empty name of
/// `_`, uppercase ASCII letters and (after the first) digits.
pub open spec fn reference_name(v: Seq<char>) -> Option<Seq<char>> {
    if v.len() >= 3 && v[0] == '$' && v[1] == '{' && v.last() == '}' {
        let name = v.subrange(2, v.len() - 1);
        if name.len() > 0 && forall|k: int| 0 <= k < name.len() ==> is_name_char(#[trigger] name[k], k == 0) {
            Some(name)
        } else {
            None
        }
    } else {
        None
    }
}

pub fn environment_reference(value: &str) -> (r: Option<String>)
    ensures
        match r {
            Some(n) => reference_name(value@) == Some(n@),
            None => reference_name(value@) is None,
        },
{
    let v = chars_of(value);
    if v.len() <= 3 || v[0] != '$' || v[1] != '{' || v[v.len() - 1] != '}' {
        return None;
    }
    let name_end = v.len() - 1;
    let ghost name = v@.subrange(2, name_end as int);
    let mut k: usize = 2;
    while k < name_end
        invariant
            2 <= k <= name_end,
            name_end == v@.len() - 1,
            name == v@.subrange(2, name_end as int),
            v@ == value@,
            v@.len() > 3,
            v@[0] == '$' && v@[1] == '{' && v@.last() == '}',
            forall|j: int| 0 <= j < k - 2 ==> is_name_char(#[trigger] name[j], j == 0),
        decreases name_end - k,
    {
        let c = v[k];
        let first = k == 2;
        if !(c == '_' || ('A' <= c && c <= 'Z') || (!first && '0' <= c && c <= '9')) {
            assert(!is_name_char(name[k - 2], k - 2 == 0));
            return None;
        }
        k += 1;
    }
    Some(string_from(v.as_slice(), 2, name_end))
}

/// A configured credential: a `${NAME}` reference resolves from the
/// environment; other text is the credential itself.
pub open spec fn expanded_key(value: Seq<char>, env: Seq<(Seq<char>, Seq<char>)>) -> Result<Seq<char>, Seq<char>> {
    if all_ws(value) {
        Err("api key is empty"@)
    } else {
        match reference_name(value) {
            None => Ok(value),
            Some(name) => match env_value(env, name) {
                Some(k) => if k.len() > 0 {
                    Ok(k)
                } else {
                    Err("api key environment variable '"@ + name + "' is not set"@)
                },
                None => Err("api key environment variable '"@ + name + "' is not set"@),
            },
        }
    }
}

pub open spec fn auth_result(r: Result<String, Error>, s: Result<Seq<char>, Seq<char>>) -> bool {
    match s {
        Ok(k) => r matches Ok(x) && x@ == k,
        Err(m) => r matches Err(Error::AuthError(x)) && x@ == m,
    }
}

pub fn expand_api_key(value: &str, env: &[(String, String)]) -> (r: Result<String, Error>)
    ensures
        auth_result(r, expanded_key(value@, env_view(env@))),
{
    if is_blank(value) {
        return Err(Error::AuthError(String::from_str("api key is empty")));
    }
    let name = match environment_reference(value) {
        None => return Ok(String::from_str(value)),
        Some(n) => n,
    };
    match lookup(env, name.as_str()) {
        Some(key) => {
            if chars_of(key).len() > 0 {
                return Ok(String::from_str(key));
            }
        },
        None => {},
    }
    let mut message = String::from_str("api key environment variable '");
    push_str(&mut message, name.as_str());
    push_str(&mut message, "' is not set");
    Err(Error::AuthError(message))
}

/// The credential of a provider: its configured key (expanded), else the
/// environment's.
pub open spec fn provider_key(provider: Seq<char>, pc: ProviderConfigView, env: Seq<(Seq<char>, Seq<char>)>) -> Result<Seq<char>, Seq<char>> {
    match pc.api_key {
        Some(k) => expanded_key(k, env),
        None => match env_api_key(env, provider) {
            Some(k) => Ok(k),
            None => Err("api key not found for provider '"@ + provider + "'"@),
        },
    }
}

pub fn get_provider_api_key(provider_name: &str, provider_config: &ProviderConfig, env: &[(String, String)]) -> (r: Result<String, Error>)
    ensures
        auth_result(r, provider_key(provider_name@, provider_config@, env_view(env@))),
{
    if let Some(key) = &provider_config.api_key {
        return expand_api_key(key.as_str(), env);
    }
    if let Some(key) = provider_api_key(provider_name, env) {
        return Ok(key);
    }
    let mut message = String::from_str("api key not found for provider '");
    push_str(&mut message, provider_name);
    push_str(&mut message, "'");
    Err(Error::AuthError(message))
}

/// Whether a provider resolves and has a usable credential.
pub fn provider_ready(config: &Config, provider_name: &str, env: &[(String, String)]) -> (b: bool)
    ensures
        b == match provider_for(providers_view(config.providers@), provider_name@) {
            Some(p) => provider_key(provider_name@, p, env_view(env@)) is Ok,
            None => false,
        },
{
    match resolve_provider(config, provider_name) {
        Ok(provider) => get_provider_api_key(provider_name, &provider, env).is_ok(),
        Err(_) => false,
    }
}


/// `ps` with the entry `name` set to `pc`: the first entry so named is
/// replaced, else the entry is added.
pub open spec fn upsert(ps: Seq<(Seq<char>, ProviderConfigView)>, name: Seq<char>, pc: ProviderConfigView) -> Seq<(Seq<char>, ProviderConfigView)>
    decreases ps.len(),
{
    if ps.len() == 0 {
        seq![(name, pc)]
    } else if ps[0].0 == name {
        ps.update(0, (name, pc))
    } else {
        seq![ps[0]] + upsert(ps.drop_first(), name, pc)
    }
}

/// The provider entry a saved draft becomes: its endpoint and credential,
/// keeping the default model and catalog of the entry it replaces.
pub open spec fn draft_entry(d: crate::provider::setup::ProviderDraft, old: Option<ProviderConfigView>) -> ProviderConfigView {
    ProviderConfigView {
        endpoint: d.endpoint@,
        api_key: Some(d.api_key@),
        default_model: match old {
            Some(p) => p.default_model,
            None => None,
        },
        catalog_endpoint: match old {
            Some(p) => p.catalog_endpoint,
            None => None,
        },
    }
}

/// Record a provider draft in the configuration: it becomes the default
/// provider, and its entry replaces the one of the same name.
pub fn update_provider_draft(config: &mut Config, draft: &crate::provider::setup::ProviderDraft)
    ensures
        opt_view(final(config).defaults.provider) == Some(draft.name@),
        opt_view(final(config).defaults.model) == opt_view(old(config).defaults.model),
        providers_view(final(config).providers@) == upsert(
            providers_view(old(config).providers@),
            draft.name@,
            draft_entry(*draft, provider_entry(providers_view(old(config).providers@), draft.name@)),
        ),
        final(config).tiers == old(config).tiers,
        final(config).review == old(config).review,
        final(config).litellm == old(config).litellm,
        old(config).wf() ==> final(config).wf(),
{
    proof {
        if names_distinct(providers_view(config.providers@)) {
            upsert_keeps_names_distinct(
                providers_view(config.providers@),
                draft.name@,
                draft_entry(*draft, provider_entry(providers_view(config.providers@), draft.name@)),
            );
        }
    }
    config.defaults.provider = Some(draft.name.clone());
    let ghost ps = providers_view(config.providers@);
    let ghost old_entry = provider_entry(ps, draft.name@);
    let mut k: usize = 0;
    assert(ps.skip(0) =~= ps);
    while k < config.providers.len()
        invariant
            k <= config.providers@.len(),
            ps == providers_view(config.providers@),
            old_entry == provider_entry(ps, draft.name@),
            provider_entry(ps, draft.name@) == provider_entry(ps.skip(k as int), draft.name@),
            forall|j: int| 0 <= j < k ==> ps[j].0 != draft.name@,
            opt_view(config.defaults.provider) == Some(draft.name@),
            config.defaults.model == old(config).defaults.model,
            config.tiers == old(config).tiers,
            config.review == old(config).review,
            config.litellm == old(config).litellm,
            config.providers@ == old(config).providers@,
        decreases config.providers@.len() - k,
    {
        let ghost rest = ps.skip(k as int);
        assert(rest[0] == ps[k as int]);
        if str_eq(config.providers[k].0.as_str(), draft.name.as_str()) {
            let default_model = crate::review::response::clone_opt(&config.providers[k].1.default_model);
            let catalog_endpoint = crate::review::response::clone_opt(&config.providers[k].1.catalog_endpoint);
            let entry = ProviderConfig {
                endpoint: draft.endpoint.clone(),
                api_key: Some(draft.api_key.clone()),
                default_model,
                catalog_endpoint,
            };
            config.providers.set(k, (draft.name.clone(), entry));
            proof {
                lemma_upsert_at(ps, draft.name@, draft_entry(*draft, old_entry), k as int);
            }
            assert(providers_view(config.providers@) =~= ps.update(k as int, (draft.name@, draft_entry(*draft, old_entry))));
            return;
        }
        assert(rest.drop_first() =~= ps.skip(k + 1));
        k += 1;
    }
    let entry = ProviderConfig {
        endpoint: draft.endpoint.clone(),
        api_key: Some(draft.api_key.clone()),
        default_model: None,
        catalog_endpoint: None,
    };
    config.providers.push((draft.name.clone(), entry));
    proof {
        lemma_upsert_absent(ps, draft.name@, draft_entry(*draft, old_entry));
    }
    assert(providers_view(config.providers@) =~= ps.push((draft.name@, draft_entry(*draft, old_entry))));
}

proof fn lemma_upsert_at(ps: Seq<(Seq<char>, ProviderConfigView)>, name: Seq<char>, pc: ProviderConfigView, k: int)
    requires
        0 <= k < ps.len(),
        ps[k].0 == name,
        forall|j: int| 0 <= j < k ==> ps[j].0 != name,
    ensures
        upsert(ps, name, pc) == ps.update(k, (name, pc)),
        provider_entry(ps, name) == Some(ps[k].1),
    decreases k,
{
    if k > 0 {
        lemma_upsert_at(ps.drop_first(), name, pc, k - 1);
        assert(seq![ps[0]] + ps.drop_first().update(k - 1, (name, pc)) =~= ps.update(k, (name, pc)));
    }
}

proof fn lemma_upsert_absent(ps: Seq<(Seq<char>, ProviderConfigView)>, name: Seq<char>, pc: ProviderConfigView)
    requires
        forall|j: int| 0 <= j < ps.len() ==> ps[j].0 != name,
    ensures
        upsert(ps, name, pc) == ps.push((name, pc)),
        provider_entry(ps, name) is None,
    decreases ps.len(),
{
    if ps.len() > 0 {
        lemma_upsert_absent(ps.drop_first(), name, pc);
        assert(seq![ps[0]] + ps.drop_first().push((name, pc)) =~= ps.push((name, pc)));
    }
}

/// Every provider is configured under a name of its own.
pub open spec fn names_distinct(ps: Seq<(Seq<char>, ProviderConfigView)>) -> bool {
    forall|i: int, j: int| 0 <= i < j < ps.len() ==> ps[i].0 != ps[j].0
}

/// Setting a provider's entry keeps every name configured once.
pub proof fn upsert_keeps_names_distinct(ps: Seq<(Seq<char>, ProviderConfigView)>, name: Seq<char>, pc: ProviderConfigView)
    requires
        names_distinct(ps),
    ensures
        names_distinct(upsert(ps, name, pc)),
{
    if exists|j: int| 0 <= j < ps.len() && ps[j].0 == name {
        let j = choose|j: int| 0 <= j < ps.len() && ps[j].0 == name;
        lemma_upsert_at(ps, name, pc, j);
        let u = ps.update(j, (name, pc));
        assert forall|a: int, b: int| 0 <= a < b < u.len() implies u[a].0 != u[b].0 by {
            assert(u[a].0 == ps[a].0);
            assert(u[b].0 == ps[b].0);
        }
    } else {
        lemma_upsert_absent(ps, name, pc);
    }
}

/// After a draft is recorded, the provider resolves to the draft's endpoint
/// and credential.
pub proof fn recorded_draft_resolves(ps: Seq<(Seq<char>, ProviderConfigView)>, name: Seq<char>, pc: ProviderConfigView)
    ensures
        provider_entry(upsert(ps, name, pc), name) == Some(pc),
    decreases ps.len(),
{
    if ps.len() > 0 && ps[0].0 != name {
        recorded_draft_resolves(ps.drop_first(), name, pc);
        assert((seq![ps[0]] + upsert(ps.drop_first(), name, pc)).drop_first() =~= upsert(ps.drop_first(), name, pc));
    }
}



/// Set the entry `name` of `providers` to `provider`: the first entry so
/// named is replaced, else the entry is added.
pub fn set_provider(providers: &mut Vec<(String, ProviderConfig)>, name: String, provider: ProviderConfig)
    ensures
        providers_view(final(providers)@) == upsert(providers_view(old(providers)@), name@, provider@),
        names_distinct(providers_view(old(providers)@)) ==> names_distinct(providers_view(final(providers)@)),
{
    let ghost ps = providers_view(providers@);
    proof {
        if names_distinct(ps) {
            upsert_keeps_names_distinct(ps, name@, provider@);
        }
    }
    let mut k: usize = 0;
    while k < providers.len()
        invariant
            k <= providers@.len(),
            ps == providers_view(providers@),
            providers@ == old(providers)@,
            forall|j: int| 0 <= j < k ==> ps[j].0 != name@,
        decreases providers@.len() - k,
    {
        assert(ps[k as int] == (providers@[k as int].0@, providers@[k as int].1@));
        if str_eq(providers[k].0.as_str(), name.as_str()) {
            let ghost entry = (name@, provider@);
            providers.set(k, (name, provider));
            proof {
                lemma_upsert_at(ps, entry.0, entry.1, k as int);
            }
            assert(providers_view(providers@) =~= ps.update(k as int, entry));
            return;
        }
        k += 1;
    }
    let ghost entry = (name@, provider@);
    providers.push((name, provider));
    proof {
        lemma_upsert_absent(ps, entry.0, entry.1);
    }
    assert(providers_view(providers@) =~= ps.push(entry));
}

/// The providers set by `entries` in order: a later entry of a name
/// replaces an earlier one.
pub open spec fn providers_set(entries: Seq<(Seq<char>, ProviderConfigView)>) -> Seq<(Seq<char>, ProviderConfigView)>
    decreases entries.len(),
{
    if entries.len() == 0 {
        seq![]
    } else {
        upsert(providers_set(entries.drop_last()), entries.last().0, entries.last().1)
    }
}

/// The provider list of a configuration from named entries, each name
/// configured once.
pub fn providers_from(entries: &Vec<(String, ProviderConfig)>) -> (r: Vec<(String, ProviderConfig)>)
    ensures
        providers_view(r@) == providers_set(providers_view(entries@)),
        names_distinct(providers_view(r@)),
{
    let ghost es = providers_view(entries@);
    let mut r: Vec<(String, ProviderConfig)> = Vec::new();
    let mut k: usize = 0;
    assert(es.take(0) =~= Seq::<(Seq<char>, ProviderConfigView)>::empty());
    while k < entries.len()
        invariant
            k <= entries@.len(),
            es == providers_view(entries@),
            providers_view(r@) == providers_set(es.take(k as int)),
            names_distinct(providers_view(r@)),
        decreases entries@.len() - k,
    {
        let name = entries[k].0.clone();
        let provider = entries[k].1.clone();
        assert(es[k as int] == (entries@[k as int].0@, entries@[k as int].1@));
        set_provider(&mut r, name, provider);
        assert(es.take(k + 1).drop_last() =~= es.take(k as int));
        assert(es.take(k + 1).last() == es[k as int]);
        k += 1;
    }
    assert(es.take(es.len() as int) =~= es);
    r
}

impl Default for Config {
    fn default() -> (c: Self)
        ensures
            opt_view(c.defaults.provider) == Some("openrouter"@),
            c.defaults.model is None,
            c.providers@.len() == 0,
            c.wf(),
            c.tiers.small is None && c.tiers.normal is None && c.tiers.thinking is None,
            c.tiers.reasoning.is_blank_config(),
            c.litellm is None,
            c.review.panel,
    {
        Config {
            defaults: ProviderDefaults::default(),
            providers: Vec::new(),
            tiers: ModelTiers::default(),
            litellm: None,
            review: ReviewConfig::default(),
        }
    }
}

/// Record the confirmed model and reasoning of each tier; tiers without a
/// choice keep their settings. The result says whether any tier changed.
pub fn record_tier_choices(tiers: &mut ModelTiers, choices: &[Option<(String, String)>; 3]) -> (changed: bool)
    ensures
        changed == (choices@[0] is Some || choices@[1] is Some || choices@[2] is Some),
        match choices@[0] {
            Some(c) => opt_view(final(tiers).small) == Some(c.0@) && opt_view(final(tiers).reasoning.small) == Some(c.1@),
            None => final(tiers).small == old(tiers).small && final(tiers).reasoning.small == old(tiers).reasoning.small,
        },
        match choices@[1] {
            Some(c) => opt_view(final(tiers).normal) == Some(c.0@) && opt_view(final(tiers).reasoning.normal) == Some(c.1@),
            None => final(tiers).normal == old(tiers).normal && final(tiers).reasoning.normal == old(tiers).reasoning.normal,
        },
        match choices@[2] {
            Some(c) => opt_view(final(tiers).thinking) == Some(c.0@) && opt_view(final(tiers).reasoning.thinking) == Some(c.1@),
            None => final(tiers).thinking == old(tiers).thinking && final(tiers).reasoning.thinking == old(tiers).reasoning.thinking,
        },
{
    let mut changed = false;
    if let Some((model, reasoning)) = &choices[0] {
        tiers.small = Some(model.clone());
        tiers.reasoning.small = Some(reasoning.clone());
        changed = true;
    }
    if let Some((model, reasoning)) = &choices[1] {
        tiers.normal = Some(model.clone());
        tiers.reasoning.normal = Some(reasoning.clone());
        changed = true;
    }
    if let Some((model, reasoning)) = &choices[2] {
        tiers.thinking = Some(model.clone());
        tiers.reasoning.thinking = Some(reasoning.clone());
        changed = true;
    }
    changed
}


/// Where the configuration file is: under `XDG_CONFIG_HOME`, else under
/// `~/.config`, else under the working directory.
pub open spec fn config_path_for(env: Seq<(Seq<char>, Seq<char>)>) -> Seq<char> {
    let base = match env_value(env, "XDG_CONFIG_HOME"@) {
        Some(dir) => dir,
        None => match env_value(env, "HOME"@) {
            Some(home) => crate::shell_shortcut::joined(home, ".config"@),
            None => "."@,
        },
    };
    crate::shell_shortcut::joined(crate::shell_shortcut::joined(base, "watn"@), "config.toml"@)
}

/// The path of the configuration file for an environment.
pub fn xdg_config_path(env: &[(String, String)]) -> (r: String)
    ensures
        r@ == config_path_for(env_view(env@)),
{
    let base = match lookup(env, "XDG_CONFIG_HOME") {
        Some(dir) => dir.to_string(),
        None => match lookup(env, "HOME") {
            Some(home) => crate::shell_shortcut::join_path(home, ".config"),
            None => String::from_str("."),
        },
    };
    let dir = crate::shell_shortcut::join_path(base.as_str(), "watn");
    crate::shell_shortcut::join_path(dir.as_str(), "config.toml")
}

/// A line that holds a setting: not blank, and no comment.
pub open spec fn setting_line(line: Seq<char>) -> bool {
    let t = crate::text::trim(line);
    t.len() > 0 && t[0] != '#'
}

/// Whether a configuration text holds any setting.
pub fn has_settings(content: &str) -> (b: bool)
    ensures
        b == exists|k: int| 0 <= k < crate::config::types::text_lines(content@).len()
            && setting_line(#[trigger] crate::config::types::text_lines(content@)[k]),
{
    let lines = crate::config::types::lines_of(content);
    let mut k: usize = 0;
    while k < lines.len()
        invariant
            k <= lines@.len(),
            crate::text::views_of(lines@) == crate::config::types::text_lines(content@),
            forall|j: int| 0 <= j < k ==> !setting_line(#[trigger] crate::config::types::text_lines(content@)[j]),
        decreases lines@.len() - k,
    {
        let t = crate::text::trimmed_chars(lines[k].as_str());
        assert(crate::config::types::text_lines(content@)[k as int] == lines@[k as int]@);
        if t.len() > 0 && t[0] != '#' {
            return true;
        }
        k += 1;
    }
    false
}

/// The warning about a configuration file that others can read, from its
/// mode: the permission bits in octal.
pub fn world_readable_warning(mode: u32) -> (r: Option<String>)
    ensures
        match r {
            Some(w) => (mode / 4) % 2 == 1 && w@ == "warning: config file is world-readable ("@
                + crate::text::octal_text((mode % 512) as nat) + ")"@,
            None => (mode / 4) % 2 == 0,
        },
{
    if (mode / 4) % 2 == 0 {
        return None;
    }
    let mut w = String::from_str("warning: config file is world-readable (");
    let bits = crate::text::octal((mode % 512) as u64);
    push_str(&mut w, bits.as_str());
    push_str(&mut w, ")");
    Some(w)
}

/// The name of the temporary file that replaces `file_name`.
pub fn temporary_file_name(file_name: &str, first: u64, second: u64) -> (r: String)
    ensures
        r@ == "."@ + file_name@ + ".watn-"@ + crate::text::decimal_text(first as nat) + "-"@
            + crate::text::decimal_text(second as nat) + ".tmp"@,
{
    let mut r = String::from_str(".");
    push_str(&mut r, file_name);
    push_str(&mut r, ".watn-");
    push_str(&mut r, crate::text::decimal(first).as_str());
    push_str(&mut r, "-");
    push_str(&mut r, crate::text::decimal(second).as_str());
    push_str(&mut r, ".tmp");
    r
}


/// Whether every model tier names a model.
pub fn model_roles_ready(config: &Config) -> (b: bool)
    ensures
        b == (config.tiers.small is Some && config.tiers.normal is Some && config.tiers.thinking is Some),
{
    config.tiers.small.is_some() && config.tiers.normal.is_some() && config.tiers.thinking.is_some()
}

} // verus!
