//! Models: the provider catalog's URLs and filters, and the reasoning
//! strength chosen for each model tier.
pub mod dialog;
pub mod list;
pub mod picker;

use vstd::prelude::*;

use crate::error::Error;
use crate::models::list::{ModelEntry, ModelEntryView};
use crate::text::{decimal_text, join, push_str, trim, u64_text, views_of};

verus! {

/// The parts of a catalog line: the id, the name in brackets, the context
/// size in thousands, the price text, the features in square brackets.
pub open spec fn entry_parts(m: ModelEntryView, pricing: Option<Seq<char>>) -> Seq<Seq<char>> {
    let a = seq![m.id];
    let b = match m.name {
        Some(n) => a.push("("@ + n + ")"@),
        None => a,
    };
    let c = match m.context_length {
        Some(n) => b.push(decimal_text((n / 1000) as nat) + "K ctx"@),
        None => b,
    };
    let d = match pricing {
        Some(p) => c.push(p),
        None => c,
    };
    if m.supported_features.len() > 0 {
        d.push("["@ + join(m.supported_features, ", "@) + "]"@)
    } else {
        d
    }
}

/// One line that describes a catalog model, its parts joined by spaces.
/// `pricing` is the price text of the entry, when it has a price.
pub fn format_model_entry(entry: &ModelEntry, pricing: Option<&str>) -> (r: String)
    ensures
        r@ == join(
            entry_parts(
                entry@,
                match pricing {
                    Some(p) => Some(p@),
                    None => None,
                },
            ),
            " "@,
        ),
{
    let mut parts: Vec<String> = Vec::new();
    parts.push(entry.id.clone());
    match &entry.name {
        Some(name) => {
            let mut part = String::from_str("(");
            push_str(&mut part, name.as_str());
            push_str(&mut part, ")");
            parts.push(part);
        },
        None => {},
    }
    match entry.context_length {
        Some(n) => {
            let mut part = crate::text::decimal(n / 1000);
            push_str(&mut part, "K ctx");
            parts.push(part);
        },
        None => {},
    }
    match pricing {
        Some(p) => {
            parts.push(p.to_string());
        },
        None => {},
    }
    if entry.supported_features.len() > 0 {
        let mut part = String::from_str("[");
        let features = crate::text::join_strings(entry.supported_features.as_slice(), ", ");
        push_str(&mut part, features.as_str());
        push_str(&mut part, "]");
        parts.push(part);
    }
    proof {
        let m = entry@;
        assert(views_of(parts@) =~= entry_parts(
            m,
            match pricing {
                Some(p) => Some(p@),
                None => None,
            },
        ));
    }
    crate::text::join_strings(parts.as_slice(), " ")
}

/// The index that an answer names among `count` listed models: a decimal
/// number, blanks around it ignored, below `count`.
pub open spec fn chosen_index(answer: Seq<char>, count: nat) -> Result<nat, Seq<char>> {
    match u64_text(trim(answer)) {
        Some(n) if n <= usize::MAX => if n < count {
            Ok(n as nat)
        } else {
            Err("index out of range"@)
        },
        _ => Err("invalid index"@),
    }
}

/// Read the index of a model from a typed answer.
pub fn parse_index(answer: &str, count: usize) -> (r: Result<usize, Error>)
    ensures
        match chosen_index(answer@, count as nat) {
            Ok(n) => r == Ok::<usize, Error>(n as usize),
            Err(m) => r matches Err(Error::ConfigError(msg)) && msg@ == m,
        },
{
    let trimmed = crate::text::trim_string(answer);
    match crate::text::parse_u64(trimmed.as_str()) {
        Some(n) => {
            if n > usize::MAX as u64 {
                return Err(Error::ConfigError(String::from_str("invalid index")));
            }
            let index = n as usize;
            if index >= count {
                return Err(Error::ConfigError(String::from_str("index out of range")));
            }
            Ok(index)
        },
        None => Err(Error::ConfigError(String::from_str("invalid index"))),
    }
}

/// The three tiers named on the command line, when all three are.
pub fn explicit_tiers(small: &Option<String>, normal: &Option<String>, thinking: &Option<String>) -> (r: Option<
    (String, String, String),
>)
    ensures
        match r {
            Some(t) => *small matches Some(a) && *normal matches Some(b) && *thinking matches Some(c) && t.0@ == a@
                && t.1@ == b@ && t.2@ == c@,
            None => small is None || normal is None || thinking is None,
        },
{
    match (small, normal, thinking) {
        (Some(a), Some(b), Some(c)) => Some((a.clone(), b.clone(), c.clone())),
        _ => None,
    }
}

/// The line that confirms the three tiers.
pub open spec fn tiers_text(small: Seq<char>, normal: Seq<char>, thinking: Seq<char>) -> Seq<char> {
    "Tiers configured: small="@ + small + ", normal="@ + normal + ", thinking="@ + thinking
}

pub fn tiers_line(small: &str, normal: &str, thinking: &str) -> (r: String)
    ensures
        r@ == tiers_text(small@, normal@, thinking@),
{
    let mut s = String::from_str("Tiers configured: small=");
    push_str(&mut s, small);
    push_str(&mut s, ", normal=");
    push_str(&mut s, normal);
    push_str(&mut s, ", thinking=");
    push_str(&mut s, thinking);
    s
}

/// Put the three chosen models in the tiers; the reasoning stays.
pub fn set_tiers(tiers: &mut crate::config::types::ModelTiers, small: String, normal: String, thinking: String)
    ensures
        final(tiers).small == Some(small),
        final(tiers).normal == Some(normal),
        final(tiers).thinking == Some(thinking),
        final(tiers).reasoning == old(tiers).reasoning,
{
    tiers.small = Some(small);
    tiers.normal = Some(normal);
    tiers.thinking = Some(thinking);
}

/// Where the model catalog is read, and with which credential: the LiteLLM
/// catalog when one is configured (its credential expanded when it names
/// one), else the default provider's endpoint with its credential. Without a
/// configured provider there is nothing to read (`None`).
pub open spec fn catalog_target_outcome(
    config: &crate::config::Config,
    env: Seq<(Seq<char>, Seq<char>)>,
    r: Result<Option<(String, Option<String>)>, Error>,
) -> bool {
    let name = crate::setup::wizard::configured_name(config);
    match crate::config::provider_for(crate::config::providers_view(config.providers@), name) {
        None => r matches Ok(None),
        Some(pc) => match config.litellm {
            Some(l) => match l.api_key {
                Some(k) => match crate::config::expanded_key(k@, env) {
                    Ok(key) => r matches Ok(Some(t)) && t.0@ == l.endpoint@ && (t.1 matches Some(x) && x@ == key),
                    Err(m) => r matches Err(Error::AuthError(x)) && x@ == m,
                },
                None => r matches Ok(Some(t)) && t.0@ == l.endpoint@ && t.1 is None,
            },
            None => match crate::config::provider_key(name, pc, env) {
                Ok(key) => r matches Ok(Some(t)) && t.0@ == pc.endpoint && (t.1 matches Some(x) && x@ == key),
                Err(m) => r matches Err(Error::AuthError(x)) && x@ == m,
            },
        },
    }
}

pub fn catalog_target(config: &crate::config::Config, env: &[(String, String)]) -> (r: Result<
    Option<(String, Option<String>)>,
    Error,
>)
    ensures
        catalog_target_outcome(config, crate::config::env::env_view(env@), r),
{
    let name = match &config.defaults.provider {
        Some(p) => p.clone(),
        None => String::from_str("openrouter"),
    };
    let provider = match crate::config::resolve_provider(config, name.as_str()) {
        Ok(p) => p,
        Err(_) => return Ok(None),
    };
    match &config.litellm {
        Some(catalog) => match &catalog.api_key {
            Some(source) => {
                let key = crate::config::expand_api_key(source.as_str(), env)?;
                Ok(Some((catalog.endpoint.clone(), Some(key))))
            },
            None => Ok(Some((catalog.endpoint.clone(), None))),
        },
        None => {
            let key = crate::config::get_provider_api_key(name.as_str(), &provider, env)?;
            Ok(Some((provider.endpoint.clone(), Some(key))))
        },
    }
}

/// The catalog's first page when it has models; else the whole catalog is
/// to be fetched (`None`).
pub fn first_page_models(page: Result<Vec<ModelEntry>, Error>) -> (r: Option<Vec<ModelEntry>>)
    ensures
        match page {
            Ok(m) => if m@.len() > 0 {
                r matches Some(v) && v@ == m@
            } else {
                r is None
            },
            Err(_) => r is None,
        },
{
    match page {
        Ok(m) => if m.len() > 0 {
            Some(m)
        } else {
            None
        },
        Err(_) => None,
    }
}

} // verus!
