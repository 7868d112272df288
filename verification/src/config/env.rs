//! Credentials from the environment. The environment is read once by the
//! program and handed to the library as (name, value) pairs; only
//! allowlisted names are consulted.
use vstd::prelude::*;

use crate::text::{chars_of, push_str, str_eq};

verus! {

#[derive(Debug, PartialEq, Eq)]
pub struct CredentialCandidate {
    pub name: String,
    pub detected: bool,
}

pub open spec fn env_view(env: Seq<(String, String)>) -> Seq<(Seq<char>, Seq<char>)> {
    env.map_values(|p: (String, String)| (p.0@, p.1@))
}

/// The value of the variable `name` in `env`: the first entry so named.
pub open spec fn env_value(env: Seq<(Seq<char>, Seq<char>)>, name: Seq<char>) -> Option<Seq<char>>
    decreases env.len(),
{
    if env.len() == 0 {
        None
    } else if env[0].0 == name {
        Some(env[0].1)
    } else {
        env_value(env.drop_first(), name)
    }
}

/// Whether `name` is set to a non-empty value.
pub open spec fn present(env: Seq<(Seq<char>, Seq<char>)>, name: Seq<char>) -> bool {
    match env_value(env, name) {
        Some(v) => v.len() > 0,
        None => false,
    }
}

/// The variable `name`.
pub fn lookup<'a>(env: &'a [(String, String)], name: &str) -> (r: Option<&'a str>)
    ensures
        match r {
            Some(v) => env_value(env_view(env@), name@) == Some(v@),
            None => env_value(env_view(env@), name@) is None,
        },
{
    let mut k: usize = 0;
    assert(env_view(env@).skip(0) =~= env_view(env@));
    while k < env.len()
        invariant
            k <= env@.len(),
            env_value(env_view(env@), name@) == env_value(env_view(env@).skip(k as int), name@),
        decreases env@.len() - k,
    {
        let ghost rest = env_view(env@).skip(k as int);
        assert(rest[0] == (env@[k as int].0@, env@[k as int].1@));
        if str_eq(env[k].0.as_str(), name) {
            return Some(env[k].1.as_str());
        }
        assert(rest.drop_first() =~= env_view(env@).skip(k + 1));
        k += 1;
    }
    None
}

pub fn env_present(name: &str, env: &[(String, String)]) -> (b: bool)
    ensures
        b == present(env_view(env@), name@),
{
    match lookup(env, name) {
        Some(v) => chars_of(v).len() > 0,
        None => false,
    }
}

/// The allowlisted credential variables of a provider, in lookup order.
pub open spec fn credential_names(provider: Seq<char>) -> Seq<Seq<char>> {
    if provider == "openrouter"@ {
        seq!["OPENROUTER_API_KEY"@, "WATN_API_KEY"@]
    } else if provider == "openai"@ {
        seq!["WATN_OPENAI_API_KEY"@, "OPENAI_API_KEY"@, "WATN_API_KEY"@]
    } else {
        seq!["WATN_API_KEY"@]
    }
}

pub fn allowlisted_names(provider_name: &str) -> (v: Vec<&'static str>)
    ensures
        v@.map_values(|s: &'static str| s@) == credential_names(provider_name@),
{
    let mut v: Vec<&'static str> = Vec::new();
    if str_eq(provider_name, "openrouter") {
        v.push("OPENROUTER_API_KEY");
        v.push("WATN_API_KEY");
    } else if str_eq(provider_name, "openai") {
        v.push("WATN_OPENAI_API_KEY");
        v.push("OPENAI_API_KEY");
        v.push("WATN_API_KEY");
    } else {
        v.push("WATN_API_KEY");
    }
    assert(v@.map_values(|s: &'static str| s@) =~= credential_names(provider_name@));
    v
}

/// Discover only allowlisted variable names and whether they contain a
/// non-empty value. Resolved credential values never leave this function.
pub fn discover_credentials(provider_name: &str, env: &[(String, String)]) -> (r: Vec<CredentialCandidate>)
    ensures
        r@.len() == credential_names(provider_name@).len(),
        forall|k: int|
            0 <= k < r@.len() ==> (#[trigger] r@[k]).name@ == credential_names(provider_name@)[k]
                && r@[k].detected == present(env_view(env@), credential_names(provider_name@)[k]),
{
    let names = allowlisted_names(provider_name);
    let ghost ns = credential_names(provider_name@);
    let mut out: Vec<CredentialCandidate> = Vec::new();
    let mut k: usize = 0;
    while k < names.len()
        invariant
            k <= names@.len(),
            names@.map_values(|s: &'static str| s@) == ns,
            ns == credential_names(provider_name@),
            out@.len() == k,
            forall|j: int|
                0 <= j < k ==> (#[trigger] out@[j]).name@ == ns[j] && out@[j].detected == present(
                    env_view(env@),
                    ns[j],
                ),
        decreases names@.len() - k,
    {
        assert(ns[k as int] == names@[k as int]@);
        let detected = env_present(names[k], env);
        out.push(CredentialCandidate { name: String::from_str(names[k]), detected });
        k += 1;
    }
    out
}

/// What `str::to_uppercase` makes of `s`.
pub uninterp spec fn uppercase(s: Seq<char>) -> Seq<char>;

/// `str::to_uppercase`: the uppercase mapping of every character, as std
/// documents it. The contract names the result and claims nothing more.
#[verifier::external_body]
fn to_uppercase(s: &str) -> (r: String)
    ensures
        r@ == uppercase(s@),
{
    s.to_uppercase()
}

/// The first allowlisted name with a non-empty value.
pub open spec fn first_present(env: Seq<(Seq<char>, Seq<char>)>, names: Seq<Seq<char>>) -> Option<Seq<char>>
    decreases names.len(),
{
    if names.len() == 0 {
        None
    } else if present(env, names[0]) {
        env_value(env, names[0])
    } else {
        first_present(env, names.drop_first())
    }
}

/// The variable of a provider of another name: `WATN_<NAME>_API_KEY`.
pub open spec fn specific_name(provider: Seq<char>) -> Seq<char> {
    "WATN_"@ + uppercase(provider) + "_API_KEY"@
}

/// The credential of a provider from the environment: a provider of its own
/// name first looks at its own variable; then the allowlist in order.
pub open spec fn env_api_key(env: Seq<(Seq<char>, Seq<char>)>, provider: Seq<char>) -> Option<Seq<char>> {
    let own = provider != "openrouter"@ && provider != "openai"@ && provider != "custom"@;
    if own && present(env, specific_name(provider)) {
        env_value(env, specific_name(provider))
    } else {
        first_present(env, credential_names(provider))
    }
}

pub fn provider_api_key(provider_name: &str, env: &[(String, String)]) -> (r: Option<String>)
    ensures
        match r {
            Some(v) => env_api_key(env_view(env@), provider_name@) == Some(v@),
            None => env_api_key(env_view(env@), provider_name@) is None,
        },
{
    let own = !str_eq(provider_name, "openrouter") && !str_eq(provider_name, "openai") && !str_eq(
        provider_name,
        "custom",
    );
    if own {
        let mut specific = String::from_str("WATN_");
        let upper = to_uppercase(provider_name);
        push_str(&mut specific, upper.as_str());
        push_str(&mut specific, "_API_KEY");
        if env_present(specific.as_str(), env) {
            match lookup(env, specific.as_str()) {
                Some(v) => return Some(String::from_str(v)),
                None => {},
            }
        }
    }
    let names = allowlisted_names(provider_name);
    let ghost ns = credential_names(provider_name@);
    assert(env_api_key(env_view(env@), provider_name@) == first_present(env_view(env@), ns));
    let mut k: usize = 0;
    assert(ns.skip(0) =~= ns);
    while k < names.len()
        invariant
            k <= names@.len(),
            names@.map_values(|s: &'static str| s@) == ns,
            env_api_key(env_view(env@), provider_name@) == first_present(env_view(env@), ns),
            first_present(env_view(env@), ns) == first_present(env_view(env@), ns.skip(k as int)),
        decreases names@.len() - k,
    {
        let ghost rest = ns.skip(k as int);
        assert(rest[0] == names@[k as int]@);
        if env_present(names[k], env) {
            match lookup(env, names[k]) {
                Some(v) => return Some(String::from_str(v)),
                None => {},
            }
        }
        assert(rest.drop_first() =~= ns.skip(k + 1));
        k += 1;
    }
    None
}

} // verus!
