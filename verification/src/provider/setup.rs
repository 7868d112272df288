//! Provider setup: known providers, endpoint validation and the provider
//! draft that setup saves.
use vstd::prelude::*;

use crate::error::Error;
use crate::text::{all_ws, chars_of, is_blank, str_eq, string_from, trim, trimmed_chars};

verus! {

pub const OPENROUTER_ENDPOINT: &'static str = "https://openrouter.ai/api/v1";

pub const OPENAI_ENDPOINT: &'static str = "https://api.openai.com/v1";

pub open spec fn openrouter_endpoint() -> Seq<char> {
    "https://openrouter.ai/api/v1"@
}

pub open spec fn openai_endpoint() -> Seq<char> {
    "https://api.openai.com/v1"@
}

#[derive(Debug, Clone, Copy, PartialEq, Eq, Structural)]
pub enum ProviderIdentity {
    OpenRouter,
    OpenAi,
    Custom,
}

pub open spec fn identity_name(i: ProviderIdentity) -> Seq<char> {
    match i {
        ProviderIdentity::OpenRouter => "openrouter"@,
        ProviderIdentity::OpenAi => "openai"@,
        ProviderIdentity::Custom => "custom"@,
    }
}

pub open spec fn identity_endpoint(i: ProviderIdentity) -> Option<Seq<char>> {
    match i {
        ProviderIdentity::OpenRouter => Some(openrouter_endpoint()),
        ProviderIdentity::OpenAi => Some(openai_endpoint()),
        ProviderIdentity::Custom => None,
    }
}

/// The identity of a configured provider: a known provider only under its
/// own name and at its own endpoint.
pub open spec fn identity_of(name: Seq<char>, endpoint: Seq<char>) -> ProviderIdentity {
    if name == "openrouter"@ && endpoint == openrouter_endpoint() {
        ProviderIdentity::OpenRouter
    } else if name == "openai"@ && endpoint == openai_endpoint() {
        ProviderIdentity::OpenAi
    } else {
        ProviderIdentity::Custom
    }
}

impl ProviderIdentity {
    pub fn name(self) -> (s: &'static str)
        ensures
            s@ == identity_name(self),
    {
        match self {
            ProviderIdentity::OpenRouter => "openrouter",
            ProviderIdentity::OpenAi => "openai",
            ProviderIdentity::Custom => "custom",
        }
    }

    pub fn endpoint(self) -> (r: Option<&'static str>)
        ensures
            match r {
                Some(e) => identity_endpoint(self) == Some(e@),
                None => identity_endpoint(self) is None,
            },
    {
        match self {
            ProviderIdentity::OpenRouter => Some(OPENROUTER_ENDPOINT),
            ProviderIdentity::OpenAi => Some(OPENAI_ENDPOINT),
            ProviderIdentity::Custom => None,
        }
    }

    pub fn from_config(name: &str, endpoint: &str) -> (r: Self)
        ensures
            r == identity_of(name@, endpoint@),
    {
        if str_eq(name, "openrouter") && str_eq(endpoint, OPENROUTER_ENDPOINT) {
            ProviderIdentity::OpenRouter
        } else if str_eq(name, "openai") && str_eq(endpoint, OPENAI_ENDPOINT) {
            ProviderIdentity::OpenAi
        } else {
            ProviderIdentity::Custom
        }
    }
}

#[derive(Debug, Clone, Copy, PartialEq, Eq, Structural)]
pub enum SetupCancellation {
    Escape,
    CtrlC,
}

/// A provider as setup saves it. Its text form never shows the credential.
#[derive(PartialEq, Eq)]
pub struct ProviderDraft {
    pub name: String,
    pub endpoint: String,
    pub api_key: String,
    pub identity: ProviderIdentity,
}

pub open spec fn identity_debug(i: ProviderIdentity) -> Seq<char> {
    match i {
        ProviderIdentity::OpenRouter => "OpenRouter"@,
        ProviderIdentity::OpenAi => "OpenAi"@,
        ProviderIdentity::Custom => "Custom"@,
    }
}

/// The debug text of a draft: every field but the credential, which reads
/// `[REDACTED]`.
pub open spec fn draft_debug(name: Seq<char>, endpoint: Seq<char>, identity: ProviderIdentity) -> Seq<char> {
    "ProviderDraft { name: \""@ + name + "\", endpoint: \""@ + endpoint
        + "\", api_key: \"[REDACTED]\", identity: "@ + identity_debug(identity) + " }"@
}

impl ProviderDraft {
    /// The debug text of the draft, with the credential redacted.
    pub fn debug_text(&self) -> (s: String)
        ensures
            s@ == draft_debug(self.name@, self.endpoint@, self.identity),
    {
        let mut s = String::from_str("ProviderDraft { name: \"");
        crate::text::push_str(&mut s, self.name.as_str());
        crate::text::push_str(&mut s, "\", endpoint: \"");
        crate::text::push_str(&mut s, self.endpoint.as_str());
        crate::text::push_str(&mut s, "\", api_key: \"[REDACTED]\", identity: ");
        let id = match self.identity {
            ProviderIdentity::OpenRouter => "OpenRouter",
            ProviderIdentity::OpenAi => "OpenAi",
            ProviderIdentity::Custom => "Custom",
        };
        crate::text::push_str(&mut s, id);
        crate::text::push_str(&mut s, " }");
        s
    }
}

impl Clone for ProviderDraft {
    fn clone(&self) -> (r: Self)
        ensures
            r.name@ == self.name@,
            r.endpoint@ == self.endpoint@,
            r.api_key@ == self.api_key@,
            r.identity == self.identity,
    {
        ProviderDraft {
            name: self.name.clone(),
            endpoint: self.endpoint.clone(),
            api_key: self.api_key.clone(),
            identity: self.identity,
        }
    }
}

#[derive(PartialEq, Eq)]
pub enum ProviderSetupResult {
    Configured(ProviderDraft),
    Cancelled(SetupCancellation),
}

pub fn cancellation_result(cancellation: SetupCancellation) -> (r: ProviderSetupResult)
    ensures
        r == ProviderSetupResult::Cancelled(cancellation),
{
    ProviderSetupResult::Cancelled(cancellation)
}

pub fn configured_result(draft: ProviderDraft) -> (r: ProviderSetupResult)
    ensures
        r == ProviderSetupResult::Configured(draft),
{
    ProviderSetupResult::Configured(draft)
}

#[derive(Debug)]
pub enum ModelSetupResult {
    Saved,
    Cancelled(SetupCancellation),
    Failed(Error),
}

/// What `reqwest::Url::parse` makes of `s`: its scheme and whether it has a
/// host, or `None` when it is no URL.
pub uninterp spec fn url_parts(s: Seq<char>) -> Option<(Seq<char>, bool)>;

pub open spec fn url_view(r: Option<(String, bool)>) -> Option<(Seq<char>, bool)> {
    match r {
        Some((scheme, host)) => Some((scheme@, host)),
        None => None,
    }
}

/// `reqwest::Url::parse`, read for the scheme and whether a host is present.
/// The contract names the result and claims nothing more of it.
#[verifier::external_body]
fn parse_url(s: &str) -> (r: Option<(String, bool)>)
    ensures
        url_view(r) == url_parts(s@),
{
    match reqwest::Url::parse(s) {
        Ok(url) => Some((url.scheme().to_string(), url.host().is_some())),
        Err(_) => None,
    }
}

/// `s` without trailing slashes.
pub open spec fn strip_slashes(s: Seq<char>) -> Seq<char>
    decreases s.len(),
{
    if s.len() > 0 && s.last() == '/' {
        strip_slashes(s.drop_last())
    } else {
        s
    }
}

/// The endpoint as setup stores it: trimmed, without trailing slashes.
pub open spec fn endpoint_text(s: Seq<char>) -> Seq<char> {
    strip_slashes(trim(s))
}

/// Whether a stored endpoint is an HTTP or HTTPS URL with a host.
pub open spec fn endpoint_accepted(e: Seq<char>) -> bool {
    e.len() > 0 && match url_parts(e) {
        Some((scheme, host)) => (scheme == "http"@ || scheme == "https"@) && host,
        None => false,
    }
}

pub open spec fn config_error_is(r: Error, m: Seq<char>) -> bool {
    r matches Error::ConfigError(x) && x@ == m
}

pub open spec fn url_error() -> Seq<char> {
    "endpoint must be an HTTP or HTTPS URL"@
}

fn url_error_value() -> (e: Error)
    ensures
        config_error_is(e, url_error()),
{
    Error::ConfigError(String::from_str("endpoint must be an HTTP or HTTPS URL"))
}

pub fn normalize_endpoint(endpoint: &str) -> (r: Result<String, Error>)
    ensures
        match r {
            Ok(e) => endpoint_accepted(endpoint_text(endpoint@)) && e@ == endpoint_text(endpoint@),
            Err(e) => !endpoint_accepted(endpoint_text(endpoint@)) && config_error_is(e, url_error()),
        },
{
    let t = trimmed_chars(endpoint);
    let mut end: usize = t.len();
    assert(t@.subrange(0, end as int) =~= t@);
    while end > 0 && t[end - 1] == '/'
        invariant
            end <= t@.len(),
            t@ == trim(endpoint@),
            strip_slashes(t@.subrange(0, end as int)) == endpoint_text(endpoint@),
        decreases end,
    {
        assert(t@.subrange(0, end as int).drop_last() =~= t@.subrange(0, end - 1));
        end -= 1;
    }
    let stripped = string_from(t.as_slice(), 0, end);
    if end == 0 {
        return Err(url_error_value());
    }
    match parse_url(stripped.as_str()) {
        None => Err(url_error_value()),
        Some((scheme, host)) => {
            if (str_eq(scheme.as_str(), "http") || str_eq(scheme.as_str(), "https")) && host {
                Ok(stripped)
            } else {
                Err(url_error_value())
            }
        },
    }
}

/// The provider name for an endpoint.
pub open spec fn name_for(endpoint: Seq<char>) -> Seq<char> {
    if endpoint == openrouter_endpoint() {
        "openrouter"@
    } else if endpoint == openai_endpoint() {
        "openai"@
    } else {
        "custom"@
    }
}

pub fn provider_name(endpoint: &str) -> (s: &'static str)
    ensures
        s@ == name_for(endpoint@),
{
    if str_eq(endpoint, OPENROUTER_ENDPOINT) {
        "openrouter"
    } else if str_eq(endpoint, OPENAI_ENDPOINT) {
        "openai"
    } else {
        "custom"
    }
}

/// The environment variable suggested for an endpoint's credential.
pub open spec fn key_env_for(endpoint: Seq<char>) -> Seq<char> {
    if endpoint == openrouter_endpoint() {
        "OPENROUTER_API_KEY"@
    } else if endpoint == openai_endpoint() {
        "OPENAI_API_KEY"@
    } else {
        "WATN_API_KEY"@
    }
}

pub fn suggested_api_key_env(endpoint: &str) -> (s: &'static str)
    ensures
        s@ == key_env_for(endpoint@),
{
    if str_eq(endpoint, OPENROUTER_ENDPOINT) {
        "OPENROUTER_API_KEY"
    } else if str_eq(endpoint, OPENAI_ENDPOINT) {
        "OPENAI_API_KEY"
    } else {
        "WATN_API_KEY"
    }
}

/// The identity a draft keeps: a known identity only at its own endpoint.
pub open spec fn kept_identity(identity: ProviderIdentity, endpoint: Seq<char>) -> ProviderIdentity {
    if identity != ProviderIdentity::Custom && identity_endpoint(identity) != Some(endpoint) {
        ProviderIdentity::Custom
    } else {
        identity
    }
}

pub open spec fn draft_is(d: ProviderDraft, identity: ProviderIdentity, endpoint: Seq<char>, api_key: Seq<char>) -> bool {
    &&& d.identity == kept_identity(identity, endpoint)
    &&& d.name@ == identity_name(d.identity)
    &&& d.endpoint@ == endpoint
    &&& d.api_key@ == api_key
}

pub fn build_provider_draft_for_identity(identity: ProviderIdentity, endpoint: &str, api_key: &str) -> (r: Result<ProviderDraft, Error>)
    ensures
        match r {
            Ok(d) => endpoint_accepted(endpoint_text(endpoint@)) && !all_ws(api_key@) && draft_is(
                d,
                identity,
                endpoint_text(endpoint@),
                api_key@,
            ),
            Err(e) => if !endpoint_accepted(endpoint_text(endpoint@)) {
                config_error_is(e, url_error())
            } else {
                all_ws(api_key@) && config_error_is(e, "credential cannot be empty"@)
            },
        },
{
    let endpoint = match normalize_endpoint(endpoint) {
        Ok(e) => e,
        Err(e) => return Err(e),
    };
    if is_blank(api_key) {
        return Err(Error::ConfigError(String::from_str("credential cannot be empty")));
    }
    let keep = match identity.endpoint() {
        Some(known) => str_eq(known, endpoint.as_str()),
        None => true,
    };
    let identity = if !keep {
        ProviderIdentity::Custom
    } else {
        identity
    };
    Ok(
        ProviderDraft {
            name: String::from_str(identity.name()),
            endpoint,
            api_key: String::from_str(api_key),
            identity,
        },
    )
}

/// The endpoint and credential make a draft: the endpoint normalizes to an
/// accepted URL, and the credential is not blank.
pub open spec fn draft_accepted(endpoint: Seq<char>, api_key: Seq<char>) -> bool {
    let e1 = endpoint_text(endpoint);
    endpoint_accepted(e1) && endpoint_accepted(endpoint_text(e1)) && !all_ws(api_key)
}

/// The error a refused draft gets: the URL error first, then the blank
/// credential.
pub open spec fn draft_error(endpoint: Seq<char>, api_key: Seq<char>, e: Error) -> bool {
    let e1 = endpoint_text(endpoint);
    if !endpoint_accepted(e1) || !endpoint_accepted(endpoint_text(e1)) {
        config_error_is(e, url_error())
    } else {
        all_ws(api_key) && config_error_is(e, "credential cannot be empty"@)
    }
}

/// What building a draft from an endpoint and a credential gives.
pub open spec fn draft_outcome(endpoint: Seq<char>, api_key: Seq<char>, r: Result<ProviderDraft, Error>) -> bool {
    let e1 = endpoint_text(endpoint);
    match r {
        Ok(d) => draft_accepted(endpoint, api_key) && draft_is(d, identity_of(name_for(e1), e1), endpoint_text(e1), api_key),
        Err(e) => !draft_accepted(endpoint, api_key) && draft_error(endpoint, api_key, e),
    }
}

pub fn build_provider_draft(endpoint: &str, api_key: &str) -> (r: Result<ProviderDraft, Error>)
    ensures
        draft_outcome(endpoint@, api_key@, r),
{
    let normalized = match normalize_endpoint(endpoint) {
        Ok(e) => e,
        Err(e) => return Err(e),
    };
    let identity = ProviderIdentity::from_config(provider_name(normalized.as_str()), normalized.as_str());
    build_provider_draft_for_identity(identity, normalized.as_str(), api_key)
}


/// The exit status of a setup that was left: 1 after Escape, 130 after
/// Ctrl-C.
pub fn cancellation_exit_code(cancellation: SetupCancellation) -> (code: i32)
    ensures
        code == match cancellation {
            SetupCancellation::Escape => 1i32,
            SetupCancellation::CtrlC => 130i32,
        },
{
    match cancellation {
        SetupCancellation::Escape => 1,
        SetupCancellation::CtrlC => 130,
    }
}

} // verus!
