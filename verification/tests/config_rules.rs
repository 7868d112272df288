use watn::config::env::{discover_credentials, provider_api_key};
use watn::config::types::{ProviderConfig, ProviderDefaults};
use watn::config::{
    environment_reference, expand_api_key, get_provider_api_key, record_tier_choices,
    providers_from, resolve_model, resolve_provider, set_provider, update_provider_draft, Config,
};
use watn::error::Error;
use watn::provider::setup::build_provider_draft;

fn env(pairs: &[(&str, &str)]) -> Vec<(String, String)> {
    pairs.iter().map(|(k, v)| (k.to_string(), v.to_string())).collect()
}

fn custom(endpoint: &str, key: Option<&str>, model: Option<&str>) -> ProviderConfig {
    ProviderConfig {
        endpoint: endpoint.to_string(),
        api_key: key.map(str::to_string),
        default_model: model.map(str::to_string),
        catalog_endpoint: None,
    }
}

#[test]
fn builtin_providers_resolve_without_configuration() {
    let config = Config::default();
    assert_eq!(resolve_provider(&config, "openai").unwrap().endpoint, "https://api.openai.com/v1");
    assert_eq!(resolve_provider(&config, "openrouter").unwrap().endpoint, "https://openrouter.ai/api/v1");
    assert!(matches!(
        resolve_provider(&config, "local"),
        Err(Error::ProviderNotFound(name)) if name == "local"
    ));
    let mut configured = Config::default();
    configured.providers.push(("local".to_string(), custom("http://127.0.0.1:8080", None, Some("m"))));
    assert_eq!(resolve_provider(&configured, "local").unwrap().endpoint, "http://127.0.0.1:8080");
}

#[test]
fn models_resolve_by_tier_then_defaults() {
    let mut config = Config::default();
    assert_eq!(resolve_model(&config, None, Some("explicit")).unwrap(), "explicit");
    assert_eq!(resolve_model(&config, None, None).unwrap(), "~deepseek/deepseek-v4-flash-latest");
    config.tiers.normal = Some("normal-model".to_string());
    assert_eq!(resolve_model(&config, Some("2"), None).unwrap(), "normal-model");
    config.defaults = ProviderDefaults { provider: Some("openai".to_string()), model: None };
    assert_eq!(resolve_model(&config, Some("3"), None).unwrap(), "gpt-4o-mini");
    assert!(matches!(
        resolve_model(&config, Some("9"), None),
        Err(Error::ConfigError(message)) if message == "unknown tier: 9"
    ));
    config.defaults.provider = Some("local".to_string());
    assert!(matches!(
        resolve_model(&config, Some("1"), None),
        Err(Error::ConfigError(message)) if message == "no default model configured"
    ));
}

#[test]
fn credential_references_resolve_from_the_environment() {
    assert_eq!(environment_reference("${OPENROUTER_API_KEY}").as_deref(), Some("OPENROUTER_API_KEY"));
    assert_eq!(environment_reference("${lower}"), None);
    assert_eq!(environment_reference("${}"), None);
    assert_eq!(environment_reference("${9START}"), None);
    assert_eq!(environment_reference("sk-literal"), None);
    let vars = env(&[("MY_KEY", "secret"), ("EMPTY", "")]);
    assert_eq!(expand_api_key("${MY_KEY}", &vars).unwrap(), "secret");
    assert_eq!(expand_api_key("sk-literal", &vars).unwrap(), "sk-literal");
    assert!(matches!(
        expand_api_key("${EMPTY}", &vars),
        Err(Error::AuthError(message)) if message == "api key environment variable 'EMPTY' is not set"
    ));
    assert!(matches!(
        expand_api_key("  ", &vars),
        Err(Error::AuthError(message)) if message == "api key is empty"
    ));
}

#[test]
fn provider_keys_fall_back_to_allowlisted_variables() {
    let vars = env(&[("WATN_API_KEY", "generic"), ("OPENAI_API_KEY", "openai-key"), ("WATN_LOCAL_API_KEY", "local-key")]);
    let none = custom("https://x.test", None, None);
    assert_eq!(get_provider_api_key("openai", &none, &vars).unwrap(), "openai-key");
    assert_eq!(get_provider_api_key("openrouter", &none, &vars).unwrap(), "generic");
    assert_eq!(get_provider_api_key("local", &none, &vars).unwrap(), "local-key");
    assert_eq!(provider_api_key("custom", &vars).as_deref(), Some("generic"));
    assert!(matches!(
        get_provider_api_key("openai", &none, &env(&[])),
        Err(Error::AuthError(message)) if message == "api key not found for provider 'openai'"
    ));
    let found = discover_credentials("openai", &vars);
    let names: Vec<_> = found.iter().map(|c| (c.name.as_str(), c.detected)).collect();
    assert_eq!(
        names,
        vec![("WATN_OPENAI_API_KEY", false), ("OPENAI_API_KEY", true), ("WATN_API_KEY", true)]
    );
}

#[test]
fn a_recorded_draft_becomes_the_default_provider() {
    let mut config = Config::default();
    config.providers.push(("custom".to_string(), custom("http://old.test", None, Some("kept-model"))));
    let draft = build_provider_draft("https://new.test/v1", "key").unwrap();
    update_provider_draft(&mut config, &draft);
    assert_eq!(config.defaults.provider.as_deref(), Some("custom"));
    assert_eq!(config.providers.len(), 1);
    let entry = resolve_provider(&config, "custom").unwrap();
    assert_eq!(entry.endpoint, "https://new.test/v1");
    assert_eq!(entry.api_key.as_deref(), Some("key"));
    assert_eq!(entry.default_model.as_deref(), Some("kept-model"));
}

#[test]
fn tier_choices_replace_only_chosen_tiers() {
    let mut config = Config::default();
    config.tiers.small = Some("old-small".to_string());
    let changed = record_tier_choices(
        &mut config.tiers,
        &[None, Some(("normal".to_string(), "medium".to_string())), None],
    );
    assert!(changed);
    assert_eq!(config.tiers.small.as_deref(), Some("old-small"));
    assert_eq!(config.tiers.normal.as_deref(), Some("normal"));
    assert_eq!(config.tiers.reasoning.normal.as_deref(), Some("medium"));
    assert!(!record_tier_choices(&mut config.tiers, &[None, None, None]));
}

fn endpoint_only(endpoint: &str) -> ProviderConfig {
    ProviderConfig {
        endpoint: endpoint.to_string(),
        api_key: None,
        default_model: None,
        catalog_endpoint: None,
    }
}

#[test]
fn provider_entries_keep_one_entry_per_name() {
    let entries = vec![
        ("a".to_string(), endpoint_only("http://one")),
        ("b".to_string(), endpoint_only("http://two")),
        ("a".to_string(), endpoint_only("http://three")),
    ];
    let providers = providers_from(&entries);
    let names: Vec<&str> = providers.iter().map(|(n, _)| n.as_str()).collect();
    assert_eq!(names, vec!["a", "b"]);
    assert_eq!(providers[0].1.endpoint, "http://three");

    let mut providers = providers;
    set_provider(&mut providers, "c".to_string(), endpoint_only("http://four"));
    set_provider(&mut providers, "b".to_string(), endpoint_only("http://five"));
    let names: Vec<&str> = providers.iter().map(|(n, _)| n.as_str()).collect();
    assert_eq!(names, vec!["a", "b", "c"]);
    assert_eq!(providers[1].1.endpoint, "http://five");
}
