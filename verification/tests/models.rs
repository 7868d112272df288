use watn::config::types::{LiteLLMConfig, ProviderConfig};
use watn::error::Error;
use watn::models::list::ModelEntry;
use watn::models::{catalog_target, explicit_tiers, first_page_models, set_tiers, tiers_line};
use watn::json::parse_json;
use watn::models::dialog::{resolve_reasoning_default, ReasoningStrength};
use watn::models::list::{
    models_page_url, models_search_url, models_url, parse_reasoning, word_matches, ModelReasoning,
};

fn policy(default: Option<&str>, enabled: bool, mandatory: bool, supported: &[&str]) -> ModelReasoning {
    ModelReasoning {
        default_effort: default.map(str::to_string),
        default_enabled: enabled,
        mandatory,
        supported_efforts: supported.iter().map(|s| s.to_string()).collect(),
    }
}

#[test]
fn catalog_urls_are_built_from_the_endpoint() {
    assert_eq!(models_url("https://x.test/v1/"), "https://x.test/v1/models");
    assert_eq!(
        models_search_url("https://x.test/v1", "flash"),
        "https://x.test/v1/models?search=flash"
    );
    assert_eq!(
        models_page_url("https://x.test/v1", 3, 50),
        "https://x.test/v1/models?page=3&limit=50"
    );
}

#[test]
fn search_words_match_in_any_order_and_case() {
    assert!(word_matches("DeepSeek V4 Flash", "dee flash"));
    assert!(word_matches("deepseek/deepseek-v4-flash", "FLASH v4"));
    assert!(!word_matches("deepseek/deepseek-v4-pro", "flash"));
    assert!(word_matches("anything", "   "));
}

#[test]
fn strengths_round_trip_through_their_names() {
    for strength in ReasoningStrength::all() {
        assert_eq!(ReasoningStrength::parse(strength.as_str()), Some(strength));
    }
    assert_eq!(ReasoningStrength::parse("extreme"), None);
}

#[test]
fn reasoning_defaults_follow_the_policy() {
    assert_eq!(
        resolve_reasoning_default(&policy(None, false, false, &["low"]), None).unwrap(),
        ReasoningStrength::Off
    );
    assert_eq!(
        resolve_reasoning_default(&policy(Some("medium"), true, false, &["low", "medium"]), None).unwrap(),
        ReasoningStrength::Medium
    );
    assert_eq!(
        resolve_reasoning_default(&policy(Some("off"), true, true, &["off", "high"]), None).unwrap(),
        ReasoningStrength::High
    );
    assert_eq!(
        resolve_reasoning_default(&policy(None, true, true, &[]), Some(ReasoningStrength::Low)).unwrap(),
        ReasoningStrength::Low
    );
    assert!(matches!(
        resolve_reasoning_default(&policy(None, true, true, &["off"]), Some(ReasoningStrength::Off)),
        Err(Error::ConfigError(message)) if message == "reasoning policy has no usable effort"
    ));
    assert_eq!(
        resolve_reasoning_default(&policy(None, true, false, &[]), None).unwrap(),
        ReasoningStrength::Off
    );
}

#[test]
fn catalog_reasoning_members_are_read() {
    let value = parse_json(r#"{"default_effort":"low","mandatory":true,"supported_efforts":["low",7,"high"]}"#).unwrap();
    let parsed = parse_reasoning(Some(&value)).unwrap();
    assert_eq!(parsed.default_effort.as_deref(), Some("low"));
    assert!(parsed.mandatory);
    assert!(!parsed.default_enabled);
    assert_eq!(parsed.supported_efforts, vec!["low".to_string(), "high".to_string()]);
    let not_object = parse_json("[1]").unwrap();
    assert!(parse_reasoning(Some(&not_object)).is_none());
    assert!(parse_reasoning(None).is_none());
}

#[test]
fn model_setup_takes_all_three_tiers_or_none() {
    let some = |s: &str| Some(s.to_string());
    assert_eq!(
        explicit_tiers(&some("a"), &some("b"), &some("c")),
        Some(("a".to_string(), "b".to_string(), "c".to_string()))
    );
    assert_eq!(explicit_tiers(&some("a"), &None, &some("c")), None);
    assert_eq!(tiers_line("a", "b", "c"), "Tiers configured: small=a, normal=b, thinking=c");
    let mut config = watn::config::Config::default();
    config.tiers.reasoning.small = Some("low".to_string());
    set_tiers(&mut config.tiers, "a".into(), "b".into(), "c".into());
    assert_eq!(config.tiers.small.as_deref(), Some("a"));
    assert_eq!(config.tiers.thinking.as_deref(), Some("c"));
    assert_eq!(config.tiers.reasoning.small.as_deref(), Some("low"));
}

#[test]
fn catalog_target_prefers_litellm_then_provider() {
    let env = vec![("OPENROUTER_API_KEY".to_string(), "sk-or".to_string()), ("LL".to_string(), "sk-ll".to_string())];
    let mut config = watn::config::Config::default();
    assert_eq!(
        catalog_target(&config, &env).ok().unwrap(),
        Some(("https://openrouter.ai/api/v1".to_string(), Some("sk-or".to_string())))
    );
    config.litellm = Some(LiteLLMConfig { endpoint: "http://ll.test".into(), api_key: Some("${LL}".into()) });
    assert_eq!(
        catalog_target(&config, &env).ok().unwrap(),
        Some(("http://ll.test".to_string(), Some("sk-ll".to_string())))
    );
    config.litellm = Some(LiteLLMConfig { endpoint: "http://ll.test".into(), api_key: None });
    assert_eq!(catalog_target(&config, &env).ok().unwrap(), Some(("http://ll.test".to_string(), None)));
    config.defaults.provider = Some("local".into());
    assert_eq!(catalog_target(&config, &env).ok().unwrap(), None);
    config.providers.push((
        "local".into(),
        ProviderConfig { endpoint: "http://local".into(), api_key: Some("${MISSING}".into()), default_model: None, catalog_endpoint: None },
    ));
    config.litellm = None;
    assert!(matches!(catalog_target(&config, &env), Err(Error::AuthError(_))));
}

#[test]
fn an_empty_or_failed_first_page_asks_for_the_whole_catalog() {
    let entry = ModelEntry { id: "m".into(), name: None, context_length: None, supported_features: vec![], reasoning: None };
    assert_eq!(first_page_models(Ok(vec![entry])).map(|v| v.len()), Some(1));
    assert!(first_page_models(Ok(vec![])).is_none());
    assert!(first_page_models(Err(Error::ConfigError("x".into()))).is_none());
}
