use watn::error::Error;
use watn::models::list::{models_from_body, parse_model, ModelEntry};
use watn::models::picker::{execute_search, local_filter, search_results};
use watn::models::{format_model_entry, parse_index};
use watn::review::session::{catalog_ids, catalog_source};

fn entry(id: &str) -> ModelEntry {
    ModelEntry {
        id: id.into(),
        name: None,
        context_length: None,
        supported_features: vec![],
        reasoning: None,
    }
}

#[test]
fn test_local_filter_matches_substring() {
    let models = vec![entry("gpt-4o-mini"), entry("gpt-4o"), entry("o3-mini"), entry("o3-pro")];
    let filtered = local_filter(&models, "gpt");
    assert_eq!(filtered.len(), 2);
    assert!(filtered.iter().any(|m| m.id == "gpt-4o-mini"));
    assert!(filtered.iter().any(|m| m.id == "gpt-4o"));
}

#[test]
fn test_local_filter_case_insensitive() {
    let models = vec![entry("GPT-4o")];
    let filtered = local_filter(&models, "gpt");
    assert_eq!(filtered.len(), 1);
}

#[test]
fn test_local_filter_no_match() {
    let models = vec![entry("gpt-4o")];
    let filtered = local_filter(&models, "llama");
    assert!(filtered.is_empty());
}

#[test]
fn test_local_filter_empty_query_returns_all() {
    let models = vec![entry("gpt-4o"), entry("o3-mini")];
    let filtered = local_filter(&models, "");
    assert_eq!(filtered.len(), 2);
}

fn search_reply(body: &str, query: &str, status: u16) -> Result<Vec<ModelEntry>, Error> {
    if status == 200 {
        search_results(body, query)
    } else {
        Err(Error::ApiError { status, message: body.to_string() })
    }
}

#[test]
fn test_execute_search_returns_results() {
    let reply = search_reply(r#"{"data":[{"id":"o3-mini"}]}"#, "o3", 200);
    let (results, error, no_results) = execute_search(reply, "o3", &[], true).unwrap();
    assert!(error.is_none());
    assert!(!no_results);
    assert_eq!(results.len(), 1);
    assert_eq!(results[0].id, "o3-mini");
}

#[test]
fn test_execute_search_stale_result_is_discarded() {
    let reply = search_reply(r#"{"data":[{"id":"o3-mini"}]}"#, "o3", 200);
    let (results, error, no_results) = execute_search(reply, "o3", &[], false).unwrap();
    assert!(results.is_empty(), "stale result must be discarded");
    assert!(error.is_none());
    assert!(!no_results);
}

#[test]
fn test_execute_search_unsupported_search_reports_error_and_filters_locally() {
    let reply = search_reply(r#"{"data":[]}"#, "gpt", 501);
    let all_models = vec![entry("gpt-4o")];
    let (results, error, no_results) = execute_search(reply, "gpt", &all_models, true).unwrap();
    assert_eq!(error.as_deref(), Some("model search is not supported by this provider"));
    assert!(!no_results);
    assert_eq!(results.len(), 1);
    assert_eq!(results[0].id, "gpt-4o");
}

#[test]
fn test_execute_search_unsupported_search_stale_is_discarded() {
    let reply = search_reply(r#"{"data":[]}"#, "gpt", 501);
    let (results, error, no_results) = execute_search(reply, "gpt", &[], false).unwrap();
    assert!(results.is_empty());
    assert!(error.is_none());
    assert!(!no_results);
}

#[test]
fn search_errors_other_than_unsupported_are_returned() {
    let reply = search_reply("boom", "gpt", 500);
    match execute_search(reply, "gpt", &[entry("gpt-4o")], true) {
        Err(Error::ApiError { status, message }) => {
            assert_eq!(status, 500);
            assert_eq!(message, "boom");
        }
        _ => panic!("expected the provider error"),
    }
    let (results, error, no_results) =
        execute_search(search_reply("", "gpt", 400), "llama", &[entry("gpt-4o")], true).unwrap();
    assert!(results.is_empty());
    assert!(error.is_some());
    assert!(no_results);
    let (results, _, no_results) =
        execute_search(Ok(Vec::new()), "gpt", &[entry("gpt-4o")], true).unwrap();
    assert!(results.is_empty());
    assert!(no_results);
}

#[test]
fn catalog_bodies_are_read_entry_by_entry() {
    let body = r#"{"data":[
        {"id":"a/b","name":"Model B","context_length":128000,"supported_features":["tools",3,"json"],
         "reasoning":{"supported_efforts":["low","high"],"mandatory":true}},
        {"id":"c","context_length":"32000"},
        {"name":"no id","context_length":"+7"},
        {"id":"d","context_length":"12a"}
    ]}"#;
    let models = models_from_body(body).unwrap();
    assert_eq!(models.len(), 4);
    assert_eq!(models[0].id, "a/b");
    assert_eq!(models[0].name.as_deref(), Some("Model B"));
    assert_eq!(models[0].context_length, Some(128000));
    assert_eq!(models[0].supported_features, vec!["tools".to_string(), "json".to_string()]);
    let reasoning = models[0].reasoning.as_ref().unwrap();
    assert!(reasoning.mandatory);
    assert_eq!(reasoning.supported_efforts, vec!["low".to_string(), "high".to_string()]);
    assert_eq!(models[1].context_length, Some(32000));
    assert_eq!(models[2].id, "");
    assert_eq!(models[2].context_length, Some(7));
    assert_eq!(models[3].context_length, None);
    assert!(models[3].reasoning.is_none());
}

#[test]
fn catalog_bodies_without_data_or_json_are_errors() {
    match models_from_body(r#"{"models":[]}"#) {
        Err(Error::ApiError { status, message }) => {
            assert_eq!(status, 0);
            assert_eq!(message, "response missing 'data' array");
        }
        _ => panic!("expected a missing data error"),
    }
    match models_from_body("not json") {
        Err(Error::ApiError { status, message }) => {
            assert_eq!(status, 0);
            assert!(message.starts_with("failed to parse response: "));
            assert!(message.len() > "failed to parse response: ".len());
        }
        _ => panic!("expected a parse error"),
    }
}

#[test]
fn search_results_keep_only_matching_ids() {
    let body = r#"{"data":[{"id":"DeepSeek V4 Flash"},{"id":"gpt-4o"}]}"#;
    let models = search_results(body, "dee flash").unwrap();
    assert_eq!(models.len(), 1);
    assert_eq!(models[0].id, "DeepSeek V4 Flash");
}

#[test]
fn a_catalog_line_names_id_name_context_price_and_features() {
    let value = watn::json::parse_json(
        r#"{"id":"x/y","name":"Y","context_length":128500,"supported_features":["tools","vision"]}"#,
    )
    .unwrap();
    let model = parse_model(&value);
    assert_eq!(
        format_model_entry(&model, Some("$0.15/1K in, $0.60/1K out")),
        "x/y (Y) 128K ctx $0.15/1K in, $0.60/1K out [tools, vision]"
    );
    assert_eq!(format_model_entry(&entry("bare"), None), "bare");
}

#[test]
fn typed_indexes_are_checked() {
    assert_eq!(parse_index(" 2\n", 3).unwrap(), 2);
    assert_eq!(parse_index("+0", 3).unwrap(), 0);
    assert!(matches!(parse_index("3", 3), Err(Error::ConfigError(m)) if m == "index out of range"));
    assert!(matches!(parse_index("x", 3), Err(Error::ConfigError(m)) if m == "invalid index"));
    assert!(matches!(parse_index("-1", 3), Err(Error::ConfigError(m)) if m == "invalid index"));
    assert!(matches!(parse_index("", 3), Err(Error::ConfigError(m)) if m == "invalid index"));
}

#[test]
fn catalogs_come_from_the_catalog_endpoint_when_one_is_named() {
    assert_eq!(catalog_source("https://a", Some("https://b")), "https://b");
    assert_eq!(catalog_source("https://a", Some("")), "https://a");
    assert_eq!(catalog_source("https://a", None), "https://a");
    assert_eq!(catalog_ids(Ok(vec![entry("m1"), entry("m2")])), vec!["m1", "m2"]);
    assert!(catalog_ids(Err(Error::NetworkError("down".into()))).is_empty());
}
