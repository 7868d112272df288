use watn::error::Error;
use watn::provider::openai_compat::{chat_completions_url, ReaderAction, ReaderEvent, SseState};
use watn::provider::setup::{
    build_provider_draft, build_provider_draft_for_identity, normalize_endpoint, provider_name,
    suggested_api_key_env, ProviderIdentity, OPENAI_ENDPOINT, OPENROUTER_ENDPOINT,
};
use watn::provider::transport::{endpoint, endpoint_with_override};

#[test]
fn provider_debug_redacts_literal_credentials() {
    let draft = build_provider_draft("https://example.test/v1", "sk-secret").unwrap();
    let debug = draft.debug_text();
    assert!(!debug.contains("sk-secret"));
    assert!(debug.contains("REDACTED"));
}

#[test]
fn debug_test_support_uses_non_empty_override() {
    assert_eq!(
        endpoint_with_override("http://configured.test/v1", Some("http://isolated.test/v1")),
        "http://isolated.test/v1"
    );
}

#[test]
fn debug_test_support_ignores_whitespace_override() {
    assert_eq!(
        endpoint_with_override("http://configured.test/v1", Some("   ")),
        "http://configured.test/v1"
    );
}

#[test]
fn default_build_uses_configured_endpoint() {
    assert_eq!(endpoint("http://configured.test/v1"), "http://configured.test/v1");
}

#[test]
fn endpoints_are_trimmed_and_must_be_http_urls() {
    assert_eq!(
        normalize_endpoint("  https://openrouter.ai/api/v1//  ").unwrap(),
        "https://openrouter.ai/api/v1"
    );
    for bad in ["", "   ", "ftp://example.test", "not a url", "https://"] {
        match normalize_endpoint(bad) {
            Err(Error::ConfigError(message)) => {
                assert_eq!(message, "endpoint must be an HTTP or HTTPS URL")
            }
            other => panic!("{bad:?} was accepted: {:?}", other.is_ok()),
        }
    }
}

#[test]
fn known_endpoints_keep_their_identity() {
    assert_eq!(provider_name(OPENROUTER_ENDPOINT), "openrouter");
    assert_eq!(provider_name(OPENAI_ENDPOINT), "openai");
    assert_eq!(provider_name("https://example.test"), "custom");
    assert_eq!(suggested_api_key_env(OPENAI_ENDPOINT), "OPENAI_API_KEY");
    assert_eq!(suggested_api_key_env("https://example.test"), "WATN_API_KEY");
    let draft = build_provider_draft("https://openrouter.ai/api/v1/", "${OPENROUTER_API_KEY}").unwrap();
    assert_eq!(draft.identity, ProviderIdentity::OpenRouter);
    assert_eq!(draft.name, "openrouter");
    assert_eq!(draft.endpoint, OPENROUTER_ENDPOINT);
    let moved = build_provider_draft_for_identity(ProviderIdentity::OpenAi, "https://proxy.test/v1", "k").unwrap();
    assert_eq!(moved.identity, ProviderIdentity::Custom);
    assert_eq!(moved.name, "custom");
    assert!(matches!(
        build_provider_draft("https://example.test", "  "),
        Err(Error::ConfigError(message)) if message == "credential cannot be empty"
    ));
    assert_eq!(
        ProviderIdentity::from_config("openai", OPENAI_ENDPOINT),
        ProviderIdentity::OpenAi
    );
    assert_eq!(ProviderIdentity::OpenAi.endpoint(), Some(OPENAI_ENDPOINT));
}

#[test]
fn completions_url_drops_trailing_slashes() {
    assert_eq!(
        chat_completions_url("https://example.test/v1//"),
        "https://example.test/v1/chat/completions"
    );
}

fn feed(state: &mut SseState, body: &str) -> String {
    let mut content = String::new();
    for line in body.split_inclusive('\n') {
        for event in state.feed_line(line) {
            content.push_str(&event);
        }
    }
    content
}

#[test]
fn accepts_data_without_space_and_done_without_trailing_newline() {
    let body = "data:{\"model\":\"response-model\",\"choices\":[{\"delta\":{\"content\":\"printf test\"}}]}\n\ndata: [DONE]";
    let mut state = SseState::new("requested-model");
    let content = feed(&mut state, body);
    assert!(state.end_error().is_none());
    assert_eq!(content, "printf test");
    assert_eq!(state.content, "printf test");
    assert_eq!(state.model, "response-model");
}

#[test]
fn accumulates_reasoning_content_alias() {
    let body = "data: {\"model\":\"model\",\"choices\":[{\"delta\":{\"reasoning_content\":\"inspect\"}}]}\n\ndata: [DONE]\n";
    let mut state = SseState::new("requested-model");
    feed(&mut state, body);
    assert_eq!(state.reasoning_content().as_deref(), Some("inspect"));
}

#[test]
fn final_usage_event_replaces_earlier_usage() {
    let body = "data: {\"model\":\"requested-model\",\"choices\":[{\"delta\":{\"content\":\"printf\"}}],\"usage\":{\"prompt_tokens\":1,\"completion_tokens\":1}}\n\ndata: {\"model\":\"response-model\",\"choices\":[],\"usage\":{\"prompt_tokens\":10,\"completion_tokens\":20}}\n\ndata: [DONE]\n";
    let mut state = SseState::new("requested-model");
    feed(&mut state, body);
    let usage = state.usage.expect("usage should be present");
    assert_eq!(usage.prompt_tokens, 10);
    assert_eq!(usage.completion_tokens, 20);
    assert_eq!(state.model, "response-model");
}

#[test]
fn a_stream_without_done_is_an_error() {
    let mut state = SseState::new("m");
    feed(&mut state, "data: {\"choices\":[{\"delta\":{\"content\":\"ls\"}}]}\n");
    assert!(matches!(
        state.end_error(),
        Some(Error::NetworkError(message)) if message == "stream ended before [DONE]"
    ));
    assert_eq!(state.content, "ls");
    assert!(state.started);
}

#[test]
fn the_reader_aborts_on_interruption_and_stops_at_done() {
    let mut state = SseState::new("m");
    assert!(matches!(state.on_reader_event(ReaderEvent::Ready { interrupted: false }), ReaderAction::Read));
    assert!(matches!(
        state.on_reader_event(ReaderEvent::Ready { interrupted: true }),
        ReaderAction::Abort(watn::error::Error::Interrupted)
    ));
    match state.on_reader_event(ReaderEvent::Line("data: {\"choices\":[{\"delta\":{\"content\":\"hi\"}}]}\n".to_string())) {
        ReaderAction::Deliver { contents, finished } => {
            assert_eq!(contents, vec!["hi".to_string()]);
            assert!(!finished);
        }
        _ => panic!("a content line is delivered"),
    }
    match state.on_reader_event(ReaderEvent::Line("data: [DONE]\n".to_string())) {
        ReaderAction::Deliver { contents, finished } => {
            assert!(contents.is_empty());
            assert!(finished);
        }
        _ => panic!("the end marker is delivered"),
    }
    assert!(matches!(state.on_reader_event(ReaderEvent::End), ReaderAction::Finish));
    let failed = state.on_reader_event(ReaderEvent::Failed {
        interrupted_read: false,
        interrupted: false,
        message: "reset".to_string(),
    });
    assert!(matches!(failed, ReaderAction::Abort(watn::error::Error::NetworkError(ref m)) if m == "reset"));
    let interrupted = state.on_reader_event(ReaderEvent::Failed {
        interrupted_read: true,
        interrupted: false,
        message: "eintr".to_string(),
    });
    assert!(matches!(interrupted, ReaderAction::Abort(watn::error::Error::Interrupted)));
}
