use watn::exec::{classify_confirmation, decide_answer, PromptResult};
use watn::error::{exit_code, Error};

#[test]
fn confirmation_accepts_empty_and_yes_answers() {
    assert_eq!(classify_confirmation("\n", false), PromptResult::Execute);
    assert_eq!(classify_confirmation("Y\n", false), PromptResult::Execute);
    assert_eq!(classify_confirmation("yes\n", false), PromptResult::Execute);
}

#[test]
fn confirmation_rejects_non_yes_answers() {
    assert_eq!(classify_confirmation("n\n", false), PromptResult::Cancelled);
    assert_eq!(classify_confirmation("no\n", false), PromptResult::Cancelled);
    assert_eq!(classify_confirmation("\u{1b}", false), PromptResult::Cancelled);
}

#[test]
fn explanation_answer_is_only_available_when_allowed() {
    assert_eq!(classify_confirmation("?\n", true), PromptResult::Explain);
    assert_eq!(classify_confirmation("?\n", false), PromptResult::Cancelled);
}

#[test]
fn confirmation_recognizes_ctrl_c() {
    assert_eq!(classify_confirmation("\u{3}", false), PromptResult::Interrupted);
}

#[test]
fn uppercase_answers_are_lowercased_before_deciding() {
    assert_eq!(classify_confirmation("  YES  ", false), PromptResult::Execute);
    assert_eq!(decide_answer("YES", false), PromptResult::Cancelled);
    assert_eq!(decide_answer("", true), PromptResult::Execute);
}

#[test]
fn exit_codes_follow_the_error_kind() {
    assert_eq!(exit_code(&Error::ConfigError("x".to_string())), 1);
    assert_eq!(exit_code(&Error::ProviderNotFound("x".to_string())), 1);
    assert_eq!(exit_code(&Error::AuthError("x".to_string())), 2);
    assert_eq!(
        exit_code(&Error::ApiError { status: 500, message: "x".to_string() }),
        2
    );
    assert_eq!(exit_code(&Error::NetworkError("x".to_string())), 3);
    assert_eq!(exit_code(&Error::IoError(std::io::Error::other("x"))), 1);
    assert_eq!(exit_code(&Error::Interrupted), 130);
    assert_eq!(
        Error::ApiError { status: 429, message: "slow down".to_string() }.message(),
        "API error (429): slow down"
    );
    assert!(Error::IoError(std::io::Error::other("disk")).message().starts_with("I/O error: "));
}
