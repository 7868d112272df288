use watn::config::types::comment_toml;
use watn::config::{has_settings, temporary_file_name, world_readable_warning, xdg_config_path, Config};
use watn::error::Error;
use watn::exec::{confirmation_key, ConfirmKey, ConfirmStep, PromptResult};
use watn::output::spinner::{next_frame, status_text};
use watn::provider::setup::build_provider_draft;
use watn::provider::transport::chat_status_error;
use watn::quicksetup::{
    credential_suggestion, install_failure, record_quick_setup, resolve_answer, shell_list_lines,
    small_model_suggestion, to_ascii_lowercase, toggle_shells,
};
use watn::request::{
    direct_system_prompt, explain_source, explain_system_prompt, review_system_prompt, stdin_command,
    tier_for, ExplainSource,
};
use watn::review::buffer::ReviewBuffer;
use watn::review::response::ExplanationOutcome;
use watn::review::session::{chooser_tiers, explain_command_candidate, parse_generated_candidate};
use watn::shell_shortcut::{InstallReport, Shell, TargetResult};
use watn::text::parse_u64;

fn env(pairs: &[(&str, &str)]) -> Vec<(String, String)> {
    pairs.iter().map(|(k, v)| (k.to_string(), v.to_string())).collect()
}

#[test]
fn templates_are_commented_line_by_line() {
    assert_eq!(comment_toml("a = 1\n\n[b]\nc = 2\n"), "# a = 1\n\n# [b]\n# c = 2");
    assert_eq!(comment_toml(""), "");
    assert_eq!(comment_toml("x\r\ny"), "# x\n# y");
}

#[test]
fn configuration_text_settings_and_paths() {
    assert!(!has_settings("# only a comment\n\n   \n"));
    assert!(has_settings("  # c\n  key = 1\n"));
    assert_eq!(xdg_config_path(&env(&[("XDG_CONFIG_HOME", "/x"), ("HOME", "/h")])), "/x/watn/config.toml");
    assert_eq!(xdg_config_path(&env(&[("HOME", "/h")])), "/h/.config/watn/config.toml");
    assert_eq!(xdg_config_path(&env(&[])), "./watn/config.toml");
    assert_eq!(
        world_readable_warning(0o100644).as_deref(),
        Some("warning: config file is world-readable (644)")
    );
    assert_eq!(world_readable_warning(0o100600), None);
    assert_eq!(world_readable_warning(0o4).as_deref(), Some("warning: config file is world-readable (4)"));
    assert_eq!(temporary_file_name("config.toml", 42, 7), ".config.toml.watn-42-7.tmp");
}

#[test]
fn tiers_follow_the_flags() {
    assert_eq!(tier_for(false, false, false, true), Some("1"));
    assert_eq!(tier_for(false, true, false, true), Some("2"));
    assert_eq!(tier_for(false, false, true, true), Some("3"));
    assert_eq!(tier_for(true, true, false, false), Some("1"));
    assert_eq!(tier_for(false, false, false, false), None);
}

#[test]
fn system_prompts_name_the_platform() {
    let direct = direct_system_prompt("linux", "x86_64", "/bin/bash");
    assert!(direct.starts_with("You are a direct answer engine."));
    assert!(direct.contains("Operating System: linux (x86_64). Shell: /bin/bash.\n\nFor commands:"));
    assert!(direct.ends_with("handle edge cases silently"));
    let review = review_system_prompt("macos", "aarch64", "sh");
    assert!(review.contains("{\"review_version\":1,\"command\":\"...\""));
    assert!(review.ends_with("Operating System: macos (aarch64). Shell: sh."));
    let explain = explain_system_prompt("linux", "x86_64", "zsh");
    assert!(explain.contains("encode them as \\n inside the JSON string"));
    assert!(explain.ends_with("Shell: zsh."));
}

#[test]
fn explained_commands_come_from_the_argument_or_stdin() {
    assert_eq!(explain_source(Some("ls -la".into()), true), ExplainSource::Given("ls -la".into()));
    assert_eq!(explain_source(Some("-".into()), true), ExplainSource::Stdin);
    assert_eq!(explain_source(Some(String::new()), false), ExplainSource::Usage);
    assert_eq!(explain_source(None, true), ExplainSource::Usage);
    assert_eq!(explain_source(None, false), ExplainSource::Stdin);
    assert_eq!(stdin_command("echo a\r\n").unwrap(), "echo a");
    assert_eq!(stdin_command("echo a\n\n").unwrap(), "echo a\n");
    assert_eq!(stdin_command("  x  ").unwrap(), "  x  ");
    assert_eq!(stdin_command("\n").unwrap_err(), "Usage: watn explain <command>");
}

#[test]
fn raw_confirmation_keys_edit_and_decide() {
    let mut input = String::new();
    assert_eq!(confirmation_key(&mut input, ConfirmKey::Char('y'), false), ConfirmStep::Echo('y'));
    assert_eq!(confirmation_key(&mut input, ConfirmKey::Char('x'), false), ConfirmStep::Echo('x'));
    assert_eq!(confirmation_key(&mut input, ConfirmKey::Backspace, false), ConfirmStep::Erase);
    assert_eq!(input, "y");
    assert_eq!(confirmation_key(&mut input, ConfirmKey::Other, false), ConfirmStep::Pending);
    assert_eq!(
        confirmation_key(&mut input, ConfirmKey::Enter, false),
        ConfirmStep::Done(PromptResult::Execute)
    );
    let mut empty = String::new();
    assert_eq!(confirmation_key(&mut empty, ConfirmKey::Backspace, true), ConfirmStep::Pending);
    let mut question = "?".to_string();
    assert_eq!(
        confirmation_key(&mut question, ConfirmKey::Enter, true),
        ConfirmStep::Done(PromptResult::Explain)
    );
    assert_eq!(
        confirmation_key(&mut question, ConfirmKey::Esc, true),
        ConfirmStep::Done(PromptResult::Cancelled)
    );
    assert_eq!(
        confirmation_key(&mut question, ConfirmKey::CtrlC, true),
        ConfirmStep::Done(PromptResult::Interrupted)
    );
}

#[test]
fn spinner_frames_cycle_and_describe_the_wait() {
    assert_eq!(next_frame(0), 1);
    assert_eq!(next_frame(12), 0);
    assert_eq!(status_text("m", "1.5", 7), "  Asking m \u{b7} 1.5s  (._. )");
}

#[test]
fn chat_errors_follow_the_status() {
    assert!(matches!(chat_status_error(401, "x".into()), Error::AuthError(m) if m == "authentication failed"));
    assert!(matches!(
        chat_status_error(503, "busy".into()),
        Error::ApiError { status: 503, message } if message == "busy"
    ));
}

#[test]
fn quick_setup_answers_suggestions_and_shells() {
    assert_eq!(resolve_answer(String::new(), Some("s")), Some("s".to_string()));
    assert_eq!(resolve_answer(String::new(), None), None);
    assert_eq!(resolve_answer("v".into(), Some("s")), Some("v".to_string()));
    assert_eq!(small_model_suggestion("https://openrouter.ai/api/v1"), Some("google/gemma-4-flash"));
    assert_eq!(small_model_suggestion("https://example.test/v1"), None);
    assert_eq!(
        credential_suggestion("https://openrouter.ai/api/v1", &env(&[("OPENROUTER_API_KEY", "k")])).as_deref(),
        Some("${OPENROUTER_API_KEY}")
    );
    assert_eq!(credential_suggestion("https://openrouter.ai/api/v1", &env(&[("OPENROUTER_API_KEY", "")])), None);
    assert_eq!(
        shell_list_lines(&[true, false, true]),
        vec![
            "Shell integrations (type shell names to toggle, Enter to confirm):",
            "  [x] Bash",
            "  [ ] Zsh",
            "  [x] Fish",
        ]
    );
    assert_eq!(to_ascii_lowercase("BaSh-Ä"), "bash-Ä");
    let (selected, unknown) = toggle_shells([true, false, false], "BASH zsh tcsh zsh fish");
    assert_eq!(selected, [false, false, true]);
    assert_eq!(unknown, vec!["tcsh".to_string()]);
}

#[test]
fn quick_setup_records_provider_and_tiers() {
    let mut config = Config::default();
    let draft = build_provider_draft("https://openrouter.ai/api/v1", "${OPENROUTER_API_KEY}").unwrap();
    record_quick_setup(&mut config, &draft, "s", "n", "t");
    assert_eq!(config.defaults.provider.as_deref(), Some("openrouter"));
    assert_eq!(config.tiers.small.as_deref(), Some("s"));
    assert_eq!(config.tiers.normal.as_deref(), Some("n"));
    assert_eq!(config.tiers.thinking.as_deref(), Some("t"));
    assert_eq!(config.providers.len(), 1);
    assert_eq!(config.providers[0].1.api_key.as_deref(), Some("${OPENROUTER_API_KEY}"));
}

fn target(shell: Shell, success: bool, message: &str) -> TargetResult {
    TargetResult { shell, path: None, success, message: message.to_string(), reload: None }
}

#[test]
fn the_completion_failure_is_reported_before_the_shortcut_failure() {
    let ok = InstallReport { results: vec![target(Shell::Bash, true, "Configured Bash")] };
    let bad_completion = InstallReport { results: vec![target(Shell::Zsh, false, "c")] };
    let bad_shortcut = InstallReport { results: vec![target(Shell::Fish, false, "s")] };
    assert!(install_failure(&ok, &ok).is_none());
    assert!(matches!(
        install_failure(&bad_completion, &bad_shortcut),
        Some(Error::ConfigError(m)) if m == "shell shortcut installation failed: c"
    ));
    assert!(matches!(
        install_failure(&ok, &bad_shortcut),
        Some(Error::ConfigError(m)) if m == "shell shortcut installation failed: s"
    ));
}

#[test]
fn decimal_text_parses_like_std() {
    assert_eq!(parse_u64("18446744073709551615"), Some(u64::MAX));
    assert_eq!(parse_u64("18446744073709551616"), None);
    assert_eq!(parse_u64("+12"), Some(12));
    assert_eq!(parse_u64("+"), None);
    assert_eq!(parse_u64(""), None);
    assert_eq!(parse_u64("007"), Some(7));
    for text in ["0", "42", "+9", "99999999999999999999", "-1", " 1", "1_0"] {
        assert_eq!(parse_u64(text), text.parse::<u64>().ok(), "{text}");
    }
}

#[test]
fn chooser_tiers_follow_the_configuration() {
    let mut config = Config::default();
    config.tiers.small = Some("s".into());
    config.tiers.thinking = Some("t".into());
    let tiers = chooser_tiers(&config);
    assert_eq!(tiers.len(), 2);
    assert_eq!((tiers[0].tier.as_str(), tiers[0].label.as_str(), tiers[0].model.as_str()), ("1", "small", "s"));
    assert_eq!((tiers[1].tier.as_str(), tiers[1].label.as_str(), tiers[1].model.as_str()), ("3", "thinking", "t"));
}

#[test]
fn finished_streams_become_candidates_or_explanations() {
    let mut buffer = ReviewBuffer::new();
    buffer.receive("   ");
    buffer.complete();
    assert!(parse_generated_candidate(&buffer).is_none());
    let mut buffer = ReviewBuffer::new();
    buffer.receive("ls -la | head");
    buffer.complete();
    let candidate = parse_generated_candidate(&buffer).unwrap();
    assert_eq!(candidate.command, "ls -la | head");
    let mut blank = ReviewBuffer::new();
    blank.complete();
    match explain_command_candidate("ls", &blank) {
        ExplanationOutcome::Unusable { candidate, .. } => assert_eq!(candidate.command, "ls"),
        ExplanationOutcome::Ready(_) => panic!("a blank answer explains nothing"),
    }
}

#[test]
fn small_rules_of_setup_and_shell_files() {
    let mut config = Config::default();
    assert!(!watn::config::model_roles_ready(&config));
    config.tiers.small = Some("s".into());
    config.tiers.normal = Some("n".into());
    config.tiers.thinking = Some("t".into());
    assert!(watn::config::model_roles_ready(&config));
    assert!(watn::shell_shortcut::has_managed_block(
        b"x\n# >>> watn shell shortcut >>>\ny\n",
        watn::shell_shortcut::OPEN_MARKER
    ));
    assert!(!watn::shell_shortcut::has_managed_block(b"x\n", watn::shell_shortcut::OPEN_MARKER));
    assert!(matches!(
        watn::shell_shortcut::target_error(Shell::Zsh, "shell shortcut", "/h/.zshrc", "target is a directory"),
        Error::ConfigError(m) if m == "Zsh shell shortcut target /h/.zshrc: target is a directory"
    ));
    assert_eq!(watn::provider::setup::cancellation_exit_code(watn::provider::setup::SetupCancellation::Escape), 1);
    assert_eq!(watn::provider::setup::cancellation_exit_code(watn::provider::setup::SetupCancellation::CtrlC), 130);
    let report = InstallReport {
        results: vec![
            target(Shell::Bash, false, "a"),
            target(Shell::Zsh, true, "b"),
            target(Shell::Fish, false, "c"),
        ],
    };
    let failures: Vec<String> = report.failures().into_iter().map(|t| t.message).collect();
    assert_eq!(failures, vec!["a".to_string(), "c".to_string()]);
    let successes: Vec<String> = report.successes().into_iter().map(|t| t.message).collect();
    assert_eq!(successes, vec!["b".to_string()]);
}

#[test]
fn suggestions_prefer_the_given_answer_then_the_shared_one() {
    let some = |s: &str| Some(s.to_string());
    assert_eq!(watn::quicksetup::suggestion(&some("a"), &some("b"), some("c")), some("a"));
    assert_eq!(watn::quicksetup::suggestion(&None, &some("b"), some("c")), some("b"));
    assert_eq!(watn::quicksetup::suggestion(&None, &None, some("c")), some("c"));
    assert_eq!(watn::quicksetup::suggestion(&None, &None, None), None);
}

#[test]
fn the_question_comes_from_arguments_then_standard_input() {
    let words = vec!["list".to_string(), "files".to_string()];
    assert_eq!(
        watn::request::question_source(&words, true, true),
        watn::request::QuestionSource::Given("list files".to_string())
    );
    assert_eq!(watn::request::question_source(&vec![], true, true), watn::request::QuestionSource::SwitchOnly);
    assert_eq!(watn::request::question_source(&vec![], false, true), watn::request::QuestionSource::Usage);
    assert_eq!(watn::request::question_source(&vec![], true, false), watn::request::QuestionSource::Stdin(true));
    assert_eq!(watn::request::question_source(&vec![], false, false), watn::request::QuestionSource::Stdin(false));
    assert_eq!(watn::request::stdin_question("  show disk usage \n"), Some("show disk usage".to_string()));
    assert_eq!(watn::request::stdin_question(" \n\t"), None);
}
