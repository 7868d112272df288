use watn::error::Error;
use watn::setup::{
    parse_reasoning, provider_choices, reasoning_options, selected_shells, valid_environment_name,
    SetupPage,
};
use watn::models::dialog::ReasoningStrength;
use watn::models::list::ModelReasoning;
use watn::output::logo::ascii_logo;
use watn::output::spinner::pulse_colors;
use watn::shell_shortcut::{
    build_content, configured_target, failed_target, selected_in_order, InstallReport, Shell,
    ShellEnvironment, CLOSE_MARKER, OPEN_MARKER,
};

fn environment(home: &str, xdg: Option<&str>, shell: Option<&str>) -> ShellEnvironment {
    ShellEnvironment {
        home: home.to_string(),
        xdg_config_home: xdg.map(str::to_string),
        shell: shell.map(str::to_string),
    }
}

#[test]
fn pulse_colors_fade_up_and_back_down() {
    let colors = pulse_colors();
    let midpoint = colors.len() / 2;
    for index in 0..midpoint {
        assert_eq!(colors[index], colors[colors.len() - index - 1]);
    }
    assert_ne!(colors[0], colors[midpoint]);
}

#[test]
fn startup_files_live_under_home() {
    let env = environment("/home/u", None, Some("/usr/bin/zsh"));
    assert_eq!(env.target_path(Shell::Bash).unwrap(), "/home/u/.bashrc");
    assert_eq!(env.target_path(Shell::Zsh).unwrap(), "/home/u/.zshrc");
    assert_eq!(env.target_path(Shell::Fish).unwrap(), "/home/u/.config/fish/config.fish");
    let xdg = environment("/home/u", Some("/cfg"), None);
    assert_eq!(xdg.target_path(Shell::Fish).unwrap(), "/cfg/fish/config.fish");
    assert!(matches!(
        environment("relative", None, None).target_path(Shell::Bash),
        Err(Error::ConfigError(message)) if message == "cannot resolve Bash shell shortcut target: HOME must be an absolute path"
    ));
    assert!(matches!(
        environment("/home/u", Some("cfg"), None).target_path(Shell::Fish),
        Err(Error::ConfigError(message)) if message == "cannot resolve Fish shell shortcut target: XDG_CONFIG_HOME must be an absolute path"
    ));
    assert_eq!(env.detected_shells(), vec![Shell::Zsh]);
    assert!(environment("/h", None, Some("/bin/tcsh")).detected_shells().is_empty());
    assert!(environment("/h", None, None).detected_shells().is_empty());
}

#[test]
fn the_block_is_appended_once_and_replaced_in_place() {
    let first = build_content(Shell::Bash, b"alias ll='ls -l'").unwrap();
    let text = String::from_utf8(first.clone()).unwrap();
    assert!(text.starts_with("alias ll='ls -l'\n# >>> watn shell shortcut >>>"));
    assert_eq!(text.matches(OPEN_MARKER).count(), 1);
    assert_eq!(text.matches(CLOSE_MARKER).count(), 1);
    let again = String::from_utf8(build_content(Shell::Bash, &first).unwrap()).unwrap();
    assert_eq!(again.matches(OPEN_MARKER).count(), 1);
    assert!(again.starts_with("alias ll='ls -l'\n# >>> watn shell shortcut >>>"));
    let zsh = String::from_utf8(build_content(Shell::Zsh, b"").unwrap()).unwrap();
    assert!(zsh.contains("bindkey '^W' _watn_widget"));
}

#[test]
fn reinstalling_keeps_one_block_and_adds_a_line_break() {
    for shell in [Shell::Bash, Shell::Zsh, Shell::Fish] {
        let block = shell.generated_block();
        let first = build_content(shell, b"export A=1\n").unwrap();
        let text = String::from_utf8(first.clone()).unwrap();
        assert_eq!(text, format!("export A=1\n{block}"));
        assert_eq!(text.matches(OPEN_MARKER).count(), 1);
        assert_eq!(text.matches(CLOSE_MARKER).count(), 1);
        let again = String::from_utf8(build_content(shell, &first).unwrap()).unwrap();
        assert_eq!(again, format!("export A=1\n{block}\n"));
        assert_eq!(again.matches(OPEN_MARKER).count(), 1);
        assert_eq!(again.matches(CLOSE_MARKER).count(), 1);
        let completion = watn::shell_completion::build_content(shell, b"").unwrap();
        let completion_again = watn::shell_completion::build_content(shell, &completion).unwrap();
        let mut expected = completion.clone();
        expected.push(b'\n');
        assert_eq!(completion_again, expected);
    }
}

#[test]
fn malformed_markers_are_reported() {
    let doubled = format!("{OPEN_MARKER}\n{OPEN_MARKER}\n{CLOSE_MARKER}\n");
    assert!(matches!(
        build_content(Shell::Fish, doubled.as_bytes()),
        Err(Error::ConfigError(message)) if message == "malformed watn shell shortcut markers: expected zero markers or one ordered pair, found 2 opening and 1 closing markers"
    ));
    let reversed = format!("{CLOSE_MARKER}\n{OPEN_MARKER}\n");
    assert!(matches!(
        build_content(Shell::Fish, reversed.as_bytes()),
        Err(Error::ConfigError(message)) if message == "malformed watn shell shortcut markers: closing marker precedes opening marker"
    ));
}

#[test]
fn completion_blocks_use_their_own_markers() {
    let text = String::from_utf8(watn::shell_completion::build_content(Shell::Bash, b"").unwrap()).unwrap();
    assert!(text.starts_with(watn::shell_completion::OPEN_MARKER));
    assert!(text.contains("source <(command watn completions bash)"));
}

#[test]
fn reports_aggregate_failures() {
    let ok = configured_target(Shell::Bash, "/home/u/.bashrc".to_string(), "/home/u");
    assert_eq!(ok.reload.as_deref(), Some("Run: source ~/.bashrc"));
    assert_eq!(ok.message, "Configured Bash");
    let failed = failed_target(Shell::Zsh, None, &Error::ConfigError("boom".to_string()));
    let report = InstallReport { results: vec![ok.clone(), failed] };
    assert!(!report.is_success());
    assert_eq!(report.failures().len(), 1);
    assert_eq!(report.successes().len(), 1);
    assert!(matches!(
        report.aggregate_error(),
        Some(Error::ConfigError(message)) if message == "shell shortcut installation failed: config error: boom"
    ));
    assert!(InstallReport { results: vec![ok] }.aggregate_error().is_none());
    assert_eq!(selected_in_order(&[Shell::Fish, Shell::Bash, Shell::Fish]), vec![Shell::Bash, Shell::Fish]);
}

#[test]
fn setup_helpers_follow_their_rules() {
    assert_eq!(selected_shells(true, [true, false, true]), vec![Shell::Bash, Shell::Fish]);
    assert!(selected_shells(false, [true, true, true]).is_empty());
    assert_eq!(parse_reasoning(Some("high")), ReasoningStrength::High);
    assert_eq!(parse_reasoning(Some("?")), ReasoningStrength::Off);
    assert_eq!(provider_choices(), ["openrouter", "openai", "custom"]);
    assert!(valid_environment_name("OPENROUTER_API_KEY"));
    assert!(!valid_environment_name("9KEY"));
    assert!(!valid_environment_name(""));
    assert_eq!(SetupPage::ApiKey.next(), Some(SetupPage::SmallModel));
    assert_eq!(SetupPage::Url.previous(), None);
    assert_eq!(SetupPage::ShellShortcut.next(), None);
    assert_eq!(SetupPage::ThinkingModel.model_slot(), Some(2));
    let policy = ModelReasoning {
        default_effort: None,
        default_enabled: true,
        mandatory: false,
        supported_efforts: vec!["high".to_string(), "off".to_string(), "high".to_string()],
    };
    assert_eq!(
        reasoning_options(Some(&policy)),
        vec![ReasoningStrength::High, ReasoningStrength::Off]
    );
    assert_eq!(reasoning_options(None).len(), 5);
    assert!(ascii_logo().contains("(_)"));
}
