use watn::config::Config;
use watn::error::Error;
use watn::models::dialog::ReasoningStrength;
use watn::models::list::{ModelEntry, ModelReasoning};
use watn::provider::setup::SetupCancellation;
use watn::setup::wizard::{
    catalog_page_outcome, shell_plan, tier_choices, CatalogPage, CredentialFocus, CredentialStorage,
    SetupWizard, ShellInstallChoice, ShellInstallFocus, WizardKey, WizardStep,
};
use watn::setup::{SetupEntryPoint, SetupPage};
use watn::shell_shortcut::Shell;

fn entry(id: &str) -> ModelEntry {
    ModelEntry { id: id.into(), name: None, context_length: None, supported_features: vec![], reasoning: None }
}

fn env(pairs: &[(&str, &str)]) -> Vec<(String, String)> {
    pairs.iter().map(|(k, v)| (k.to_string(), v.to_string())).collect()
}

fn wizard(entry_point: SetupEntryPoint, config: &Config) -> SetupWizard {
    SetupWizard::from_config(
        config,
        entry_point,
        env(&[("OPENROUTER_API_KEY", "sk-test")]),
        [true, false, false],
        [false, true, false],
        [false, false, true],
    )
    .ok()
    .unwrap()
}

fn press(w: &mut SetupWizard, key: WizardKey) -> WizardStep {
    w.key(key).ok().unwrap()
}

#[test]
fn a_full_setup_walks_every_page_and_saves() {
    let config = Config::default();
    let mut w = wizard(SetupEntryPoint::Setup, &config);
    assert_eq!(w.page, SetupPage::Provider);
    assert_eq!(w.completion.selected, [true, false, false]);
    assert!(matches!(press(&mut w, WizardKey::Enter), WizardStep::Continue));
    assert_eq!(w.page, SetupPage::Url);
    assert!(matches!(press(&mut w, WizardKey::Enter), WizardStep::Continue));
    assert_eq!(w.page, SetupPage::ApiKey);
    assert_eq!(w.credential_focus, CredentialFocus::Storage);
    press(&mut w, WizardKey::Char('e', false));
    assert_eq!(w.storage, CredentialStorage::Environment);
    assert_eq!(w.credential_input, "OPENROUTER_API_KEY");
    match press(&mut w, WizardKey::Enter) {
        WizardStep::LoadCatalog { endpoint, key } => {
            assert_eq!(endpoint, "https://openrouter.ai/api/v1");
            assert_eq!(key, "sk-test");
        }
        _ => panic!("the catalog is needed"),
    }
    assert_eq!(w.page, SetupPage::SmallModel);
    let mut reasoning_model = entry("r1");
    reasoning_model.reasoning = Some(ModelReasoning {
        default_effort: Some("high".into()),
        default_enabled: true,
        mandatory: false,
        supported_efforts: vec!["low".into(), "high".into()],
    });
    w.catalog_loaded(Ok((vec![entry("m1"), reasoning_model], true)));
    assert!(!w.catalog_manual);
    assert_eq!(w.slots[0].suggestions.len(), 2);
    press(&mut w, WizardKey::Down);
    assert_eq!(w.slots[0].selection, 1);
    assert_eq!(w.slots[0].reasoning, ReasoningStrength::High);
    press(&mut w, WizardKey::Enter);
    assert_eq!(w.page, SetupPage::SmallReasoning);
    press(&mut w, WizardKey::Down);
    assert_eq!(w.slots[0].reasoning, ReasoningStrength::Low);
    press(&mut w, WizardKey::Enter);
    for _ in 0..4 {
        press(&mut w, WizardKey::Enter);
    }
    assert_eq!(w.page, SetupPage::ShellCompletion);
    press(&mut w, WizardKey::Char('y', false));
    press(&mut w, WizardKey::Down);
    press(&mut w, WizardKey::Char(' ', false));
    press(&mut w, WizardKey::Enter);
    assert_eq!(w.page, SetupPage::ShellShortcut);
    match press(&mut w, WizardKey::Char('n', false)) {
        WizardStep::Saved(result) => {
            assert_eq!(result.provider.api_key, "${OPENROUTER_API_KEY}");
            assert_eq!(result.completion_shells, vec![Shell::Bash, Shell::Zsh]);
            assert!(result.shortcut_shells.is_empty());
            let choices = tier_choices(&result);
            assert_eq!(choices[0], Some(("r1".to_string(), "low".to_string())));
            assert_eq!(choices[1], Some(("m1".to_string(), "off".to_string())));
            let plan = shell_plan(&result);
            assert_eq!(plan[0], (Shell::Bash, true, false));
            assert_eq!(plan[2], (Shell::Fish, false, false));
        }
        _ => panic!("the last page saves"),
    }
}

#[test]
fn credentials_are_checked_before_leaving_the_key_page() {
    let config = Config::default();
    let mut w = wizard(SetupEntryPoint::Provider, &config);
    press(&mut w, WizardKey::Enter);
    press(&mut w, WizardKey::Enter);
    assert_eq!(w.page, SetupPage::ApiKey);
    press(&mut w, WizardKey::Enter);
    assert_eq!(w.credential_focus, CredentialFocus::Value);
    press(&mut w, WizardKey::Enter);
    assert_eq!(w.validation, "credential cannot be empty");
    press(&mut w, WizardKey::Char('k', false));
    match press(&mut w, WizardKey::Enter) {
        WizardStep::Saved(result) => assert_eq!(result.provider.api_key, "k"),
        _ => panic!("the provider entry ends on the key page"),
    }
}

#[test]
fn control_keys_cancel_and_clear() {
    let config = Config::default();
    let mut w = wizard(SetupEntryPoint::Setup, &config);
    press(&mut w, WizardKey::Enter);
    assert_eq!(w.page, SetupPage::Url);
    press(&mut w, WizardKey::Char('u', true));
    assert_eq!(w.endpoint, "");
    press(&mut w, WizardKey::Enter);
    assert_eq!(w.page, SetupPage::Url);
    assert_eq!(w.validation, "config error: endpoint must be an HTTP or HTTPS URL");
    let before = w.generation;
    assert!(matches!(press(&mut w, WizardKey::Char('c', true)), WizardStep::Cancelled(SetupCancellation::CtrlC)));
    assert_eq!(w.generation, before + 1);
}

#[test]
fn escape_asks_before_leaving() {
    let config = Config::default();
    let mut w = wizard(SetupEntryPoint::Setup, &config);
    press(&mut w, WizardKey::Esc);
    assert!(w.save_prompt);
    press(&mut w, WizardKey::Esc);
    assert!(!w.save_prompt);
    press(&mut w, WizardKey::Esc);
    assert!(matches!(press(&mut w, WizardKey::Char('N', false)), WizardStep::Cancelled(SetupCancellation::Escape)));
    let mut w = wizard(SetupEntryPoint::Setup, &config);
    press(&mut w, WizardKey::Esc);
    assert!(matches!(press(&mut w, WizardKey::Enter), WizardStep::Continue));
    assert!(!w.save_prompt);
    assert_eq!(w.validation, "config error: credential cannot be empty");
}

#[test]
fn the_shell_entry_starts_from_what_is_installed() {
    let config = Config::default();
    let mut w = wizard(SetupEntryPoint::Shell, &config);
    assert_eq!(w.page, SetupPage::ShellCompletion);
    assert_eq!(w.completion.selected, [false, true, false]);
    assert_eq!(w.shortcut.selected, [false, false, true]);
    press(&mut w, WizardKey::Tab);
    match press(&mut w, WizardKey::Char('y', false)) {
        WizardStep::Continue => {}
        _ => panic!("the shortcut question moves to the shells"),
    }
    match press(&mut w, WizardKey::Enter) {
        WizardStep::Saved(result) => {
            assert_eq!(result.provider.name, "custom");
            assert!(result.completion_shells.is_empty());
            assert_eq!(result.shortcut_shells, vec![Shell::Fish]);
        }
        _ => panic!("the shortcut page saves"),
    }
}

#[test]
fn searches_are_numbered_and_stale_results_dropped() {
    let mut config = Config::default();
    config.tiers.small = Some("b2".into());
    let mut w = wizard(SetupEntryPoint::Models, &config);
    assert_eq!(w.page, SetupPage::SmallModel);
    w.catalog_loaded(Ok((vec![entry("a1"), entry("b2"), entry("c3")], false)));
    assert_eq!(w.slots[0].selection, 1);
    let request = match press(&mut w, WizardKey::Char('c', false)) {
        WizardStep::Search(request) => request,
        _ => panic!("an incomplete catalog is searched remotely"),
    };
    assert_eq!(request.query, "c");
    assert_eq!(request.key.as_deref(), Some("sk-test"));
    assert!(w.slots[0].search_pending);
    assert_eq!(w.slots[0].search_status.as_deref(), Some("Searching..."));
    w.search_finished(0, request.generation - 1, Ok((vec![entry("old")], None, false)));
    assert!(w.slots[0].search_pending);
    w.search_finished(0, request.generation, Ok((vec![], None, true)));
    assert!(!w.slots[0].search_pending);
    assert_eq!(w.slots[0].search_status.as_deref(), Some("(no models found)"));
    press(&mut w, WizardKey::Enter);
    assert_eq!(w.validation, "config error: wait for a model result before continuing");
    press(&mut w, WizardKey::Backspace);
    assert_eq!(w.slots[0].suggestions.len(), 3);
    w.search_finished(0, w.generation, Err(Error::NetworkError("down".into())));
    assert_eq!(w.slots[0].search_status.as_deref(), Some("network error: down"));
}

#[test]
fn unusable_catalogs_switch_to_manual_models() {
    let config = Config::default();
    let mut w = wizard(SetupEntryPoint::Models, &config);
    w.catalog_loaded(Ok((vec![entry("x"), entry("x")], true)));
    assert!(w.catalog_manual);
    assert_eq!(w.validation, "Catalog discovery unavailable. Model identifiers must be unique and non-empty.");
    press(&mut w, WizardKey::Enter);
    assert_eq!(w.validation, "config error: enter a non-empty manual model identifier");
    for c in "my-model".chars() {
        press(&mut w, WizardKey::Char(c, false));
    }
    press(&mut w, WizardKey::Enter);
    assert_eq!(w.page, SetupPage::SmallReasoning);
    assert_eq!(w.slots[0].completed.as_ref().unwrap().model.id, "my-model");
    press(&mut w, WizardKey::Char('c', false));
    press(&mut w, WizardKey::Enter);
    assert_eq!(w.validation, "reasoning effort cannot be empty");
    press(&mut w, WizardKey::Char('x', false));
    press(&mut w, WizardKey::Enter);
    assert_eq!(w.slots[0].completed.as_ref().unwrap().reasoning, "x");
    let mut other = wizard(SetupEntryPoint::Models, &config);
    other.catalog_loaded(Err(Error::NetworkError("down".into())));
    assert_eq!(other.validation, "Catalog discovery unavailable. Enter a manual model identifier: network error: down");
}

#[test]
fn shell_pages_toggle_and_move() {
    let mut choice = ShellInstallChoice::new([false, false, false]);
    assert!(!choice.handle_key(WizardKey::Char('Y', false)));
    assert_eq!(choice.focus, ShellInstallFocus::Shells);
    assert!(!choice.handle_key(WizardKey::Up));
    assert_eq!(choice.cursor, 0);
    choice.handle_key(WizardKey::Down);
    choice.handle_key(WizardKey::Down);
    choice.handle_key(WizardKey::Down);
    assert_eq!(choice.cursor, 2);
    choice.handle_key(WizardKey::Char(' ', false));
    assert_eq!(choice.selected, [false, false, true]);
    assert!(choice.handle_key(WizardKey::Tab));
    let mut declined = ShellInstallChoice::new([true, true, true]);
    assert!(declined.handle_key(WizardKey::Enter));
    assert!(!declined.enabled);
}

#[test]
fn the_first_catalog_page_decides_the_fetch() {
    match catalog_page_outcome(Ok(vec![entry("a")]), 50) {
        CatalogPage::Use(models, complete) => {
            assert_eq!(models.len(), 1);
            assert!(complete);
        }
        _ => panic!("a page with models is used"),
    }
    assert!(matches!(catalog_page_outcome(Ok(vec![]), 50), CatalogPage::FetchAll));
    assert!(matches!(catalog_page_outcome(Err(Error::NetworkError("x".into())), 50), CatalogPage::Failed(_)));
}
