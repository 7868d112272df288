use watn::config::Config;
use watn::models::dialog::ReasoningStrength;
use watn::models::list::{ModelEntry, ModelReasoning};
use watn::setup::screen::{
    context_label, credential_shown, features_label, focus_label, footer, header_line, manual_label,
    model_label, model_title, provider_label, reasoning_page_text, shell_page_text, shell_row,
    validation_line,
};
use watn::setup::wizard::{CredentialStorage, ModelSlot, SetupWizard, WizardKey};
use watn::setup::{SetupEntryPoint, SetupPage};
use watn::shell_shortcut::Shell;

fn wizard(entry_point: SetupEntryPoint) -> SetupWizard {
    SetupWizard::from_config(&Config::default(), entry_point, vec![], [true, false, false], [false; 3], [false; 3])
        .ok()
        .unwrap()
}

fn model(id: &str, reasoning: Option<ModelReasoning>) -> ModelEntry {
    ModelEntry {
        id: id.into(),
        name: None,
        context_length: Some(128_500),
        supported_features: vec!["tools".into(), "vision".into()],
        reasoning,
    }
}

#[test]
fn header_names_page_count_title_and_focus() {
    let w = wizard(SetupEntryPoint::Setup);
    assert_eq!(focus_label(&w), "provider choice");
    assert_eq!(header_line(&w), "Page 1 of 11  |  Provider  |  Focus: provider choice");
    assert_eq!(footer(&w), "Up/Down choose  Enter/Tab next  Shift-Tab back  Esc save/discard  Ctrl-C quit");
    let provider_only = wizard(SetupEntryPoint::Provider);
    assert_eq!(header_line(&provider_only), "Page 1 of 3  |  Provider  |  Focus: provider choice");
}

#[test]
fn footer_follows_the_save_question_and_shell_pages() {
    let mut w = wizard(SetupEntryPoint::Setup);
    w.key(WizardKey::Esc).ok().unwrap();
    assert_eq!(footer(&w), "Save current settings? [y] Save [n] Discard  [Esc] Return");
    let shell = wizard(SetupEntryPoint::Shell);
    assert_eq!(shell.page, SetupPage::ShellCompletion);
    assert_eq!(footer(&shell), "[y] Install completion  [Enter] Skip  [Esc] save/discard");
    assert_eq!(focus_label(&shell), "completion confirmation");
}

#[test]
fn credential_is_masked_unless_it_names_a_variable() {
    let mut w = wizard(SetupEntryPoint::Setup);
    w.storage = CredentialStorage::Configuration;
    w.credential_input = "sk-äb".into();
    assert_eq!(credential_shown(&w), "*****");
    w.storage = CredentialStorage::Environment;
    w.credential_input = "OPENROUTER_API_KEY".into();
    assert_eq!(credential_shown(&w), "OPENROUTER_API_KEY");
    assert_eq!(
        validation_line(&w),
        "The active line is marked with \u{2588}. Enter or Tab advances the wizard."
    );
    w.validation = "credential cannot be empty".into();
    assert_eq!(validation_line(&w), "Validation: credential cannot be empty");
}

#[test]
fn model_table_texts() {
    let mut w = wizard(SetupEntryPoint::Models);
    assert_eq!(w.page, SetupPage::SmallModel);
    let mut slot = ModelSlot::new(None, ReasoningStrength::Off, false);
    slot.suggestions = vec![model("a/one", None), model("b/two", None)];
    slot.selection = 1;
    assert_eq!(model_label(&slot, 0), "a/one");
    assert_eq!(model_label(&slot, 1), "> b/two");
    assert_eq!(context_label(Some(128_500)), "128K");
    assert_eq!(context_label(None), "-");
    assert_eq!(features_label(&slot.suggestions[0]), "tools, vision");
    assert_eq!(model_title(&w, &slot), "Small Model (editing)");
    slot.query = "two".into();
    assert_eq!(model_title(&w, &slot), "Small Model (editing) | Filter: two");
    w.catalog_manual = true;
    assert_eq!(model_title(&w, &slot), "Small Model (manual entry)");
    assert_eq!(manual_label(&slot), "type a model id");
    slot.manual_model = "x/y".into();
    assert_eq!(manual_label(&slot), "x/y");
    assert_eq!(provider_label("openrouter"), "OpenRouter");
    assert_eq!(provider_label("openai"), "OpenAI");
    assert_eq!(provider_label("custom"), "Custom");
}

#[test]
fn reasoning_page_text_names_model_choice_and_custom_effort() {
    let mut slot = ModelSlot::new(None, ReasoningStrength::Off, false);
    assert_eq!(
        reasoning_page_text(&slot),
        "Model: (no model selected)\nNotice: reasoning metadata unavailable\nChoose reasoning effort with Up/Down, then press Enter.\nSelected: off\nChoices: off\nCustom: press c to enter a custom effort"
    );
    slot.suggestions = vec![model("r/one", Some(ModelReasoning {
        default_effort: None,
        default_enabled: false,
        mandatory: false,
        supported_efforts: vec!["low".into(), "high".into()],
    }))];
    slot.custom_reasoning = Some("max".into());
    let text = reasoning_page_text(&slot);
    assert!(text.starts_with("Model: r/one\n\nChoose reasoning effort"));
    assert!(text.ends_with("Selected: max\nChoices: low, high\nCustom: max"));
}

#[test]
fn shell_page_texts_and_rows() {
    let (title, _, question) = shell_page_text(true, false);
    assert_eq!(title, "Shell shortcut");
    assert_eq!(question, "Install the Ctrl-W shell shortcut for watn?");
    let (title, _, question) = shell_page_text(false, true);
    assert_eq!(title, "Shell completion");
    assert_eq!(question, "Select the shells where watn completion should be installed.");
    assert_eq!(shell_row(true, Shell::Zsh), "[x] Zsh");
    assert_eq!(shell_row(false, Shell::Fish), "[ ] Fish");
}
