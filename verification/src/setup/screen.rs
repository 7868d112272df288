//! The text of the setup wizard's screens: the header, the key hints, and
//! what each page shows, ready to be drawn.
use vstd::prelude::*;

use crate::models::dialog::strength_name;
use crate::models::list::ModelEntry;
use crate::setup::wizard::{
    CredentialFocus, CredentialStorage, ModelFocus, ModelSlot, SetupWizard, ShellInstallFocus,
};
use crate::setup::{page_index, page_title, SetupPage};
use crate::shell_shortcut::{shell_name, Shell};
use crate::text::{decimal_text, join, push_char, push_str, views_of};

verus! {

/// What the keys act on, as the header names it.
pub open spec fn focus_name(w: SetupWizard) -> Seq<char> {
    match w.page {
        SetupPage::Provider => "provider choice"@,
        SetupPage::ShellCompletion => match w.completion.focus {
            ShellInstallFocus::Question => "completion confirmation"@,
            ShellInstallFocus::Shells => "completion shells"@,
        },
        SetupPage::ShellShortcut => match w.shortcut.focus {
            ShellInstallFocus::Question => "shortcut confirmation"@,
            ShellInstallFocus::Shells => "shortcut shells"@,
        },
        SetupPage::SmallReasoning | SetupPage::NormalReasoning | SetupPage::ThinkingReasoning => "reasoning"@,
        SetupPage::SmallModel | SetupPage::NormalModel | SetupPage::ThinkingModel => match w.model_focus {
            ModelFocus::Table => "model table"@,
            ModelFocus::Reasoning => "reasoning"@,
        },
        _ => match w.credential_focus {
            CredentialFocus::Storage => "storage choice"@,
            CredentialFocus::Value => "input"@,
        },
    }
}

pub fn focus_label(w: &SetupWizard) -> (r: &'static str)
    ensures
        r@ == focus_name(*w),
{
    match w.page {
        SetupPage::Provider => "provider choice",
        SetupPage::ShellCompletion => match w.completion.focus {
            ShellInstallFocus::Question => "completion confirmation",
            ShellInstallFocus::Shells => "completion shells",
        },
        SetupPage::ShellShortcut => match w.shortcut.focus {
            ShellInstallFocus::Question => "shortcut confirmation",
            ShellInstallFocus::Shells => "shortcut shells",
        },
        SetupPage::SmallReasoning | SetupPage::NormalReasoning | SetupPage::ThinkingReasoning => "reasoning",
        SetupPage::SmallModel | SetupPage::NormalModel | SetupPage::ThinkingModel => match w.model_focus {
            ModelFocus::Table => "model table",
            ModelFocus::Reasoning => "reasoning",
        },
        _ => match w.credential_focus {
            CredentialFocus::Storage => "storage choice",
            CredentialFocus::Value => "input",
        },
    }
}

/// The header: the page's number among the entry point's pages, its title
/// and the focus.
pub open spec fn header_text(w: SetupWizard) -> Seq<char> {
    "Page "@ + decimal_text((page_index(w.page) + 1) as nat) + " of "@ + decimal_text(
        (page_index(w.last_page) + 1) as nat,
    ) + "  |  "@ + page_title(w.page) + "  |  Focus: "@ + focus_name(w)
}

pub fn header_line(w: &SetupWizard) -> (r: String)
    ensures
        r@ == header_text(*w),
{
    let mut s = String::from_str("Page ");
    push_str(&mut s, crate::text::decimal((w.page.index() + 1) as u64).as_str());
    push_str(&mut s, " of ");
    push_str(&mut s, crate::text::decimal((w.last_page.index() + 1) as u64).as_str());
    push_str(&mut s, "  |  ");
    push_str(&mut s, w.page.title());
    push_str(&mut s, "  |  Focus: ");
    push_str(&mut s, focus_label(w));
    s
}

/// The key hints at the bottom: the save question's while it is open, else
/// the page's.
pub open spec fn footer_text(w: SetupWizard) -> Seq<char> {
    if w.save_prompt {
        "Save current settings? [y] Save [n] Discard  [Esc] Return"@
    } else {
        match w.page {
            SetupPage::ShellCompletion => match w.completion.focus {
                ShellInstallFocus::Question => "[y] Install completion  [Enter] Skip  [Esc] save/discard"@,
                ShellInstallFocus::Shells => "Up/Down move  Space toggle  Enter continue  Esc save/discard"@,
            },
            SetupPage::ShellShortcut => match w.shortcut.focus {
                ShellInstallFocus::Question => "[y] Install shortcut  [Enter] Skip  [Esc] save/discard"@,
                ShellInstallFocus::Shells => "Up/Down move  Space toggle  Enter finish  Esc save/discard"@,
            },
            SetupPage::SmallModel | SetupPage::NormalModel | SetupPage::ThinkingModel =>
                "Enter/Tab next  Shift-Tab back  Esc save/discard  Ctrl-C quit"@,
            _ => "Up/Down choose  Enter/Tab next  Shift-Tab back  Esc save/discard  Ctrl-C quit"@,
        }
    }
}

pub fn footer(w: &SetupWizard) -> (r: &'static str)
    ensures
        r@ == footer_text(*w),
{
    if w.save_prompt {
        return "Save current settings? [y] Save [n] Discard  [Esc] Return";
    }
    match w.page {
        SetupPage::ShellCompletion => match w.completion.focus {
            ShellInstallFocus::Question => "[y] Install completion  [Enter] Skip  [Esc] save/discard",
            ShellInstallFocus::Shells => "Up/Down move  Space toggle  Enter continue  Esc save/discard",
        },
        SetupPage::ShellShortcut => match w.shortcut.focus {
            ShellInstallFocus::Question => "[y] Install shortcut  [Enter] Skip  [Esc] save/discard",
            ShellInstallFocus::Shells => "Up/Down move  Space toggle  Enter finish  Esc save/discard",
        },
        SetupPage::SmallModel | SetupPage::NormalModel | SetupPage::ThinkingModel =>
            "Enter/Tab next  Shift-Tab back  Esc save/discard  Ctrl-C quit",
        _ => "Up/Down choose  Enter/Tab next  Shift-Tab back  Esc save/discard  Ctrl-C quit",
    }
}

/// The line under an input: the validation message, or how to go on.
pub open spec fn validation_text(w: SetupWizard) -> Seq<char> {
    if w.validation@.len() == 0 {
        "The active line is marked with \u{2588}. Enter or Tab advances the wizard."@
    } else {
        "Validation: "@ + w.validation@
    }
}

pub fn validation_line(w: &SetupWizard) -> (r: String)
    ensures
        r@ == validation_text(*w),
{
    if w.validation.unicode_len() == 0 {
        String::from_str("The active line is marked with \u{2588}. Enter or Tab advances the wizard.")
    } else {
        let mut s = String::from_str("Validation: ");
        push_str(&mut s, w.validation.as_str());
        s
    }
}

/// The credential as shown: a pasted credential masked, one `*` a
/// character; a variable's name as it is.
pub open spec fn shown_credential(w: SetupWizard) -> Seq<char> {
    if w.storage == CredentialStorage::Configuration {
        Seq::new(w.credential_input@.len(), |i: int| '*')
    } else {
        w.credential_input@
    }
}

pub fn credential_shown(w: &SetupWizard) -> (r: String)
    ensures
        r@ == shown_credential(*w),
{
    if w.storage == CredentialStorage::Environment {
        return w.credential_input.clone();
    }
    let n = w.credential_input.unicode_len();
    let mut s = String::new();
    let mut k: usize = 0;
    while k < n
        invariant
            k <= n,
            n == w.credential_input@.len(),
            s@ == Seq::new(k as nat, |i: int| '*'),
        decreases n - k,
    {
        push_char(&mut s, '*');
        assert(s@ =~= Seq::new((k + 1) as nat, |i: int| '*'));
        k += 1;
    }
    s
}

/// The label of a provider choice.
pub open spec fn provider_title(choice: Seq<char>) -> Seq<char> {
    if choice == "openrouter"@ {
        "OpenRouter"@
    } else if choice == "openai"@ {
        "OpenAI"@
    } else {
        "Custom"@
    }
}

pub fn provider_label(choice: &str) -> (r: &'static str)
    ensures
        r@ == provider_title(choice@),
{
    if crate::text::str_eq(choice, "openrouter") {
        "OpenRouter"
    } else if crate::text::str_eq(choice, "openai") {
        "OpenAI"
    } else {
        "Custom"
    }
}

/// The model table's title: the page, and the query while one is typed.
pub open spec fn model_title_text(w: SetupWizard, slot: ModelSlot) -> Seq<char> {
    if w.catalog_manual {
        page_title(w.page) + " (manual entry)"@
    } else if slot.query@.len() == 0 {
        page_title(w.page) + " (editing)"@
    } else {
        page_title(w.page) + " (editing) | Filter: "@ + slot.query@
    }
}

pub fn model_title(w: &SetupWizard, slot: &ModelSlot) -> (r: String)
    ensures
        r@ == model_title_text(*w, *slot),
{
    let mut s = String::from_str(w.page.title());
    if w.catalog_manual {
        push_str(&mut s, " (manual entry)");
    } else if slot.query.unicode_len() == 0 {
        push_str(&mut s, " (editing)");
    } else {
        push_str(&mut s, " (editing) | Filter: ");
        push_str(&mut s, slot.query.as_str());
    }
    s
}

/// A model's label in the table: marked when it is the selected one.
pub open spec fn model_label_text(slot: ModelSlot, index: int) -> Seq<char> {
    let id = slot.suggestions@[index]@.id;
    if index == slot.selection {
        "> "@ + id
    } else {
        id
    }
}

pub fn model_label(slot: &ModelSlot, index: usize) -> (r: String)
    requires
        index < slot.suggestions@.len(),
    ensures
        r@ == model_label_text(*slot, index as int),
{
    if index == slot.selection {
        let mut s = String::from_str("> ");
        push_str(&mut s, slot.suggestions[index].id.as_str());
        s
    } else {
        slot.suggestions[index].id.clone()
    }
}

/// A context window in thousands of tokens, `-` when unknown.
pub open spec fn context_text(length: Option<u64>) -> Seq<char> {
    match length {
        Some(v) => decimal_text((v / 1000) as nat) + "K"@,
        None => "-"@,
    }
}

pub fn context_label(length: Option<u64>) -> (r: String)
    ensures
        r@ == context_text(length),
{
    match length {
        Some(v) => {
            let mut s = crate::text::decimal(v / 1000);
            push_str(&mut s, "K");
            s
        },
        None => String::from_str("-"),
    }
}

/// A model's features, joined by commas.
pub fn features_label(model: &ModelEntry) -> (r: String)
    ensures
        r@ == join(model@.supported_features, ", "@),
{
    let r = crate::text::join_strings(model.supported_features.as_slice(), ", ");
    proof {
        assert(views_of(model.supported_features@) =~= model@.supported_features);
    }
    r
}

/// What the manual model row shows: the typed identifier, or a prompt.
pub open spec fn manual_text(slot: ModelSlot) -> Seq<char> {
    if slot.manual_model@.len() == 0 {
        "type a model id"@
    } else {
        slot.manual_model@
    }
}

pub fn manual_label(slot: &ModelSlot) -> (r: String)
    ensures
        r@ == manual_text(*slot),
{
    if slot.manual_model.unicode_len() == 0 {
        String::from_str("type a model id")
    } else {
        slot.manual_model.clone()
    }
}

/// The model a reasoning page is about: the confirmed one, else the
/// selected suggestion.
pub open spec fn reasoning_model(slot: ModelSlot) -> Seq<char> {
    match slot.completed {
        Some(c) => c.model@.id,
        None => match slot.selected() {
            Some(m) => m.id,
            None => "(no model selected)"@,
        },
    }
}

/// The names of the strengths, joined by commas.
pub open spec fn strength_list(s: Seq<crate::models::dialog::ReasoningStrength>) -> Seq<char> {
    join(s.map_values(|x: crate::models::dialog::ReasoningStrength| strength_name(x)), ", "@)
}

/// The text of a reasoning page.
pub open spec fn reasoning_text(slot: ModelSlot) -> Seq<char> {
    let notice = match slot.selected() {
        Some(m) => if m.reasoning is None {
            "Notice: reasoning metadata unavailable"@
        } else {
            Seq::<char>::empty()
        },
        None => "Notice: reasoning metadata unavailable"@,
    };
    let custom = match slot.custom_reasoning {
        Some(c) => c@,
        None => "press c to enter a custom effort"@,
    };
    "Model: "@ + reasoning_model(slot) + "\n"@ + notice + "\nChoose reasoning effort with Up/Down, then press Enter.\nSelected: "@
        + slot.value() + "\nChoices: "@ + strength_list(slot.options()) + "\nCustom: "@ + custom
}

pub fn reasoning_page_text(slot: &ModelSlot) -> (r: String)
    ensures
        r@ == reasoning_text(*slot),
{
    let mut s = String::from_str("Model: ");
    match &slot.completed {
        Some(c) => push_str(&mut s, c.model.id.as_str()),
        None => if slot.selection < slot.suggestions.len() {
            push_str(&mut s, slot.suggestions[slot.selection].id.as_str());
        } else {
            push_str(&mut s, "(no model selected)");
        },
    }
    push_str(&mut s, "\n");
    let has_metadata = slot.selection < slot.suggestions.len() && slot.suggestions[slot.selection].reasoning.is_some();
    if !has_metadata {
        push_str(&mut s, "Notice: reasoning metadata unavailable");
    }
    push_str(&mut s, "\nChoose reasoning effort with Up/Down, then press Enter.\nSelected: ");
    push_str(&mut s, slot.reasoning_value().as_str());
    push_str(&mut s, "\nChoices: ");
    let options = slot.reasoning_options();
    let mut names: Vec<String> = Vec::new();
    let mut k: usize = 0;
    while k < options.len()
        invariant
            k <= options@.len(),
            views_of(names@) == options@.take(k as int).map_values(
                |x: crate::models::dialog::ReasoningStrength| strength_name(x),
            ),
        decreases options@.len() - k,
    {
        let ghost before = names@;
        names.push(options[k].as_str().to_string());
        assert(views_of(names@) =~= views_of(before).push(strength_name(options@[k as int])));
        assert(options@.take(k + 1).map_values(|x: crate::models::dialog::ReasoningStrength| strength_name(x))
            =~= options@.take(k as int).map_values(|x: crate::models::dialog::ReasoningStrength| strength_name(x)).push(
            strength_name(options@[k as int]),
        ));
        k += 1;
    }
    assert(options@.take(options@.len() as int) =~= options@);
    push_str(&mut s, crate::text::join_strings(names.as_slice(), ", ").as_str());
    push_str(&mut s, "\nCustom: ");
    match &slot.custom_reasoning {
        Some(c) => push_str(&mut s, c.as_str()),
        None => push_str(&mut s, "press c to enter a custom effort"),
    }
    s
}

/// A shell-integration page's title, description and question.
pub open spec fn shell_page_texts(shortcut: bool, enabled: bool) -> (Seq<char>, Seq<char>, Seq<char>) {
    if shortcut {
        (
            "Shell shortcut"@,
            "Install a Ctrl-W widget in each selected shell startup file. Type a natural-language request, press Ctrl-W, review or edit the generated command, then press Enter. The command is never executed automatically."@,
            if enabled {
                "Select the shells where the Ctrl-W widget should be installed."@
            } else {
                "Install the Ctrl-W shell shortcut for watn?"@
            },
        )
    } else {
        (
            "Shell completion"@,
            "Install watn's generated Tab completion in each selected shell startup file. After reloading the file, type watn and press Tab to complete options and subcommands."@,
            if enabled {
                "Select the shells where watn completion should be installed."@
            } else {
                "Install shell completion for watn?"@
            },
        )
    }
}

pub fn shell_page_text(shortcut: bool, enabled: bool) -> (r: (&'static str, &'static str, &'static str))
    ensures
        (r.0@, r.1@, r.2@) == shell_page_texts(shortcut, enabled),
{
    if shortcut {
        (
            "Shell shortcut",
            "Install a Ctrl-W widget in each selected shell startup file. Type a natural-language request, press Ctrl-W, review or edit the generated command, then press Enter. The command is never executed automatically.",
            if enabled {
                "Select the shells where the Ctrl-W widget should be installed."
            } else {
                "Install the Ctrl-W shell shortcut for watn?"
            },
        )
    } else {
        (
            "Shell completion",
            "Install watn's generated Tab completion in each selected shell startup file. After reloading the file, type watn and press Tab to complete options and subcommands.",
            if enabled {
                "Select the shells where watn completion should be installed."
            } else {
                "Install shell completion for watn?"
            },
        )
    }
}

/// A shell's row: ticked when selected.
pub open spec fn shell_row_text(selected: bool, shell: Shell) -> Seq<char> {
    (if selected {
        "[x] "@
    } else {
        "[ ] "@
    }) + shell_name(shell)
}

pub fn shell_row(selected: bool, shell: Shell) -> (r: String)
    ensures
        r@ == shell_row_text(selected, shell),
{
    let mut s = String::from_str(
        if selected {
            "[x] "
        } else {
            "[ ] "
        },
    );
    push_str(&mut s, shell.name());
    s
}

} // verus!
