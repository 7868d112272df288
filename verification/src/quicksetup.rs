//! The plain-line quick setup: how answers, suggestions and shell toggles
//! are read. The questions themselves are asked by the program.
use vstd::prelude::*;

use crate::config::env::{env_value, env_view, lookup};
use crate::config::{providers_view, provider_entry, upsert, draft_entry, Config};
use crate::error::Error;
use crate::provider::setup::{key_env_for, openrouter_endpoint, suggested_api_key_env, ProviderDraft, OPENROUTER_ENDPOINT};
use crate::review::card::{split_words, words};
use crate::review::response::opt_view;
use crate::shell_shortcut::{failed_messages, InstallReport, Shell};
use crate::text::{push_str, str_eq, views_of};

verus! {

/// The model that the quick setup suggests for the small tier of OpenRouter.
pub const OPENROUTER_SUGGESTED_SMALL_MODEL: &'static str = "google/gemma-4-flash";

/// An empty answer takes the suggestion, if there is one.
pub fn resolve_answer(answer: String, suggestion: Option<&str>) -> (r: Option<String>)
    ensures
        if answer@.len() == 0 {
            opt_view(r) == match suggestion {
                Some(s) => Some(s@),
                None => None,
            }
        } else {
            r == Some(answer)
        },
{
    if answer.unicode_len() == 0 {
        return match suggestion {
            Some(s) => Some(s.to_string()),
            None => None,
        };
    }
    Some(answer)
}

/// The small model suggested for an endpoint: one for OpenRouter, none
/// elsewhere.
pub fn small_model_suggestion(endpoint: &str) -> (r: Option<&'static str>)
    ensures
        match r {
            Some(s) => endpoint@ == openrouter_endpoint() && s@ == OPENROUTER_SUGGESTED_SMALL_MODEL@,
            None => endpoint@ != openrouter_endpoint(),
        },
{
    if str_eq(endpoint, OPENROUTER_ENDPOINT) {
        Some(OPENROUTER_SUGGESTED_SMALL_MODEL)
    } else {
        None
    }
}

/// The credential suggested for an endpoint: a reference to its usual
/// variable, when that variable holds a value.
pub fn credential_suggestion(endpoint: &str, env: &[(String, String)]) -> (r: Option<String>)
    ensures
        match env_value(env_view(env@), key_env_for(endpoint@)) {
            Some(v) if v.len() > 0 => opt_view(r) == Some("${"@ + key_env_for(endpoint@) + "}"@),
            _ => r is None,
        },
{
    let name = suggested_api_key_env(endpoint);
    match lookup(env, name) {
        Some(v) => {
            if v.unicode_len() > 0 {
                let mut s = String::from_str("${");
                push_str(&mut s, name);
                push_str(&mut s, "}");
                Some(s)
            } else {
                None
            }
        },
        None => None,
    }
}

pub open spec fn marker(on: bool) -> Seq<char> {
    if on {
        "[x]"@
    } else {
        "[ ]"@
    }
}

/// The shell list: a heading, then each shell with its mark.
pub open spec fn shell_list(selected: [bool; 3]) -> Seq<Seq<char>> {
    seq![
        "Shell integrations (type shell names to toggle, Enter to confirm):"@,
        "  "@ + marker(selected[0]) + " Bash"@,
        "  "@ + marker(selected[1]) + " Zsh"@,
        "  "@ + marker(selected[2]) + " Fish"@,
    ]
}

fn shell_line(on: bool, name: &str) -> (r: String)
    ensures
        r@ == "  "@ + marker(on) + " "@ + name@,
{
    let mut line = String::from_str("  ");
    if on {
        push_str(&mut line, "[x]");
    } else {
        push_str(&mut line, "[ ]");
    }
    push_str(&mut line, " ");
    push_str(&mut line, name);
    line
}

/// The lines that show which shell integrations are chosen.
pub fn shell_list_lines(selected: &[bool; 3]) -> (r: Vec<String>)
    ensures
        views_of(r@) == shell_list(*selected),
{
    let mut r: Vec<String> = Vec::new();
    r.push(String::from_str("Shell integrations (type shell names to toggle, Enter to confirm):"));
    r.push(shell_line(selected[0], "Bash"));
    r.push(shell_line(selected[1], "Zsh"));
    r.push(shell_line(selected[2], "Fish"));
    assert(" Bash"@ =~= " "@ + "Bash"@) by {
        reveal_strlit(" Bash");
        reveal_strlit(" ");
        reveal_strlit("Bash");
    }
    assert(" Zsh"@ =~= " "@ + "Zsh"@) by {
        reveal_strlit(" Zsh");
        reveal_strlit(" ");
        reveal_strlit("Zsh");
    }
    assert(" Fish"@ =~= " "@ + "Fish"@) by {
        reveal_strlit(" Fish");
        reveal_strlit(" ");
        reveal_strlit("Fish");
    }
    assert(r@[1]@ =~= shell_list(*selected)[1]);
    assert(r@[2]@ =~= shell_list(*selected)[2]);
    assert(r@[3]@ =~= shell_list(*selected)[3]);
    assert(views_of(r@) =~= shell_list(*selected));
    r
}

pub open spec fn ascii_lower_char(c: char) -> char {
    if 'A' <= c <= 'Z' {
        ((c as u32) + 32) as char
    } else {
        c
    }
}

/// `str::to_ascii_lowercase`.
pub open spec fn ascii_lower(s: Seq<char>) -> Seq<char> {
    s.map_values(|c: char| ascii_lower_char(c))
}

pub fn to_ascii_lowercase(s: &str) -> (r: String)
    ensures
        r@ == ascii_lower(s@),
{
    let chars = crate::text::chars_of(s);
    let mut out = String::new();
    let mut k: usize = 0;
    while k < chars.len()
        invariant
            k <= chars@.len(),
            chars@ == s@,
            out@ == ascii_lower(s@).take(k as int),
        decreases chars@.len() - k,
    {
        let c = chars[k];
        let lower = if 'A' <= c && c <= 'Z' {
            let code: u8 = (c as u32 + 32) as u8;
            code as char
        } else {
            c
        };
        assert(lower == ascii_lower_char(c));
        crate::text::push_char(&mut out, lower);
        assert(ascii_lower(s@).take(k + 1) =~= ascii_lower(s@).take(k as int).push(lower));
        k += 1;
    }
    assert(ascii_lower(s@).take(s@.len() as int) =~= ascii_lower(s@));
    out
}

/// The place of the shell a typed name stands for, case aside.
pub open spec fn shell_slot(token: Seq<char>) -> Option<int> {
    let t = ascii_lower(token);
    if t == "bash"@ {
        Some(0)
    } else if t == "zsh"@ {
        Some(1)
    } else if t == "fish"@ {
        Some(2)
    } else {
        None
    }
}

/// The choice after toggling each named shell, in turn, and the tokens that
/// name no shell.
pub open spec fn toggled(selected: Seq<bool>, tokens: Seq<Seq<char>>) -> (Seq<bool>, Seq<Seq<char>>)
    decreases tokens.len(),
{
    if tokens.len() == 0 {
        (selected, seq![])
    } else {
        let (sel, unknown) = toggled(selected, tokens.drop_last());
        match shell_slot(tokens.last()) {
            Some(i) => (sel.update(i, !sel[i]), unknown),
            None => (sel, unknown.push(tokens.last())),
        }
    }
}

/// Toggle the shells named in an answer. The result is the new choice and
/// the words that name no shell, in order.
pub fn toggle_shells(selected: [bool; 3], answer: &str) -> (r: ([bool; 3], Vec<String>))
    ensures
        r.0@ == toggled(selected@, words(answer@)).0,
        views_of(r.1@) == toggled(selected@, words(answer@)).1,
{
    let tokens = split_words(answer);
    let mut sel = selected;
    let mut unknown: Vec<String> = Vec::new();
    let mut k: usize = 0;
    assert(words(answer@).take(0) =~= Seq::<Seq<char>>::empty());
    assert(views_of(unknown@) =~= Seq::<Seq<char>>::empty());
    while k < tokens.len()
        invariant
            k <= tokens@.len(),
            views_of(tokens@) == words(answer@),
            sel@ == toggled(selected@, words(answer@).take(k as int)).0,
            views_of(unknown@) == toggled(selected@, words(answer@).take(k as int)).1,
            sel@.len() == 3,
        decreases tokens@.len() - k,
    {
        let ghost prefix = words(answer@).take(k + 1);
        assert(prefix.drop_last() =~= words(answer@).take(k as int));
        assert(prefix.last() == tokens@[k as int]@);
        let lower = to_ascii_lowercase(tokens[k].as_str());
        let slot: Option<usize> = if str_eq(lower.as_str(), "bash") {
            Some(0)
        } else if str_eq(lower.as_str(), "zsh") {
            Some(1)
        } else if str_eq(lower.as_str(), "fish") {
            Some(2)
        } else {
            None
        };
        match slot {
            Some(i) => {
                let flipped = !sel[i];
                sel[i] = flipped;
            },
            None => {
                let ghost before = unknown@;
                unknown.push(tokens[k].clone());
                assert(views_of(unknown@) =~= views_of(before).push(tokens@[k as int]@));
            },
        }
        k += 1;
    }
    assert(words(answer@).take(tokens@.len() as int) =~= words(answer@));
    (sel, unknown)
}

/// Record the quick setup's answers: the provider draft becomes the default
/// provider, and the three models become the tiers.
pub fn record_quick_setup(config: &mut Config, draft: &ProviderDraft, small: &str, normal: &str, thinking: &str)
    ensures
        opt_view(final(config).defaults.provider) == Some(draft.name@),
        opt_view(final(config).defaults.model) == opt_view(old(config).defaults.model),
        providers_view(final(config).providers@) == upsert(
            providers_view(old(config).providers@),
            draft.name@,
            draft_entry(*draft, provider_entry(providers_view(old(config).providers@), draft.name@)),
        ),
        opt_view(final(config).tiers.small) == Some(small@),
        opt_view(final(config).tiers.normal) == Some(normal@),
        opt_view(final(config).tiers.thinking) == Some(thinking@),
        final(config).tiers.reasoning == old(config).tiers.reasoning,
        final(config).review == old(config).review,
        final(config).litellm == old(config).litellm,
        old(config).wf() ==> final(config).wf(),
{
    crate::config::update_provider_draft(config, draft);
    config.tiers.small = Some(small.to_string());
    config.tiers.normal = Some(normal.to_string());
    config.tiers.thinking = Some(thinking.to_string());
}

/// The failure that the quick setup reports after installing the shell
/// integrations: the completion's, else the shortcut's.
pub fn install_failure(completion: &InstallReport, shortcut: &InstallReport) -> (r: Option<Error>)
    ensures
        match r {
            Some(e) => {
                let report = if failed_messages(completion.results@).len() > 0 {
                    completion
                } else {
                    shortcut
                };
                &&& failed_messages(report.results@).len() > 0
                &&& e matches Error::ConfigError(m) && m@ == "shell shortcut installation failed: "@
                    + crate::text::join(failed_messages(report.results@), "; "@)
            },
            None => failed_messages(completion.results@).len() == 0 && failed_messages(shortcut.results@).len() == 0,
        },
{
    match completion.aggregate_error() {
        Some(e) => Some(e),
        None => shortcut.aggregate_error(),
    }
}

/// The suggestion for a question: the answer given for it on the command
/// line, else a shared one, else `fallback`.
pub fn suggestion(given: &Option<String>, shared: &Option<String>, fallback: Option<String>) -> (r: Option<String>)
    ensures
        opt_view(r) == match *given {
            Some(g) => Some(g@),
            None => match *shared {
                Some(c) => Some(c@),
                None => opt_view(fallback),
            },
        },
{
    match given {
        Some(g) => Some(g.clone()),
        None => match shared {
            Some(c) => Some(c.clone()),
            None => fallback,
        },
    }
}

} // verus!
