//! The `Execute now?` confirmation: how an answer becomes a decision.
use vstd::prelude::*;

use crate::text::{trim, trim_string};

verus! {

#[derive(Debug, Clone, Copy, PartialEq, Eq)]
pub enum PromptResult {
    Execute,
    Explain,
    Cancelled,
    Interrupted,
}

/// What `str::to_lowercase` makes of `s`.
pub uninterp spec fn lowercase(s: Seq<char>) -> Seq<char>;

/// `str::to_lowercase`: the lowercase mapping of every character, as std
/// documents it. The contract names the result and claims nothing more.
#[verifier::external_body]
pub(crate) fn to_lowercase(s: &str) -> (r: String)
    ensures
        r@ == lowercase(s@),
{
    s.to_lowercase()
}

/// Whether `s` holds the end-of-text character that Ctrl-C types.
pub open spec fn has_ctrl_c(s: Seq<char>) -> bool {
    exists|k: int| 0 <= k < s.len() && s[k] == '\u{3}'
}

/// The decision for an answer that is already trimmed and lowercased.
pub open spec fn decision(answer: Seq<char>, allow_explain: bool) -> PromptResult {
    if answer.len() == 0 || answer == "y"@ || answer == "yes"@ {
        PromptResult::Execute
    } else if allow_explain && answer == "?"@ {
        PromptResult::Explain
    } else {
        PromptResult::Cancelled
    }
}

/// The decision for a raw answer.
pub open spec fn confirmation(input: Seq<char>, allow_explain: bool) -> PromptResult {
    if has_ctrl_c(input) {
        PromptResult::Interrupted
    } else {
        decision(lowercase(trim(input)), allow_explain)
    }
}

/// Decide on an answer that is already trimmed and lowercased: empty, `y`
/// and `yes` execute; `?` explains where that is offered; anything else
/// cancels.
pub fn decide_answer(answer: &str, allow_explain: bool) -> (r: PromptResult)
    ensures
        r == decision(answer@, allow_explain),
{
    let chars = crate::text::chars_of(answer);
    if chars.len() == 0 || crate::text::str_eq(answer, "y") || crate::text::str_eq(answer, "yes") {
        PromptResult::Execute
    } else if allow_explain && crate::text::str_eq(answer, "?") {
        PromptResult::Explain
    } else {
        PromptResult::Cancelled
    }
}

fn contains_ctrl_c(input: &str) -> (b: bool)
    ensures
        b == has_ctrl_c(input@),
{
    let chars = crate::text::chars_of(input);
    let mut k: usize = 0;
    while k < chars.len()
        invariant
            k <= chars@.len(),
            chars@ == input@,
            forall|j: int| 0 <= j < k ==> chars@[j] != '\u{3}',
        decreases chars@.len() - k,
    {
        if chars[k] == '\u{3}' {
            return true;
        }
        k += 1;
    }
    false
}

/// Pure confirmation classification: the answer string plus whether the
/// explanation option is offered becomes the prompt outcome.
pub fn classify_confirmation(input: &str, allow_explain: bool) -> (r: PromptResult)
    ensures
        r == confirmation(input@, allow_explain),
{
    if contains_ctrl_c(input) {
        return PromptResult::Interrupted;
    }
    let trimmed = trim_string(input);
    let lowered = to_lowercase(trimmed.as_str());
    decide_answer(lowered.as_str(), allow_explain)
}

/// Ctrl-C interrupts whatever else the answer says, and `?` explains only
/// where the explanation is offered.
pub proof fn interrupt_wins_and_explain_needs_permission(input: Seq<char>, allow_explain: bool)
    ensures
        has_ctrl_c(input) ==> confirmation(input, allow_explain) == PromptResult::Interrupted,
        !allow_explain ==> confirmation(input, allow_explain) != PromptResult::Explain,
{
}


/// A key pressed while the confirmation is typed in raw mode.
#[derive(Debug, Clone, Copy, PartialEq, Eq)]
pub enum ConfirmKey {
    CtrlC,
    Esc,
    Enter,
    Backspace,
    /// A character typed without Ctrl or Alt.
    Char(char),
    /// Any other key.
    Other,
}

/// What a key does to the typed answer: nothing yet, echo a character,
/// erase the last one, or end the prompt (after a line break) with a
/// decision.
#[derive(Debug, Clone, Copy, PartialEq, Eq)]
pub enum ConfirmStep {
    Pending,
    Echo(char),
    Erase,
    Done(PromptResult),
}

/// Read one key of the raw-mode confirmation into the answer typed so far.
pub fn confirmation_key(input: &mut String, key: ConfirmKey, allow_explain: bool) -> (r: ConfirmStep)
    ensures
        match key {
            ConfirmKey::CtrlC => r == ConfirmStep::Done(PromptResult::Interrupted) && final(input)@ == old(input)@,
            ConfirmKey::Esc => r == ConfirmStep::Done(PromptResult::Cancelled) && final(input)@ == old(input)@,
            ConfirmKey::Enter => r == ConfirmStep::Done(confirmation(old(input)@, allow_explain)) && final(input)@ == old(input)@,
            ConfirmKey::Backspace => if old(input)@.len() > 0 {
                r == ConfirmStep::Erase && final(input)@ == old(input)@.drop_last()
            } else {
                r == ConfirmStep::Pending && final(input)@ == old(input)@
            },
            ConfirmKey::Char(c) => r == ConfirmStep::Echo(c) && final(input)@ == old(input)@.push(c),
            ConfirmKey::Other => r == ConfirmStep::Pending && final(input)@ == old(input)@,
        },
{
    match key {
        ConfirmKey::CtrlC => ConfirmStep::Done(PromptResult::Interrupted),
        ConfirmKey::Esc => ConfirmStep::Done(PromptResult::Cancelled),
        ConfirmKey::Enter => ConfirmStep::Done(classify_confirmation(input.as_str(), allow_explain)),
        ConfirmKey::Backspace => {
            let chars = crate::text::chars_of(input.as_str());
            let n = chars.len();
            if n == 0 {
                ConfirmStep::Pending
            } else {
                *input = crate::text::string_from(chars.as_slice(), 0, n - 1);
                assert(chars@.subrange(0, n - 1) =~= chars@.drop_last());
                ConfirmStep::Erase
            }
        },
        ConfirmKey::Char(c) => {
            crate::text::push_char(input, c);
            ConfirmStep::Echo(c)
        },
        ConfirmKey::Other => ConfirmStep::Pending,
    }
}

} // verus!
