//! The request that a question becomes: the model tier the flags select,
//! the system prompts, and where the command to explain comes from.
use vstd::prelude::*;

use crate::text::push_str;

verus! {

/// The tier that the flags select: the small tier when it is asked for or
/// when a question comes with no other tier; else the normal or thinking
/// tier when asked for; else none.
pub open spec fn selected_tier(small: bool, normal: bool, thinking: bool, has_question: bool) -> Option<Seq<char>> {
    if small || (has_question && !normal && !thinking) {
        Some("1"@)
    } else if normal {
        Some("2"@)
    } else if thinking {
        Some("3"@)
    } else {
        None
    }
}

pub fn tier_for(small: bool, normal: bool, thinking: bool, has_question: bool) -> (r: Option<&'static str>)
    ensures
        match r {
            Some(t) => selected_tier(small, normal, thinking, has_question) == Some(t@),
            None => selected_tier(small, normal, thinking, has_question) is None,
        },
{
    if small || (has_question && !normal && !thinking) {
        Some("1")
    } else if normal {
        Some("2")
    } else if thinking {
        Some("3")
    } else {
        None
    }
}

/// `head`, then the platform line `Operating System: OS (ARCH). Shell: SHELL`,
/// then `tail`.
pub open spec fn with_platform(head: Seq<char>, os: Seq<char>, arch: Seq<char>, shell: Seq<char>, tail: Seq<char>) -> Seq<char> {
    head + "Operating System: "@ + os + " ("@ + arch + "). Shell: "@ + shell + tail
}

fn platform_text(head: &str, os: &str, arch: &str, shell: &str, tail: &str) -> (r: String)
    ensures
        r@ == with_platform(head@, os@, arch@, shell@, tail@),
{
    let mut r = String::from_str(head);
    push_str(&mut r, "Operating System: ");
    push_str(&mut r, os);
    push_str(&mut r, " (");
    push_str(&mut r, arch);
    push_str(&mut r, "). Shell: ");
    push_str(&mut r, shell);
    push_str(&mut r, tail);
    r
}

/// The system prompt of a plain request: output only the command or answer.
pub fn direct_system_prompt(os: &str, arch: &str, shell: &str) -> (r: String)
    ensures
        r@ == with_platform(
            "You are a direct answer engine. Output ONLY the requested information.\n"@,
            os@,
            arch@,
            shell@,
            ".\n\nFor commands: Output executable syntax only. No explanations, no comments.\nFor questions: Output the answer only. No context, no elaboration.\n\nRules:\n- If asked for a command, provide ONLY the command\n- If asked a question, provide ONLY the answer\n- Never include markdown formatting or code blocks\n- Never add explanatory text before or after\n- Assume output will be piped or executed directly\n- For multi-step commands, use && or ; to chain them\n- Make commands robust and handle edge cases silently"@,
        ),
{
    platform_text(
        "You are a direct answer engine. Output ONLY the requested information.\n",
        os,
        arch,
        shell,
        ".\n\nFor commands: Output executable syntax only. No explanations, no comments.\nFor questions: Output the answer only. No context, no elaboration.\n\nRules:\n- If asked for a command, provide ONLY the command\n- If asked a question, provide ONLY the answer\n- Never include markdown formatting or code blocks\n- Never add explanatory text before or after\n- Assume output will be piped or executed directly\n- For multi-step commands, use && or ; to chain them\n- Make commands robust and handle edge cases silently",
    )
}

/// The system prompt of a reviewed request: one JSON object with the
/// command and the purpose of each stage.
pub fn review_system_prompt(os: &str, arch: &str, shell: &str) -> (r: String)
    ensures
        r@ == with_platform(
            "You are a command review engine. Respond with exactly one JSON object and nothing else.\nSchema: {\"review_version\":1,\"command\":\"...\",\"stages\":[{\"stage_text\":\"...\",\"purpose\":\"...\"}],\"purpose_status\":\"ready\"}\nRules:\n- command is the complete executable command for the request.\n- Split the command into stages at top-level pipes, && and ; boundaries. stage_text must be the exact text of each stage.\n- purpose is plain text explaining the stage; never evaluate or execute anything.\n- purpose_status must be exactly one of ready, loading, or purpose-unavailable.\n- Never put a line break or tab inside command; write it as a single line.\n- Do not wrap the response in a markdown code fence and do not add prose before or after the object.\n"@,
            os@,
            arch@,
            shell@,
            "."@,
        ),
{
    platform_text(
        "You are a command review engine. Respond with exactly one JSON object and nothing else.\nSchema: {\"review_version\":1,\"command\":\"...\",\"stages\":[{\"stage_text\":\"...\",\"purpose\":\"...\"}],\"purpose_status\":\"ready\"}\nRules:\n- command is the complete executable command for the request.\n- Split the command into stages at top-level pipes, && and ; boundaries. stage_text must be the exact text of each stage.\n- purpose is plain text explaining the stage; never evaluate or execute anything.\n- purpose_status must be exactly one of ready, loading, or purpose-unavailable.\n- Never put a line break or tab inside command; write it as a single line.\n- Do not wrap the response in a markdown code fence and do not add prose before or after the object.\n",
        os,
        arch,
        shell,
        ".",
    )
}

/// The system prompt of an explanation: repeat the given command exactly
/// and explain each stage.
pub fn explain_system_prompt(os: &str, arch: &str, shell: &str) -> (r: String)
    ensures
        r@ == with_platform(
            "You are a command explanation engine. The user provides one existing shell command. Explain it without changing it and without executing it.\nRespond with exactly one JSON object and nothing else.\nSchema: {\"review_version\":1,\"command\":\"...\",\"stages\":[{\"stage_text\":\"...\",\"purpose\":\"...\"}],\"purpose_status\":\"ready\"}\nRules:\n- command must repeat the user's command exactly, character for character. If the command contains line breaks, encode them as \\n inside the JSON string.\n- Split the command into stages at top-level pipes, ||, &&, ; and newline boundaries. stage_text must be the exact text of each stage as it appears in the command.\n- purpose is plain text explaining why the stage is present and what it contributes; never evaluate or execute anything.\n- purpose_status must be exactly ready and every stage must have a non-empty purpose.\n- Do not wrap the response in a markdown code fence and do not add prose before or after the object.\n"@,
            os@,
            arch@,
            shell@,
            "."@,
        ),
{
    platform_text(
        "You are a command explanation engine. The user provides one existing shell command. Explain it without changing it and without executing it.\nRespond with exactly one JSON object and nothing else.\nSchema: {\"review_version\":1,\"command\":\"...\",\"stages\":[{\"stage_text\":\"...\",\"purpose\":\"...\"}],\"purpose_status\":\"ready\"}\nRules:\n- command must repeat the user's command exactly, character for character. If the command contains line breaks, encode them as \\n inside the JSON string.\n- Split the command into stages at top-level pipes, ||, &&, ; and newline boundaries. stage_text must be the exact text of each stage as it appears in the command.\n- purpose is plain text explaining why the stage is present and what it contributes; never evaluate or execute anything.\n- purpose_status must be exactly ready and every stage must have a non-empty purpose.\n- Do not wrap the response in a markdown code fence and do not add prose before or after the object.\n",
        os,
        arch,
        shell,
        ".",
    )
}

/// Where the command to explain comes from.
#[derive(Debug, PartialEq, Eq)]
pub enum ExplainSource {
    /// The command given as the argument.
    Given(String),
    /// Standard input holds the command.
    Stdin,
    /// No command can be had: the usage is printed.
    Usage,
}

/// Where the command to explain comes from: a non-empty argument other
/// than `-` is the command; `-`, or no argument with standard input not a
/// terminal, reads standard input; else only the usage is shown.
pub fn explain_source(command: Option<String>, stdin_is_terminal: bool) -> (r: ExplainSource)
    ensures
        match command {
            Some(c) => if c@ == "-"@ {
                r == ExplainSource::Stdin
            } else if c@.len() == 0 {
                r == ExplainSource::Usage
            } else {
                r == ExplainSource::Given(c)
            },
            None => if stdin_is_terminal {
                r == ExplainSource::Usage
            } else {
                r == ExplainSource::Stdin
            },
        },
{
    match command {
        Some(c) => {
            if crate::text::str_eq(c.as_str(), "-") {
                ExplainSource::Stdin
            } else if c.unicode_len() == 0 {
                ExplainSource::Usage
            } else {
                ExplainSource::Given(c)
            }
        },
        None => if stdin_is_terminal {
            ExplainSource::Usage
        } else {
            ExplainSource::Stdin
        },
    }
}

/// Text read from standard input without one final line ending (`\r\n` or
/// `\n`).
pub open spec fn without_line_ending(s: Seq<char>) -> Seq<char> {
    if s.len() >= 2 && s[s.len() - 2] == '\r' && s[s.len() - 1] == '\n' {
        s.subrange(0, s.len() - 2)
    } else if s.len() >= 1 && s[s.len() - 1] == '\n' {
        s.drop_last()
    } else {
        s
    }
}

/// The command read from standard input: the text without one final line
/// ending, never otherwise trimmed; empty text is refused with the usage.
pub fn stdin_command(text: &str) -> (r: Result<String, String>)
    ensures
        match r {
            Ok(c) => c@ == without_line_ending(text@) && c@.len() > 0,
            Err(m) => without_line_ending(text@).len() == 0 && m@ == "Usage: watn explain <command>"@,
        },
{
    let chars = crate::text::chars_of(text);
    let n = chars.len();
    let end = if n >= 2 && chars[n - 2] == '\r' && chars[n - 1] == '\n' {
        n - 2
    } else if n >= 1 && chars[n - 1] == '\n' {
        n - 1
    } else {
        n
    };
    if end == 0 {
        return Err(String::from_str("Usage: watn explain <command>"));
    }
    let command = crate::text::string_from(chars.as_slice(), 0, end);
    assert(chars@.subrange(0, n - 1) =~= chars@.drop_last());
    assert(chars@.subrange(0, n as int) =~= chars@);
    Ok(command)
}

/// Where the question comes from.
#[derive(Debug, PartialEq, Eq)]
pub enum QuestionSource {
    /// The words given as arguments, joined by spaces.
    Given(String),
    /// Standard input is read for the question; when it holds nothing the
    /// review switch that was given is only persisted (`true`), or the usage
    /// is shown (`false`).
    Stdin(bool),
    /// Only the review switch was given, on a terminal: it is persisted.
    SwitchOnly,
    /// No question can be had: the usage is shown.
    Usage,
}

/// Where the question comes from: the arguments when there are any; with a
/// review switch alone, standard input when it is not a terminal, else only
/// the switch; without one, standard input when it is not a terminal, else
/// the usage.
pub fn question_source(words: &Vec<String>, switch_given: bool, stdin_is_terminal: bool) -> (r: QuestionSource)
    ensures
        if words@.len() > 0 {
            r matches QuestionSource::Given(q) && q@ == crate::text::join(crate::text::views_of(words@), " "@)
        } else if stdin_is_terminal {
            r == if switch_given {
                QuestionSource::SwitchOnly
            } else {
                QuestionSource::Usage
            }
        } else {
            r == QuestionSource::Stdin(switch_given)
        },
{
    if words.len() > 0 {
        return QuestionSource::Given(crate::text::join_strings(words.as_slice(), " "));
    }
    if stdin_is_terminal {
        if switch_given {
            QuestionSource::SwitchOnly
        } else {
            QuestionSource::Usage
        }
    } else {
        QuestionSource::Stdin(switch_given)
    }
}

/// The question read from standard input: the text trimmed; nothing when
/// that leaves it empty.
pub fn stdin_question(text: &str) -> (r: Option<String>)
    ensures
        match r {
            Some(q) => q@ == crate::text::trim(text@) && q@.len() > 0,
            None => crate::text::trim(text@).len() == 0,
        },
{
    let q = crate::text::trim_string(text);
    if q.unicode_len() == 0 {
        None
    } else {
        Some(q)
    }
}

} // verus!
