use watn::review::flow::{command_stage, derive_command_flow, StageSupport};

#[test]
fn preserves_complex_flow_stage_text_and_splits_xargs_command() {
    let command = "git log --format='%H' --since='7 days ago' | xargs -n1 git show --stat --oneline && printf 'done'";
    let flow = derive_command_flow(command);

    assert_eq!(
        flow.stage_texts(),
        vec![
            "git log --format='%H' --since='7 days ago'",
            "xargs -n1",
            "git show --stat --oneline",
            "printf 'done'",
        ]
    );
    assert!(flow.stages.iter().all(|stage| stage.is_supported()));
}

#[test]
fn marks_unsupported_shell_syntax_without_rewriting_the_stage() {
    let command = "for file in *.log; do cat < \"$file\"; done";
    let flow = derive_command_flow(command);

    assert_eq!(flow.stages.len(), 3);
    assert_eq!(flow.stages[0].stage_text, "for file in *.log");
    assert_eq!(flow.stages[1].stage_text, "do cat < \"$file\"");
    assert_eq!(flow.stages[2].stage_text, "done");
    assert_eq!(flow.stages[1].support, StageSupport::Unsupported);
    assert!(flow.stages[1]
        .unsupported_spans
        .iter()
        .any(|span| span.text == "<"));
    assert!(flow.has_unsupported());
}

#[test]
fn quotes_escapes_xargs_options_and_empty_segments_are_handled() {
    let quoted = derive_command_flow("printf 'a|b' && echo 'x&&y'");
    assert_eq!(quoted.stage_texts(), vec!["printf 'a|b'", "echo 'x&&y'"]);

    let escaped = derive_command_flow(r"echo a\ b | cat");
    assert_eq!(escaped.stage_texts(), vec![r"echo a\ b", "cat"]);

    let xargs = derive_command_flow("xargs -0 -- rm -f");
    assert_eq!(xargs.stage_texts(), vec!["xargs -0 --", "rm -f"]);

    let xargs_without_command = derive_command_flow("xargs -0");
    assert_eq!(xargs_without_command.stage_texts(), vec!["xargs -0"]);

    let trailing = derive_command_flow("ls ; ");
    assert_eq!(trailing.stages.len(), 1);
    assert_eq!(trailing.stages[0].stage_text, "ls");

    let single_ampersand = derive_command_flow("sleep 1 & echo done");
    assert!(single_ampersand.has_unsupported());

    let simple = derive_command_flow("true");
    assert!(simple.stages[0].is_supported());
    assert_eq!(simple.stage_texts(), vec!["true"]);
    assert!(!simple.has_unsupported());
}

#[test]
fn xargs_without_command_escaped_tokens_and_subshells_are_covered() {
    let options_only = derive_command_flow("xargs -0 --");
    assert_eq!(options_only.stage_texts(), vec!["xargs -0 --"]);

    let escaped_start = derive_command_flow(r"\ echo | cat");
    assert_eq!(escaped_start.stage_texts(), vec![r"\ echo", "cat"]);

    let subshell = derive_command_flow("echo $(date)");
    assert!(subshell.has_unsupported());
    assert!(subshell.stages[0]
        .unsupported_spans
        .iter()
        .any(|span| span.text == "$("));
}

#[test]
fn separators_and_byte_ranges_of_unsupported_spans() {
    let flow = derive_command_flow("é < x | wc -l");
    assert_eq!(flow.stage_texts(), vec!["é < x", "wc -l"]);
    assert_eq!(flow.stages[0].separator.as_deref(), Some("|"));
    assert_eq!(flow.stages[1].separator, None);
    let span = &flow.stages[0].unsupported_spans[0];
    assert_eq!(span.text, "<");
    assert_eq!(span.range, 3..4);

    let keywords = derive_command_flow("if true then echo fi");
    let texts: Vec<&str> = keywords.stages[0]
        .unsupported_spans
        .iter()
        .map(|span| span.text.as_str())
        .collect();
    assert_eq!(texts, vec!["if", "then", "fi"]);
}

#[test]
fn command_stage_takes_a_byte_range() {
    let stage = command_stage("ls -l && cat <x", 9, 15);
    assert_eq!(stage.stage_text, "cat <x");
    assert_eq!(stage.separator, None);
    assert_eq!(stage.support, StageSupport::Unsupported);
    let first = command_stage("ls -l && cat <x", 0, 5);
    assert_eq!(first.separator.as_deref(), Some("&&"));
    assert!(first.is_supported());
}

#[test]
fn stages_are_trimmed_ordered_pieces_of_the_command() {
    let command = "  ls -l |  grep x &&echo y ;  ";
    let flow = derive_command_flow(command);
    let texts = flow.stage_texts();
    assert_eq!(texts, vec!["ls -l", "grep x", "echo y"]);
    let mut from = 0;
    for text in &texts {
        assert!(!text.is_empty());
        assert_eq!(text.trim(), *text);
        let at = command[from..].find(text.as_str()).unwrap() + from;
        assert!(command[from..at]
            .chars()
            .all(|c| c.is_whitespace() || "|&;\n".contains(c)));
        from = at + text.len();
    }
    assert!(command[from..]
        .chars()
        .all(|c| c.is_whitespace() || "|&;\n".contains(c)));
}
