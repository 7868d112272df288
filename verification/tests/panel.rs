use watn::review::panel::{
    move_cursor, render_lines, sanitize_terminal_text, FocusRegion, InlineLayout, KeyInput,
    PanelAction, PanelInputMode, PanelKey, PanelOutcome, ReviewContext, ReviewOperation,
    ReviewPanelState,
};
use watn::review::response::ReviewCandidate;

fn key(code: KeyInput) -> PanelKey {
    PanelKey::new(code)
}

fn context() -> ReviewContext {
    ReviewContext {
        intent: "show disk usage".to_string(),
        tier: "1".to_string(),
        provider: "openrouter".to_string(),
        model: "model-a".to_string(),
    }
}

fn state() -> ReviewPanelState {
    ReviewPanelState::new(context(), ReviewCandidate::from_command("df -h"))
}

#[test]
fn starts_on_accept_and_cycles_exactly_three_focus_regions() {
    let mut state = state();
    assert_eq!(state.focus, FocusRegion::Actions);
    assert_eq!(state.selected_action(), PanelAction::Accept);
    state.handle_key(key(KeyInput::Tab));
    assert_eq!(state.focus, FocusRegion::Flow);
    state.handle_key(key(KeyInput::Tab));
    assert_eq!(state.focus, FocusRegion::Candidates);
    state.handle_key(key(KeyInput::Tab));
    assert_eq!(state.focus, FocusRegion::Actions);
    state.handle_key(PanelKey {
        code: KeyInput::Tab,
        shift: true,
        control: false,
        alt: false,
        press: true,
    });
    assert_eq!(state.focus, FocusRegion::Candidates);
}

#[test]
fn arrows_navigate_flow_and_editor_keys_are_local() {
    let mut state = state();
    state.handle_key(key(KeyInput::Tab));
    assert_eq!(state.focus, FocusRegion::Flow);
    state.handle_key(key(KeyInput::Down));
    assert_eq!(state.flow_stage, 0);

    let mut multi_stage = ReviewPanelState::new(
        state.context.clone(),
        ReviewCandidate::from_command("printf one; printf two"),
    );
    multi_stage.handle_key(key(KeyInput::Tab));
    multi_stage.handle_key(key(KeyInput::Down));
    assert_eq!(multi_stage.flow_stage, 1);

    state.focus = FocusRegion::Actions;
    state.action_cursor = 1;
    assert_eq!(state.handle_key(key(KeyInput::Enter)), PanelOutcome::Continue);
    assert_eq!(state.input_mode, PanelInputMode::CommandEditor);
    state.handle_key(key(KeyInput::Char('x')));
    assert!(state.editor_buffer().unwrap().ends_with('x'));
    assert_eq!(state.handle_key(key(KeyInput::Esc)), PanelOutcome::EditDiscarded);
    assert_eq!(state.input_mode, PanelInputMode::Review);
    assert_eq!(state.candidate().command, "df -h");
}

#[test]
fn enter_accepts_and_escape_cancels_without_alternate_screen_commands() {
    let mut accepted_state = state();
    assert!(matches!(
        accepted_state.handle_key(key(KeyInput::Enter)),
        PanelOutcome::Accepted(_)
    ));
    let mut cancelled_state = state();
    assert_eq!(
        cancelled_state.handle_key(key(KeyInput::Esc)),
        PanelOutcome::Cancelled
    );

    let layout = InlineLayout::for_dimensions(80, 24);
    let output = render_lines(&state(), layout).join("\r\n");
    assert!(!output.contains("1049"));
    assert!(output.contains("Flow"));
}

#[test]
fn narrow_layout_stays_bounded_and_marks_unsupported_stage_text() {
    let candidate = ReviewCandidate::from_command("printf one; cat < input");
    let mut state = ReviewPanelState::new(
        ReviewContext {
            intent: "inspect input".to_string(),
            tier: "1".to_string(),
            provider: "test".to_string(),
            model: "model".to_string(),
        },
        candidate,
    );
    state.flow_stage = 1;
    let layout = InlineLayout::for_dimensions(40, 8);
    let lines = render_lines(&state, layout);

    assert!(layout.is_bounded());
    assert!(lines.len() <= layout.max_rows as usize);
    assert!(lines.iter().any(|line| line.contains("unsupported")));
    assert!(lines.iter().any(|line| line.contains("cat < input")));
}

#[test]
fn terminal_text_sanitization_removes_escape_sequences() {
    let clean = sanitize_terminal_text("ok\u{1b}[31mdanger\u{1b}[0m");
    assert_eq!(clean, "okdanger");
    assert_eq!(sanitize_terminal_text("ok\u{1b}]0;danger\u{7}done"), "okdone");
    assert!(sanitize_terminal_text("line\u{7}bell").contains('?'));
}

#[test]
fn sanitization_keeps_line_breaks_and_drops_osc_with_string_terminator() {
    assert_eq!(sanitize_terminal_text("a\nb\tc"), "a\nb\tc");
    assert_eq!(sanitize_terminal_text("x\u{1b}]8;;url\u{1b}\\y"), "xy");
    assert_eq!(sanitize_terminal_text("\u{9b}"), "?");
}

#[test]
fn focus_moves_are_inverse() {
    for focus in [FocusRegion::Flow, FocusRegion::Candidates, FocusRegion::Actions] {
        assert_eq!(focus.next().previous(), focus);
        assert_eq!(focus.next().next().next(), focus);
    }
    assert_eq!(FocusRegion::Candidates.label(), "Candidates");
}

#[test]
fn cursor_moves_clamp_at_both_ends() {
    assert_eq!(move_cursor(0, -1, 3), 0);
    assert_eq!(move_cursor(2, 1, 3), 2);
    assert_eq!(move_cursor(1, 1, 3), 2);
    assert_eq!(move_cursor(5, 0, 0), 0);
    assert_eq!(move_cursor(7, -1, 3), 2);
}

#[test]
fn layout_clamps_rows_and_width() {
    let small = InlineLayout::for_dimensions(10, 2);
    assert_eq!(small.max_rows, 4);
    assert_eq!(small.content_width, 16);
    assert!(!small.is_bounded());
    let large = InlineLayout::for_dimensions(120, 60);
    assert_eq!(large.max_rows, 14);
    assert_eq!(large.content_width, 116);
    assert!(large.is_bounded());
}

#[test]
fn editor_commit_edits_the_selected_candidate() {
    let mut state = state();
    state.action_cursor = 1;
    state.handle_key(key(KeyInput::Enter));
    state.handle_key(key(KeyInput::Backspace));
    state.handle_key(key(KeyInput::Backspace));
    state.handle_key(key(KeyInput::Char('T')));
    let outcome = state.handle_key(key(KeyInput::Enter));
    assert_eq!(outcome, PanelOutcome::EditCommitted("df T".to_string()));
    assert_eq!(state.candidate().command, "df T");
    assert_eq!(state.candidates[0].command, "df T");
    assert_eq!(state.candidate().generation, 1);
}

#[test]
fn retained_candidates_can_be_compared_and_selected() {
    let mut state = state();
    state.retain_current();
    state.replace_current(ReviewCandidate::from_command("du -sh ."));
    assert_eq!(state.candidates.len(), 2);
    assert_eq!(state.candidate().command, "du -sh .");
    state.select_candidate(1);
    assert_eq!(state.candidate().command, "df -h");
    state.select_candidate(9);
    assert_eq!(state.selected_candidate, 1);
    let lines = render_lines(&state, InlineLayout::for_dimensions(120, 40));
    assert!(lines.iter().any(|line| line.starts_with("> 2. df -h")));
    assert!(lines.iter().any(|line| line.starts_with("  1. du -sh .")));
}

#[test]
fn operations_and_model_selection_are_independent_of_the_candidate() {
    let mut state = state();
    state.begin_operation(ReviewOperation::Regeneration);
    assert_eq!(state.pending_operation(), Some(ReviewOperation::Regeneration));
    assert_eq!(state.interrupt_operation(), Some(ReviewOperation::Regeneration));
    assert_eq!(state.pending_operation(), None);
    state.open_model_selection(vec!["m1".to_string(), "m2".to_string()]);
    assert_eq!(state.model_selection().unwrap().len(), 2);
    state.select_model("m2", ReviewCandidate::from_command("ls"));
    assert_eq!(state.context.model, "m2");
    assert!(state.model_selection().is_none());
    state.complete_model_selection();
    assert_eq!(state.context.model, "model-a");
    assert_eq!(state.configured_model(), "model-a");
}

#[test]
fn rephrasing_keeps_the_prior_intent_in_history() {
    let mut state = state();
    state.rephrase_intent("show free space");
    assert_eq!(state.intent_history(), &["show disk usage".to_string()]);
    assert_eq!(state.context.intent, "show free space");
}

#[test]
fn released_keys_change_nothing() {
    let mut state = state();
    let outcome = state.handle_key(PanelKey {
        code: KeyInput::Esc,
        shift: false,
        control: false,
        alt: false,
        press: false,
    });
    assert_eq!(outcome, PanelOutcome::Continue);
    assert_eq!(state.focus, FocusRegion::Actions);
}

#[test]
fn escalation_keeps_the_current_intent() {
    let mut state = state();
    state.escalate(
        ReviewContext {
            intent: "another intent".to_string(),
            tier: "2".to_string(),
            provider: "openai".to_string(),
            model: "model-b".to_string(),
        },
        ReviewCandidate::from_command("du -sh ."),
    );
    assert_eq!(state.context.intent, "show disk usage");
    assert_eq!(state.context.tier, "2");
    assert_eq!(state.context.provider, "openai");
    assert_eq!(state.context.model, "model-b");
    assert_eq!(state.candidate().command, "du -sh .");
    assert_eq!(state.flow_stage, 0);
}

#[test]
fn completing_a_model_selection_twice_changes_nothing_more() {
    let mut state = state();
    state.select_model("m2", ReviewCandidate::from_command("ls"));
    state.details = true;
    state.complete_model_selection();
    assert_eq!(state.context.model, "model-a");
    assert_eq!(state.candidate().command, "ls");
    assert!(state.details);
    state.context.model = "manual".to_string();
    state.complete_model_selection();
    assert_eq!(state.context.model, "manual");
    assert_eq!(state.candidate().command, "ls");
}

#[test]
fn sanitizing_clean_text_or_sanitized_text_changes_nothing() {
    let clean = "plain text\twith\nbreaks";
    assert_eq!(sanitize_terminal_text(clean), clean);
    for raw in ["ok\u{1b}[31mdanger\u{1b}[0m", "a\u{7}b\u{1b}]0;t\u{7}c", "\u{9b}x\u{1b}"] {
        let once = sanitize_terminal_text(raw);
        assert_eq!(sanitize_terminal_text(&once), once);
    }
}
