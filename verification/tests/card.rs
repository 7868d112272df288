use watn::review::card::{
    disable_hint, ellipsize, model_short_name, render_card_lines, terminal_supports_color,
    visible_len, wrap_stage, pad_to,
};
use watn::review::panel::{InlineLayout, ReviewContext, ReviewPanelState};
use watn::review::response::ReviewCandidate;

fn state() -> ReviewPanelState {
    ReviewPanelState::new(
        ReviewContext {
            intent: "inspect recent commits".to_string(),
            tier: "1".to_string(),
            provider: "loopback".to_string(),
            model: "review-model".to_string(),
        },
        ReviewCandidate::from_command("git log --oneline | head -5"),
    )
}

#[test]
fn color_capability_is_decided_without_environment_side_effects() {
    assert!(terminal_supports_color(false, "xterm-256color", false));
    assert!(terminal_supports_color(false, "xterm", true));
    assert!(!terminal_supports_color(true, "xterm-256color", true));
    assert!(!terminal_supports_color(false, "dumb", true));
    assert!(!terminal_supports_color(false, "vt100", false));
}

#[test]
fn model_short_name_strips_provider_and_variant() {
    assert_eq!(model_short_name("gpt-4o"), "gpt-4o");
    assert_eq!(
        model_short_name("~acme/haiku-latest:nitro"),
        "haiku-latest"
    );
    assert_eq!(
        model_short_name("~deepseek/deepseek-v4-flash-latest"),
        "deepseek-v4-flash-latest"
    );
    assert_eq!(model_short_name(""), "");
}

#[test]
fn simple_card_names_the_model_and_stacks_stages() {
    let lines = render_card_lines(&state(), InlineLayout::for_dimensions(100, 40), true);
    let joined = lines.join("\n");

    assert!(joined.contains("◆ review-model"));
    assert!(!joined.contains("Intent"));
    assert!(!joined.contains("tier"));
    assert!(joined.contains("oneline"), "the first stage is stacked");
    assert!(joined.contains("head"), "the second stage is stacked");
    assert!(joined.contains("-5"));
    assert!(
        joined.contains("\u{1b}[38;5;214m|\u{1b}[0m"),
        "the separator is amber on the stage row"
    );
    assert!(joined.contains('▶'), "the selected stage is marked");
    assert!(joined.contains('↳'), "the purpose is marked");
    assert!(joined.contains("\u{1b}[38;5;252m"), "the purpose is bright");
}

#[test]
fn card_frames_content_and_colors_roles_in_the_detailed_view() {
    let mut state = state();
    state.details = true;
    let lines = render_card_lines(&state, InlineLayout::for_dimensions(100, 40), true);
    let joined = lines.join("\n");

    assert!(joined.contains('┌') && joined.contains('┘'));
    assert!(joined.contains("watn"));
    assert!(joined.contains("Intent"));
    assert!(joined.contains("Command"));
    assert!(joined.contains("ccept"));
    for absent in ["Flow", "Stage", "supported", "unsupported"] {
        assert!(
            !joined.contains(absent),
            "the detailed view must not show {absent:?}, got:\n{joined}"
        );
    }
    assert!(joined.contains("\u{1b}[1;38;5;81mesc\u{1b}[0m"));
    assert!(joined.contains("\u{1b}[1;38;5;81me\u{1b}[0m\u{1b}[2mdit\u{1b}[0m"));
    assert!(joined.contains("\u{1b}[38;5;81m"), "labels are colored");
    assert!(joined.contains("\u{1b}[38;5;221m"), "flags are colored");
    assert!(joined.contains("\u{1b}[38;5;240m"), "separators are colored");
    assert!(joined.contains("◆ tier 1 · loopback/review-model"));
}

#[test]
fn wrapping_helpers_stay_bounded() {
    assert_eq!(ellipsize("abc", 0), "");
    assert_eq!(ellipsize("abcdef", 3).chars().count(), 3);
    assert_eq!(wrap_stage("alpha beta", 20), vec!["alpha beta".to_string()]);
    assert_eq!(
        wrap_stage("alpha beta gamma", 11),
        vec!["alpha beta".to_string(), "gamma".to_string()]
    );
    assert_eq!(
        wrap_stage("abcdef", 2),
        vec!["ab".to_string(), "cd".to_string(), "ef".to_string()]
    );
    assert_eq!(wrap_stage("", 4), vec![String::new()]);
}

#[test]
fn a_long_stage_wraps_and_keeps_its_separator() {
    let candidate = ReviewCandidate::from_command(
        "git cat-file --batch-check='%(objecttype) %(objectname) %(objectsize) %(rest)' | head -5",
    );
    let state = ReviewPanelState::new(
        ReviewContext {
            intent: "inspect recent commits".to_string(),
            tier: "1".to_string(),
            provider: "loopback".to_string(),
            model: "review-model".to_string(),
        },
        candidate,
    );
    let lines = render_card_lines(&state, InlineLayout::for_dimensions(60, 24), true);
    let joined = lines.join("\n");
    assert!(joined.contains("%(objecttype)"), "the stage text wraps");
    assert!(joined.contains("%(rest)"));
    assert!(joined.contains("\u{1b}[38;5;214m|\u{1b}[0m"));
}

#[test]
fn card_stays_bounded_without_unsupported_markers() {
    let mut unsupported = state();
    unsupported.candidate = ReviewCandidate::from_command("printf one; cat < input");
    unsupported.flow_stage = 1;
    let layout = InlineLayout::for_dimensions(40, 8);
    let lines = render_card_lines(&unsupported, layout, true);

    assert!(lines.len() <= 7, "card rows: {}", lines.len());
    assert!(!lines.iter().any(|line| line.contains("\u{1b}[38;5;214m…")));
    assert!(!lines.iter().any(|line| line.contains('\n')));
}

#[test]
fn a_narrow_stack_windows_around_the_selected_stage() {
    let mut state = state();
    state.candidate = ReviewCandidate::from_command("a | b | c | d | e | f | g | h");
    state.flow_stage = 0;
    let lines = render_card_lines(&state, InlineLayout::for_dimensions(40, 8), true);
    let joined = lines.join("\n");
    assert!(joined.contains('⋮'), "hidden stages are marked: {joined}");
    assert!(joined.contains("  ▶ a") || joined.contains("▶"));
    assert!(lines.len() <= 7);
}

#[test]
fn unsupported_stages_render_without_a_marker() {
    let mut unsupported = state();
    unsupported.candidate =
        ReviewCandidate::from_command("while read commit; do git ls-tree -r $commit; done");
    unsupported.flow_stage = 0;
    let lines = render_card_lines(&unsupported, InlineLayout::for_dimensions(40, 24), true);
    assert!(
        !lines.iter().any(|line| line.contains("\u{1b}[38;5;214m…")),
        "undecomposed stages must not be marked, got:\n{}",
        lines.join("\n")
    );
}

#[test]
fn plain_card_has_no_escape_sequences() {
    let layout = InlineLayout::for_dimensions(100, 40);
    let lines = render_card_lines(&state(), layout, false);
    assert!(lines.iter().all(|line| !line.contains('\u{1b}')));

    let mut unsupported = state();
    unsupported.candidate = ReviewCandidate::from_command("printf one; cat < input");
    unsupported.flow_stage = 1;
    let lines = render_card_lines(&unsupported, layout, false);
    assert!(lines.iter().all(|line| !line.contains('\u{1b}')));
    assert!(!lines.iter().any(|line| line.contains('…')));
}

#[test]
fn visible_width_uses_terminal_columns_for_wide_characters() {
    assert_eq!(visible_len("abc"), 3);
    assert_eq!(visible_len("漢"), 2);
    assert_eq!(visible_len("a漢b"), 4);
    assert_eq!(visible_len("\u{1b}[97m漢\u{1b}[0m"), 2);
    assert_eq!(pad_to("漢", 4), "漢  ");
}

#[test]
fn disable_hint_names_the_disabled_surface_with_and_without_color() {
    assert_eq!(
        disable_hint(false),
        "⚠ review panel disabled — re-enable with: watn --review-panel"
    );
    assert_eq!(
        disable_hint(true),
        "\u{1b}[1;38;5;214m⚠ review panel disabled\u{1b}[0m — re-enable with: \u{1b}[1;97mwatn --review-panel\u{1b}[0m"
    );
}

#[test]
fn every_card_row_fits_the_terminal_height() {
    for height in [0u16, 3, 6, 8, 12, 30, 60] {
        let lines = render_card_lines(&state(), InlineLayout::for_dimensions(30, height), false);
        let rows = (height.saturating_sub(1)).clamp(5, 18) as usize;
        assert!(lines.len() <= rows, "height {height}: {} rows", lines.len());
        assert!(lines.last().unwrap().starts_with('└'));
    }
}

#[test]
fn wrapped_rows_never_exceed_the_row_width() {
    let rows = wrap_stage("a supercalifragilistic word in a stage", 5);
    assert_eq!(rows, vec!["a", "super", "calif", "ragil", "istic", "word", "in a", "stage"]);
    assert!(rows.iter().all(|row| row.chars().count() <= 5));
    assert!(wrap_stage("abc", 0).iter().all(|row| row.chars().count() <= 1));
}

#[test]
fn a_plain_detailed_card_has_no_escape() {
    let mut editing = state();
    editing.details = true;
    let lines = render_card_lines(&editing, InlineLayout::for_dimensions(30, 12), false);
    assert!(lines.iter().all(|line| !line.contains('\u{1b}')));
}
