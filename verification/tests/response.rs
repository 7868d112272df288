use watn::review::response::{
    apply_explanation, apply_explanation_outcome, candidate_from_provider_response,
    parse_structured_review_response, ExplanationOutcome, PurposeStatus, ReviewCandidate,
    ReviewParseResult, ReviewResponseError, REVIEW_VERSION,
};

const COMMAND: &str = "git log --since='7 days ago' | xargs -n1 git show --stat";

fn quoted(value: &str) -> String {
    serde_json::to_string(value).unwrap()
}

#[test]
fn parses_ready_response_and_requires_exact_locally_derived_stages() {
    let raw = format!(
        "{{\"review_version\":1,\"command\":{command},\"stages\":[{{\"stage_text\":\"git log --since='7 days ago'\",\"purpose\":\"Collect commits.\"}},{{\"stage_text\":\"xargs -n1\",\"purpose\":\"Pass each commit.\"}},{{\"stage_text\":\"git show --stat\",\"purpose\":\"Inspect each commit.\"}}],\"purpose_status\":\"ready\"}}",
        command = quoted(COMMAND)
    );
    let response = parse_structured_review_response(&raw).unwrap();
    assert_eq!(response.purpose_status, PurposeStatus::Ready);
    assert_eq!(response.stages.len(), 3);

    let mut candidate = ReviewCandidate::from_command(COMMAND);
    assert_eq!(candidate.apply_response(&raw), ReviewParseResult::Ready);
    assert_eq!(candidate.stage_purposes().len(), 3);
}

#[test]
fn command_only_and_malformed_responses_fall_back_without_local_purpose_text() {
    let mut candidate = ReviewCandidate::from_command("printf 'done'");
    let result = candidate.apply_response("printf 'done'");
    assert!(matches!(
        result,
        ReviewParseResult::PurposeUnavailable(ReviewResponseError::InvalidJson(_))
    ));
    assert_eq!(candidate.purpose_status, PurposeStatus::Unavailable);
    assert!(candidate.stage_purposes().iter().all(|purpose| purpose.is_none()));
}

#[test]
fn delayed_purposes_are_loading_only_with_a_request_and_stale_results_are_ignored() {
    let mut candidate = ReviewCandidate::from_command(COMMAND);
    let raw = format!(
        "{{\"review_version\":1,\"command\":{command},\"stages\":[{{\"stage_text\":\"git log --since='7 days ago'\"}},{{\"stage_text\":\"xargs -n1\"}},{{\"stage_text\":\"git show --stat\"}}],\"purpose_status\":\"loading\",\"purpose_request\":\"opaque\"}}",
        command = quoted(COMMAND)
    );
    assert_eq!(candidate.apply_response(&raw), ReviewParseResult::Loading);
    let generation = candidate.generation;
    candidate.edit_command("printf 'new'");
    assert!(candidate.apply_response_for(generation, &raw).is_none());
    assert_eq!(candidate.command, "printf 'new'");
}

#[test]
fn validation_rejections_map_to_explicit_purpose_unavailable_errors() {
    let mut candidate = ReviewCandidate::from_command("df -h");

    let unsupported = r#"{"review_version":2,"command":"df -h","stages":[],"purpose_status":"purpose-unavailable"}"#;
    assert!(matches!(
        candidate.apply_response(unsupported),
        ReviewParseResult::PurposeUnavailable(ReviewResponseError::UnsupportedVersion(2))
    ));

    let empty = r#"{"review_version":1,"command":"","stages":[],"purpose_status":"purpose-unavailable"}"#;
    assert!(matches!(
        candidate.apply_response(empty),
        ReviewParseResult::PurposeUnavailable(ReviewResponseError::EmptyCommand)
    ));

    let mismatch = r#"{"review_version":1,"command":"ls","stages":[],"purpose_status":"purpose-unavailable"}"#;
    assert!(matches!(
        candidate.apply_response(mismatch),
        ReviewParseResult::PurposeUnavailable(ReviewResponseError::CommandMismatch)
    ));

    let stage_mismatch = r#"{"review_version":1,"command":"df -h","stages":[{"stage_text":"wrong"}],"purpose_status":"ready"}"#;
    assert!(matches!(
        candidate.apply_response(stage_mismatch),
        ReviewParseResult::PurposeUnavailable(ReviewResponseError::StageMismatch)
    ));

    let missing_purpose = r#"{"review_version":1,"command":"df -h","stages":[{"stage_text":"df -h"}],"purpose_status":"ready"}"#;
    assert!(matches!(
        candidate.apply_response(missing_purpose),
        ReviewParseResult::PurposeUnavailable(ReviewResponseError::MissingPurpose)
    ));

    let loading_without_request = r#"{"review_version":1,"command":"df -h","stages":[{"stage_text":"df -h"}],"purpose_status":"loading"}"#;
    assert!(matches!(
        candidate.apply_response(loading_without_request),
        ReviewParseResult::PurposeUnavailable(ReviewResponseError::InvalidLoadingResponse)
    ));
}

#[test]
fn explanation_outcome_discriminates_ready_and_unusable() {
    let command = "git log --oneline | head -5";
    let ready = format!(
        "{{\"review_version\":1,\"command\":{command},\"stages\":[{{\"stage_text\":\"git log --oneline\",\"purpose\":\"List commits.\"}},{{\"stage_text\":\"head -5\",\"purpose\":\"Keep five.\"}}],\"purpose_status\":\"ready\"}}",
        command = quoted(command)
    );
    assert!(matches!(
        apply_explanation_outcome(command, &ready),
        ExplanationOutcome::Ready(_)
    ));

    let unusable = r#"{"review_version":1,"command":"git log --oneline","stages":[{"stage_text":"unrelated stage","purpose":"x"}],"purpose_status":"ready"}"#;
    match apply_explanation_outcome(command, unusable) {
        ExplanationOutcome::Unusable { candidate, reason } => {
            assert_eq!(candidate.command, command);
            assert_eq!(candidate.purpose_status, PurposeStatus::Unavailable);
            assert_eq!(reason, ReviewResponseError::CommandMismatch);
        }
        ExplanationOutcome::Ready(_) => {
            panic!("a mismatched response must not be trusted")
        }
    }
}

#[test]
fn identity_stage_purposes_and_error_display_are_exposed() {
    let candidate = ReviewCandidate::from_command("df -h");
    let identity = candidate.identity();
    assert_eq!(identity.generation, 0);
    assert_eq!(identity.review_version, REVIEW_VERSION);
    assert_eq!(candidate.stage_purposes().len(), 1);

    for error in [
        ReviewResponseError::InvalidJson("broken".to_string()),
        ReviewResponseError::UnsupportedVersion(9),
        ReviewResponseError::EmptyCommand,
        ReviewResponseError::CommandMismatch,
        ReviewResponseError::StageMismatch,
        ReviewResponseError::MissingPurpose,
        ReviewResponseError::InvalidLoadingResponse,
    ] {
        assert!(!error.message().is_empty());
    }
}

#[test]
fn purpose_labels_and_valid_unavailable_responses_are_covered() {
    assert_eq!(PurposeStatus::Ready.label(), "ready");
    assert_eq!(PurposeStatus::Loading.label(), "loading");
    assert_eq!(PurposeStatus::Unavailable.label(), "purpose-unavailable");

    let mut candidate = ReviewCandidate::from_command("df -h");
    let raw = r#"{"review_version":1,"command":"df -h","stages":[{"stage_text":"df -h"}],"purpose_status":"purpose-unavailable"}"#;
    assert!(matches!(
        candidate.apply_response(raw),
        ReviewParseResult::PurposeUnavailable(ReviewResponseError::InvalidLoadingResponse)
    ));
    assert_eq!(candidate.purpose_status, PurposeStatus::Unavailable);
}

#[test]
fn markdown_fenced_and_prose_wrapped_responses_are_recognized() {
    let command = "git log --oneline | head -5";
    let response = format!(
        "Here is the review:\n```json\n{{\"review_version\":1,\"command\":{command},\"stages\":[{{\"stage_text\":\"git log --oneline\",\"purpose\":\"List commits.\"}},{{\"stage_text\":\"head -5\",\"purpose\":\"Keep five.\"}}],\"purpose_status\":\"ready\"}}\n```\n",
        command = quoted(command)
    );

    let parsed = parse_structured_review_response(&response).unwrap();
    assert_eq!(parsed.command, command);

    let candidate = candidate_from_provider_response(&response).unwrap();
    assert_eq!(candidate.command, command);
    assert_eq!(candidate.purpose_status, PurposeStatus::Ready);
    assert_eq!(candidate.stage_purposes().len(), 2);
}

#[test]
fn invalid_status_with_matching_purposes_keeps_the_provider_purpose() {
    let raw = r#"{"review_version":1,"command":"df -h","stages":[{"stage_text":"df -h","purpose":"Show disks."}],"purpose_status":"incomplete"}"#;
    assert!(parse_structured_review_response(raw).is_err());

    let candidate = candidate_from_provider_response(raw).unwrap();
    assert_eq!(candidate.command, "df -h");
    assert_eq!(candidate.purpose_status, PurposeStatus::Ready);
    assert_eq!(
        candidate.stage_purposes(),
        vec![Some("Show disks.".to_string())]
    );
}

#[test]
fn command_text_that_merely_contains_braces_stays_a_command() {
    let raw = "awk '{print $1}' file.txt";
    let candidate = candidate_from_provider_response(raw).unwrap();
    assert_eq!(candidate.command, "awk '{print $1}' file.txt");
}

#[test]
fn structured_payloads_without_a_usable_command_are_unavailable() {
    let raw = r#"{"review_version":1,"stages":[],"purpose_status":"ready"}"#;
    assert!(candidate_from_provider_response(raw).is_none());

    let empty = r#"{"review_version":1,"command":"   ","stages":[],"purpose_status":"ready"}"#;
    assert!(candidate_from_provider_response(empty).is_none());
}

#[test]
fn unknown_status_with_matching_purposes_keeps_provider_purposes() {
    let raw = r#"{"review_version":1,"command":"git rev-list --all | xargs -n1 git ls-tree -r | head -5","stages":[{"stage_text":"git rev-list --all","purpose":"List every commit."},{"stage_text":"xargs -n1","purpose":"Pass every commit to the file listing."},{"stage_text":"git ls-tree -r","purpose":"List the files in each commit."},{"stage_text":"head -5","purpose":"Keep the first five files."}],"purpose_status":"incomplete"}"#;
    let candidate = candidate_from_provider_response(raw).unwrap();
    assert_eq!(candidate.purpose_status, PurposeStatus::Ready);
    assert_eq!(
        candidate.stage_purposes(),
        vec![
            Some("List every commit.".to_string()),
            Some("Pass every commit to the file listing.".to_string()),
            Some("List the files in each commit.".to_string()),
            Some("Keep the first five files.".to_string()),
        ]
    );
}

#[test]
fn line_broken_commands_are_normalized_before_flow_derivation() {
    let raw = r#"{"review_version":1,"command":"git rev-list --all |\nxargs -n1 git ls-tree -r |\nhead -5","stages":[{"stage_text":"git rev-list --all","purpose":"List every commit."},{"stage_text":"xargs -n1","purpose":"Pass every commit to the file listing."},{"stage_text":"git ls-tree -r","purpose":"List the files in each commit."},{"stage_text":"head -5","purpose":"Keep the first five files."}],"purpose_status":"ready"}"#;

    let candidate = candidate_from_provider_response(raw).unwrap();
    assert_eq!(
        candidate.command,
        "git rev-list --all | xargs -n1 git ls-tree -r | head -5"
    );
    assert!(!candidate.command.contains('\n'));
    assert_eq!(candidate.purpose_status, PurposeStatus::Ready);
    assert_eq!(candidate.stage_purposes().len(), 4);
}

#[test]
fn mismatched_or_missing_stage_purposes_fall_back_to_unavailable() {
    let mismatched = r#"{"review_version":1,"command":"df -h","stages":[{"stage_text":"wrong","purpose":"x"}],"purpose_status":"incomplete"}"#;
    let candidate = candidate_from_provider_response(mismatched).unwrap();
    assert_eq!(candidate.command, "df -h");
    assert_eq!(candidate.purpose_status, PurposeStatus::Unavailable);
    assert!(candidate.stage_purposes().iter().all(|purpose| purpose.is_none()));

    let missing = r#"{"review_version":1,"command":"df -h","stages":[{"stage_text":"df -h"}],"purpose_status":"incomplete"}"#;
    let candidate = candidate_from_provider_response(missing).unwrap();
    assert_eq!(candidate.command, "df -h");
    assert_eq!(candidate.purpose_status, PurposeStatus::Unavailable);
    assert!(candidate.stage_purposes().iter().all(|purpose| purpose.is_none()));
}

#[test]
fn provider_splits_that_cover_the_command_are_accepted() {
    let raw = r#"{"review_version":1,"command":"git rev-list --all | while read commit; do git ls-tree -r $commit | awk '{print $4, $3}'; done | sort | uniq | sort -k2 -rn | head -5","stages":[{"stage_text":"git rev-list --all","purpose":"List all commit hashes in the git repository"},{"stage_text":"while read commit; do git ls-tree -r $commit | awk '{print $4, $3}'; done","purpose":"For each commit, recursively list all files with their object hashes and extract filename and object hash"},{"stage_text":"sort | uniq","purpose":"Sort the file entries and remove duplicates"},{"stage_text":"sort -k2 -rn","purpose":"Sort by file size (second column) in descending numerical order"},{"stage_text":"head -5","purpose":"Display only the top 5 largest files"}],"purpose_status":"ready"}"#;

    let candidate = candidate_from_provider_response(raw).unwrap();
    assert_eq!(candidate.purpose_status, PurposeStatus::Ready);
    assert_eq!(
        candidate.flow.stage_texts(),
        vec![
            "git rev-list --all",
            "while read commit; do git ls-tree -r $commit | awk '{print $4, $3}'; done",
            "sort | uniq",
            "sort -k2 -rn",
            "head -5",
        ]
    );
    assert_eq!(candidate.stage_purposes().len(), 5);
}

#[test]
fn incomplete_provider_splits_are_not_trusted() {
    let empty_stages =
        r#"{"review_version":1,"command":"df -h","stages":[],"purpose_status":"ready"}"#;
    let candidate = candidate_from_provider_response(empty_stages).unwrap();
    assert_eq!(candidate.purpose_status, PurposeStatus::Unavailable);

    let empty_text = r#"{"review_version":1,"command":"df -h","stages":[{"stage_text":"   ","purpose":"x"}],"purpose_status":"ready"}"#;
    let candidate = candidate_from_provider_response(empty_text).unwrap();
    assert_eq!(candidate.purpose_status, PurposeStatus::Unavailable);

    let blank_purpose = r#"{"review_version":1,"command":"df -h","stages":[{"stage_text":"df -h","purpose":"   "}],"purpose_status":"ready"}"#;
    let candidate = candidate_from_provider_response(blank_purpose).unwrap();
    assert_eq!(candidate.purpose_status, PurposeStatus::Unavailable);
}

#[test]
fn untrusted_provider_splits_fall_back_to_unavailable() {
    let fabricated = r#"{"review_version":1,"command":"df -h","stages":[{"stage_text":"not part of the command","purpose":"x"}],"purpose_status":"ready"}"#;
    let candidate = candidate_from_provider_response(fabricated).unwrap();
    assert_eq!(candidate.command, "df -h");
    assert_eq!(candidate.purpose_status, PurposeStatus::Unavailable);

    let gap_with_text = r#"{"review_version":1,"command":"df -h","stages":[{"stage_text":"-h","purpose":"x"}],"purpose_status":"ready"}"#;
    let candidate = candidate_from_provider_response(gap_with_text).unwrap();
    assert_eq!(candidate.purpose_status, PurposeStatus::Unavailable);

    let trailing_text = r#"{"review_version":1,"command":"df -h","stages":[{"stage_text":"df","purpose":"x"}],"purpose_status":"ready"}"#;
    let candidate = candidate_from_provider_response(trailing_text).unwrap();
    assert_eq!(candidate.purpose_status, PurposeStatus::Unavailable);
}

#[test]
fn a_stale_generation_never_replaces_purposes() {
    let mut candidate = ReviewCandidate::from_command("df -h");
    let ready = r#"{"review_version":1,"command":"df -h","stages":[{"stage_text":"df -h","purpose":"Show disks."}],"purpose_status":"ready"}"#;
    candidate.edit_command("df -h");
    assert_eq!(candidate.generation, 1);
    assert!(candidate.apply_response_for(0, ready).is_none());
    assert_eq!(candidate.purpose_status, PurposeStatus::Unavailable);
    assert_eq!(
        candidate.apply_response_for(1, ready),
        Some(ReviewParseResult::Ready)
    );
}

#[test]
fn apply_explanation_keeps_the_developer_command() {
    let raw = r#"{"review_version":1,"command":"rm -rf /","stages":[],"purpose_status":"ready"}"#;
    let candidate = apply_explanation("ls -la", raw);
    assert_eq!(candidate.command, "ls -la");
    assert_eq!(candidate.purpose_status, PurposeStatus::Unavailable);
    assert_eq!(candidate.stages.len(), candidate.flow.stages.len());
}

#[test]
fn error_messages_name_each_rejection() {
    assert_eq!(
        ReviewResponseError::UnsupportedVersion(9).message(),
        "unsupported review response version: 9"
    );
    assert_eq!(
        ReviewResponseError::InvalidJson("broken".to_string()).message(),
        "invalid review JSON: broken"
    );
    assert_eq!(
        ReviewResponseError::EmptyCommand.message(),
        "review response command is empty"
    );
}

#[test]
fn wrong_field_shapes_are_invalid_json() {
    let wrong_version = r#"{"review_version":"1","command":"df -h","purpose_status":"ready"}"#;
    assert!(matches!(
        parse_structured_review_response(wrong_version),
        Err(ReviewResponseError::InvalidJson(_))
    ));
    let null_purpose = r#"{"review_version":1,"command":"df -h","stages":[{"stage_text":"df -h","purpose":null}],"purpose_status":"loading","purpose_request":"x"}"#;
    let parsed = parse_structured_review_response(null_purpose).unwrap();
    assert_eq!(parsed.stages[0].purpose, None);
    assert_eq!(parsed.purpose_request.as_deref(), Some("x"));
}
