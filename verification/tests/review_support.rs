use watn::review::adapter::{PresentationAdapter, PresentationSelection};
use watn::review::buffer::ReviewBuffer;
use watn::review::routing::{request_route, resolve_review_enabled, RequestRoute};
use watn::config::types::{ReviewConfig, ReviewPanelOverride};
use watn::config::Config;

#[test]
fn retains_chunks_until_completion_and_requires_a_non_empty_candidate() {
    let mut buffer = ReviewBuffer::new();
    buffer.receive("df ");
    buffer.receive("-h");
    assert!(!buffer.is_complete());
    assert_eq!(buffer.candidate(), None);

    buffer.complete();
    assert!(buffer.is_complete());
    assert_eq!(buffer.candidate(), Some("df -h"));
}

#[test]
fn empty_completion_opens_nothing() {
    let mut buffer = ReviewBuffer::new();
    buffer.receive("   ");
    buffer.complete();
    assert!(!buffer.is_open());
    assert_eq!(buffer.candidate(), None);
}

#[test]
fn enhanced_failure_falls_back_to_portable_without_losing_the_review() {
    let selection = PresentationSelection::open(Some(false), true);
    assert_eq!(
        selection.attempts(),
        &[PresentationAdapter::Enhanced, PresentationAdapter::Portable]
    );
    assert_eq!(selection.active(), Some(PresentationAdapter::Portable));
    assert!(!selection.is_unavailable());
}

#[test]
fn portable_failure_is_unavailable_and_releases_nothing() {
    let selection = PresentationSelection::open(None, false);
    assert_eq!(selection.attempts(), &[PresentationAdapter::Portable]);
    assert_eq!(selection.active(), None);
    assert!(selection.is_unavailable());
}

#[test]
fn enhanced_success_stays_on_the_enhanced_adapter() {
    let selection = PresentationSelection::open(Some(true), true);
    assert_eq!(selection.attempts(), &[PresentationAdapter::Enhanced]);
    assert_eq!(selection.active(), Some(PresentationAdapter::Enhanced));
}

#[test]
fn disabled_review_routes_to_the_existing_paths() {
    let disabled = Config {
        review: ReviewConfig { panel: false },
        ..Config::default()
    };
    assert!(!resolve_review_enabled(&disabled, ReviewPanelOverride::Unset, true));
    assert_eq!(request_route(false, false), RequestRoute::DirectCommandOutput);
    assert_eq!(request_route(false, true), RequestRoute::ExecuteWithConfirmation);
}

#[test]
fn ineligible_requests_stay_out_of_review_even_when_enabled() {
    let enabled = Config::default();
    assert!(!resolve_review_enabled(&enabled, ReviewPanelOverride::Unset, false));
    assert!(resolve_review_enabled(&enabled, ReviewPanelOverride::Enabled, true));
}

#[test]
fn eligible_review_routes_to_the_review_surface() {
    assert_eq!(request_route(true, false), RequestRoute::ReviewSurface);
    assert_eq!(request_route(true, true), RequestRoute::ReviewSurface);
}
