//! Routing a command request before generation.
use vstd::prelude::*;

use crate::config::types::{review_panel_enabled, review_panel_on, ReviewPanelOverride};
use crate::config::Config;

verus! {

/// Routing decision for a command request before generation.
#[derive(Debug, Clone, Copy, PartialEq, Eq)]
pub enum RequestRoute {
    /// Review surface is enabled and the request is terminal-eligible.
    ReviewSurface,
    /// Existing command-output channel, unchanged.
    DirectCommandOutput,
    /// Existing `Execute now?` confirmation, unchanged.
    ExecuteWithConfirmation,
}

/// Effective review mode: persisted configuration, per-invocation override,
/// and terminal eligibility captured before generation.
pub fn resolve_review_enabled(config: &Config, override_value: ReviewPanelOverride, eligible: bool) -> (b: bool)
    ensures
        b == (review_panel_on(config.review.panel, override_value) && eligible),
{
    review_panel_enabled(config, override_value) && eligible
}

pub fn request_route(review_enabled: bool, execute: bool) -> (r: RequestRoute)
    ensures
        r == (if review_enabled {
            RequestRoute::ReviewSurface
        } else if execute {
            RequestRoute::ExecuteWithConfirmation
        } else {
            RequestRoute::DirectCommandOutput
        }),
{
    match (review_enabled, execute) {
        (true, _) => RequestRoute::ReviewSurface,
        (false, true) => RequestRoute::ExecuteWithConfirmation,
        (false, false) => RequestRoute::DirectCommandOutput,
    }
}

} // verus!
