use watn::config::types::{review_panel_enabled, ReviewConfig, ReviewPanelOverride, TierReasoning};
use watn::config::Config;

#[test]
fn review_panel_override_is_tri_state_and_has_precedence() {
    let config = Config {
        review: ReviewConfig { panel: false },
        ..Config::default()
    };
    assert!(!review_panel_enabled(&config, ReviewPanelOverride::Unset));
    assert!(review_panel_enabled(&config, ReviewPanelOverride::Enabled));
    assert!(!review_panel_enabled(&config, ReviewPanelOverride::Disabled));
    assert_eq!(
        ReviewPanelOverride::from_flags(true, true),
        Err("--review-panel and --no-review-panel are mutually exclusive")
    );
}

#[test]
fn review_panel_override_flags_are_exhaustive_and_precedential() {
    assert_eq!(ReviewPanelOverride::from_flags(false, false), Ok(ReviewPanelOverride::Unset));
    assert_eq!(ReviewPanelOverride::from_flags(true, false), Ok(ReviewPanelOverride::Enabled));
    assert_eq!(ReviewPanelOverride::from_flags(false, true), Ok(ReviewPanelOverride::Disabled));
    assert!(ReviewPanelOverride::Enabled.resolve(false));
    assert!(!ReviewPanelOverride::Disabled.resolve(true));
    assert!(ReviewConfig::default().panel);
}

#[test]
fn tier_reasoning_maps_tiers_to_efforts() {
    let empty = TierReasoning::default();
    assert_eq!(empty.effort(None), None);
    assert_eq!(empty.effort(Some("3")), Some("high".to_string()));
    let configured = TierReasoning {
        small: Some("off".to_string()),
        normal: Some("medium".to_string()),
        thinking: Some("  ".to_string()),
    };
    assert_eq!(configured.effort(Some("1")), None);
    assert_eq!(configured.effort(Some("2")), Some("medium".to_string()));
    assert_eq!(configured.effort(Some("3")), None);
    assert!(!configured.is_empty());
    assert!(empty.is_empty());
}

#[test]
fn review_panel_defaults_to_enabled_and_is_persisted() {
    let config = Config::default();
    assert!(config.review.panel);
}
