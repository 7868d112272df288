//! Configuration values: review settings, provider settings, model tiers and
//! their reasoning effort.
use vstd::prelude::*;

use crate::review::response::opt_view;
use crate::text::{all_ws, is_blank, str_eq};

verus! {

/// Review-surface settings.
#[derive(Debug, Clone, Copy, PartialEq, Eq)]
pub struct ReviewConfig {
    pub panel: bool,
}

impl Default for ReviewConfig {
    fn default() -> (r: Self)
        ensures
            r.panel,
    {
        ReviewConfig { panel: true }
    }
}

/// The persisted review setting when the configuration does not name one.
pub fn default_review_panel() -> (b: bool)
    ensures
        b,
{
    true
}

/// Per-invocation review-panel override. `Unset` leaves persisted configuration intact.
#[derive(Debug, Clone, Copy, PartialEq, Eq)]
pub enum ReviewPanelOverride {
    Unset,
    Enabled,
    Disabled,
}

impl Default for ReviewPanelOverride {
    fn default() -> (r: Self)
        ensures
            r == ReviewPanelOverride::Unset,
    {
        ReviewPanelOverride::Unset
    }
}

/// Whether the review panel is on for a persisted setting and an override.
pub open spec fn review_panel_on(persisted: bool, o: ReviewPanelOverride) -> bool {
    match o {
        ReviewPanelOverride::Unset => persisted,
        ReviewPanelOverride::Enabled => true,
        ReviewPanelOverride::Disabled => false,
    }
}

impl ReviewPanelOverride {
    pub fn from_flags(review_panel: bool, no_review_panel: bool) -> (r: Result<Self, &'static str>)
        ensures
            match r {
                Ok(o) => !(review_panel && no_review_panel) && o == (if review_panel {
                    ReviewPanelOverride::Enabled
                } else if no_review_panel {
                    ReviewPanelOverride::Disabled
                } else {
                    ReviewPanelOverride::Unset
                }),
                Err(m) => review_panel && no_review_panel && m@
                    == "--review-panel and --no-review-panel are mutually exclusive"@,
            },
    {
        match (review_panel, no_review_panel) {
            (true, true) => Err("--review-panel and --no-review-panel are mutually exclusive"),
            (true, false) => Ok(ReviewPanelOverride::Enabled),
            (false, true) => Ok(ReviewPanelOverride::Disabled),
            (false, false) => Ok(ReviewPanelOverride::Unset),
        }
    }

    pub fn resolve(self, persisted: bool) -> (b: bool)
        ensures
            b == review_panel_on(persisted, self),
    {
        match self {
            ReviewPanelOverride::Unset => persisted,
            ReviewPanelOverride::Enabled => true,
            ReviewPanelOverride::Disabled => false,
        }
    }
}

/// Whether the review panel is on: the override wins, else the persisted
/// setting.
pub fn review_panel_enabled(config: &crate::config::Config, override_value: ReviewPanelOverride) -> (b: bool)
    ensures
        b == review_panel_on(config.review.panel, override_value),
{
    override_value.resolve(config.review.panel)
}

/// An explicit override always decides; `Unset` keeps the persisted setting.
pub proof fn override_has_precedence(persisted: bool, o: ReviewPanelOverride)
    ensures
        o == ReviewPanelOverride::Enabled ==> review_panel_on(persisted, o),
        o == ReviewPanelOverride::Disabled ==> !review_panel_on(persisted, o),
        o == ReviewPanelOverride::Unset ==> review_panel_on(persisted, o) == persisted,
{
}

#[derive(Debug, PartialEq, Eq)]
pub struct ProviderDefaults {
    pub provider: Option<String>,
    pub model: Option<String>,
}

impl Default for ProviderDefaults {
    fn default() -> (r: Self)
        ensures
            opt_view(r.provider) == Some("openrouter"@),
            r.model is None,
    {
        ProviderDefaults { provider: Some(String::from_str("openrouter")), model: None }
    }
}

#[derive(Debug, PartialEq, Eq)]
pub struct ProviderConfig {
    pub endpoint: String,
    pub api_key: Option<String>,
    pub default_model: Option<String>,
    pub catalog_endpoint: Option<String>,
}

pub struct ProviderConfigView {
    pub endpoint: Seq<char>,
    pub api_key: Option<Seq<char>>,
    pub default_model: Option<Seq<char>>,
    pub catalog_endpoint: Option<Seq<char>>,
}

impl View for ProviderConfig {
    type V = ProviderConfigView;

    open spec fn view(&self) -> ProviderConfigView {
        ProviderConfigView {
            endpoint: self.endpoint@,
            api_key: opt_view(self.api_key),
            default_model: opt_view(self.default_model),
            catalog_endpoint: opt_view(self.catalog_endpoint),
        }
    }
}

impl Clone for ProviderConfig {
    fn clone(&self) -> (r: Self)
        ensures
            r@ == self@,
    {
        ProviderConfig {
            endpoint: self.endpoint.clone(),
            api_key: crate::review::response::clone_opt(&self.api_key),
            default_model: crate::review::response::clone_opt(&self.default_model),
            catalog_endpoint: crate::review::response::clone_opt(&self.catalog_endpoint),
        }
    }
}

#[derive(Debug, PartialEq, Eq)]
pub struct ModelTiers {
    pub small: Option<String>,
    pub normal: Option<String>,
    pub thinking: Option<String>,
    pub reasoning: TierReasoning,
}

impl Default for ModelTiers {
    fn default() -> (r: Self)
        ensures
            r.small is None,
            r.normal is None,
            r.thinking is None,
            r.reasoning.is_blank_config(),
    {
        ModelTiers { small: None, normal: None, thinking: None, reasoning: TierReasoning::default() }
    }
}

/// The reasoning effort configured per tier.
#[derive(Debug, PartialEq, Eq)]
pub struct TierReasoning {
    pub small: Option<String>,
    pub normal: Option<String>,
    pub thinking: Option<String>,
}

impl Default for TierReasoning {
    fn default() -> (r: Self)
        ensures
            r.is_blank_config(),
    {
        TierReasoning { small: None, normal: None, thinking: None }
    }
}

/// The configured value for a tier: "2" is normal, "3" is thinking, anything
/// else (or no tier) is small.
pub open spec fn tier_value(r: TierReasoning, tier: Option<Seq<char>>) -> Option<Seq<char>> {
    if tier == Some("2"@) {
        opt_view(r.normal)
    } else if tier == Some("3"@) {
        opt_view(r.thinking)
    } else {
        opt_view(r.small)
    }
}

/// The `reasoning_effort` value for a tier.
pub open spec fn effort_for(r: TierReasoning, tier: Option<Seq<char>>) -> Option<Seq<char>> {
    match tier_value(r, tier) {
        None => if tier == Some("3"@) {
            Some("high"@)
        } else {
            None
        },
        Some(v) => if v == "off"@ || all_ws(v) {
            None
        } else {
            Some(v)
        },
    }
}

pub open spec fn opt_str_view(o: Option<&str>) -> Option<Seq<char>> {
    match o {
        Some(s) => Some(s@),
        None => None,
    }
}

impl TierReasoning {
    pub open spec fn is_blank_config(&self) -> bool {
        self.small is None && self.normal is None && self.thinking is None
    }

    pub fn is_empty(&self) -> (b: bool)
        ensures
            b == self.is_blank_config(),
    {
        self.small.is_none() && self.normal.is_none() && self.thinking.is_none()
    }

    /// Map a tier ("1"/"2"/"3" or None default "1") to a `reasoning_effort`
    /// value. Returns `None` for "off" or an absent config (no reasoning),
    /// otherwise `Some(strength)`. Backwards compatibility: the thinking tier
    /// with no explicit config defaults to "high", matching prior behaviour.
    pub fn effort(&self, tier: Option<&str>) -> (r: Option<String>)
        ensures
            opt_view(r) == effort_for(*self, opt_str_view(tier)),
    {
        let is_three = match tier {
            Some(t) => str_eq(t, "3"),
            None => false,
        };
        let is_two = match tier {
            Some(t) => str_eq(t, "2"),
            None => false,
        };
        let value = if is_two {
            &self.normal
        } else if is_three {
            &self.thinking
        } else {
            &self.small
        };
        match value {
            None => {
                if is_three {
                    Some(String::from_str("high"))
                } else {
                    None
                }
            },
            Some(v) => {
                if str_eq(v.as_str(), "off") || is_blank(v.as_str()) {
                    None
                } else {
                    Some(v.clone())
                }
            },
        }
    }
}

/// A LiteLLM proxy.
#[derive(Debug, PartialEq, Eq)]
pub struct LiteLLMConfig {
    pub endpoint: String,
    pub api_key: Option<String>,
}


/// A line without the carriage return that ends it, if any.
pub open spec fn strip_cr(line: Seq<char>) -> Seq<char> {
    if line.len() > 0 && line.last() == '\r' {
        line.drop_last()
    } else {
        line
    }
}

/// The lines finished so far and the line in progress, reading `s` from
/// the start: a newline ends a line (and a carriage return before it).
pub open spec fn line_scan(s: Seq<char>) -> (Seq<Seq<char>>, Seq<char>)
    decreases s.len(),
{
    if s.len() == 0 {
        (seq![], seq![])
    } else {
        let (done, current) = line_scan(s.drop_last());
        if s.last() == '\n' {
            (done.push(strip_cr(current)), seq![])
        } else {
            (done, current.push(s.last()))
        }
    }
}

/// `str::lines`: a final line ending adds no empty line.
pub open spec fn text_lines(s: Seq<char>) -> Seq<Seq<char>> {
    let (done, current) = line_scan(s);
    if current.len() > 0 {
        done.push(current)
    } else {
        done
    }
}

/// A line turned into a TOML comment; an empty line stays empty.
pub open spec fn commented(line: Seq<char>) -> Seq<char> {
    if line.len() == 0 {
        seq![]
    } else {
        "# "@ + line
    }
}

/// `str::lines`, as strings.
pub fn lines_of(input: &str) -> (r: Vec<String>)
    ensures
        crate::text::views_of(r@) == text_lines(input@),
{
    let chars = crate::text::chars_of(input);
    let mut out: Vec<String> = Vec::new();
    let mut current: Vec<char> = Vec::new();
    let mut k: usize = 0;
    while k < chars.len()
        invariant
            k <= chars@.len(),
            chars@ == input@,
            crate::text::views_of(out@) == line_scan(chars@.take(k as int)).0,
            current@ == line_scan(chars@.take(k as int)).1,
        decreases chars@.len() - k,
    {
        let ghost prefix = chars@.take(k + 1);
        assert(prefix.drop_last() =~= chars@.take(k as int));
        assert(prefix.last() == chars@[k as int]);
        let c = chars[k];
        if c == '\n' {
            let n = current.len();
            if n > 0 && current[n - 1] == '\r' {
                current.pop();
            }
            let ghost before = out@;
            out.push(crate::text::string_of(current.as_slice()));
            assert(crate::text::views_of(out@) =~= crate::text::views_of(before).push(current@));
            current = Vec::new();
            assert(current@ =~= Seq::<char>::empty());
        } else {
            current.push(c);
        }
        k += 1;
    }
    assert(chars@.take(chars@.len() as int) =~= chars@);
    if current.len() > 0 {
        let ghost before = out@;
        out.push(crate::text::string_of(current.as_slice()));
        assert(crate::text::views_of(out@) =~= crate::text::views_of(before).push(current@));
    }
    out
}

/// Turn every line of `input` into a comment.
pub fn comment_toml(input: &str) -> (r: String)
    ensures
        r@ == crate::text::join(text_lines(input@).map_values(|l: Seq<char>| commented(l)), "\n"@),
{
    let lines = lines_of(input);
    let mut out: Vec<String> = Vec::new();
    let mut k: usize = 0;
    while k < lines.len()
        invariant
            k <= lines@.len(),
            crate::text::views_of(lines@) == text_lines(input@),
            crate::text::views_of(out@) == text_lines(input@).take(k as int).map_values(
                |l: Seq<char>| commented(l),
            ),
        decreases lines@.len() - k,
    {
        let ghost before = out@;
        let line = lines[k].as_str();
        if line.unicode_len() == 0 {
            out.push(String::new());
        } else {
            let mut text = String::from_str("# ");
            crate::text::push_str(&mut text, line);
            out.push(text);
        }
        assert(text_lines(input@)[k as int] == lines@[k as int]@);
        assert(crate::text::views_of(out@) =~= crate::text::views_of(before).push(
            commented(lines@[k as int]@),
        ));
        assert(text_lines(input@).take(k + 1).map_values(|l: Seq<char>| commented(l)) =~= text_lines(
            input@,
        ).take(k as int).map_values(|l: Seq<char>| commented(l)).push(commented(lines@[k as int]@)));
        k += 1;
    }
    assert(text_lines(input@).take(lines@.len() as int) =~= text_lines(input@));
    crate::text::join_strings(out.as_slice(), "\n")
}

} // verus!
