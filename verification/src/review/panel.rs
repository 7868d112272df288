//! The review panel: its state machine (focus, cursors, candidates, the
//! command editor, model selection and pending operations), its layout and
//! its plain text rendering. Terminal I/O lives outside the library; it hands
//! the panel key presses and draws the lines that the panel renders.
use vstd::prelude::*;

use crate::review::response::{opt_view, CandidateView, ReviewCandidate};
use crate::text::{chars_of, push_char, string_from, string_of};

verus! {

pub const MAX_PANEL_ROWS: u16 = 14;

pub const MIN_PANEL_WIDTH: u16 = 20;

#[derive(Debug, Clone, Copy, PartialEq, Eq, Structural)]
pub enum FocusRegion {
    Flow,
    Candidates,
    Actions,
}

pub open spec fn focus_next(f: FocusRegion) -> FocusRegion {
    match f {
        FocusRegion::Flow => FocusRegion::Candidates,
        FocusRegion::Candidates => FocusRegion::Actions,
        FocusRegion::Actions => FocusRegion::Flow,
    }
}

pub open spec fn focus_previous(f: FocusRegion) -> FocusRegion {
    match f {
        FocusRegion::Flow => FocusRegion::Actions,
        FocusRegion::Candidates => FocusRegion::Flow,
        FocusRegion::Actions => FocusRegion::Candidates,
    }
}

impl FocusRegion {
    pub fn next(self) -> (r: Self)
        ensures
            r == focus_next(self),
    {
        match self {
            FocusRegion::Flow => FocusRegion::Candidates,
            FocusRegion::Candidates => FocusRegion::Actions,
            FocusRegion::Actions => FocusRegion::Flow,
        }
    }

    pub fn previous(self) -> (r: Self)
        ensures
            r == focus_previous(self),
    {
        match self {
            FocusRegion::Flow => FocusRegion::Actions,
            FocusRegion::Candidates => FocusRegion::Flow,
            FocusRegion::Actions => FocusRegion::Candidates,
        }
    }

    pub fn label(self) -> (s: &'static str)
        ensures
            s@ == focus_label(self),
    {
        match self {
            FocusRegion::Flow => "Flow",
            FocusRegion::Candidates => "Candidates",
            FocusRegion::Actions => "Actions",
        }
    }
}

pub open spec fn focus_label(f: FocusRegion) -> Seq<char> {
    match f {
        FocusRegion::Flow => "Flow"@,
        FocusRegion::Candidates => "Candidates"@,
        FocusRegion::Actions => "Actions"@,
    }
}

/// Focus moves through exactly three regions: forward and back undo each
/// other, and three steps forward come back to the start.
pub proof fn focus_cycles_through_three_regions(f: FocusRegion)
    ensures
        focus_previous(focus_next(f)) == f,
        focus_next(focus_previous(f)) == f,
        focus_next(focus_next(focus_next(f))) == f,
        focus_next(f) != f,
        focus_next(focus_next(f)) != f,
{
}

#[derive(Debug, Clone, Copy, PartialEq, Eq, Structural)]
pub enum PanelAction {
    Accept,
    EditCommand,
    Reject,
    Cancel,
}

pub open spec fn action_at(i: int) -> PanelAction {
    if i == 0 {
        PanelAction::Accept
    } else if i == 1 {
        PanelAction::EditCommand
    } else if i == 2 {
        PanelAction::Reject
    } else {
        PanelAction::Cancel
    }
}

pub open spec fn action_label(a: PanelAction) -> Seq<char> {
    match a {
        PanelAction::Accept => "Accept candidate"@,
        PanelAction::EditCommand => "Edit command"@,
        PanelAction::Reject => "Reject candidate"@,
        PanelAction::Cancel => "Cancel review"@,
    }
}

/// The number of panel actions.
pub const ACTION_COUNT: usize = 4;

impl PanelAction {
    /// The action at `index` in the action row.
    pub fn at(index: usize) -> (a: PanelAction)
        requires
            index < ACTION_COUNT,
        ensures
            a == action_at(index as int),
    {
        if index == 0 {
            PanelAction::Accept
        } else if index == 1 {
            PanelAction::EditCommand
        } else if index == 2 {
            PanelAction::Reject
        } else {
            PanelAction::Cancel
        }
    }

    pub fn label(self) -> (s: &'static str)
        ensures
            s@ == action_label(self),
    {
        match self {
            PanelAction::Accept => "Accept candidate",
            PanelAction::EditCommand => "Edit command",
            PanelAction::Reject => "Reject candidate",
            PanelAction::Cancel => "Cancel review",
        }
    }
}

#[derive(Debug, Clone, Copy, PartialEq, Eq, Structural)]
pub enum PanelInputMode {
    Review,
    CommandEditor,
}

/// In-progress review operations that can be interrupted independently of the
/// selected candidate and the open review state.
#[derive(Debug, Clone, Copy, PartialEq, Eq, Structural)]
pub enum ReviewOperation {
    Regeneration,
    PurposeRefresh,
    ModelSelection,
}

#[derive(Debug, PartialEq, Eq)]
pub enum PanelOutcome {
    Continue,
    Accepted(ReviewCandidate),
    Cancelled,
    EditCommitted(String),
    EditDiscarded,
    Rejected,
}

/// The key that was pressed, as the panel reads it.
#[derive(Debug, Clone, Copy, PartialEq, Eq, Structural)]
pub enum KeyInput {
    Tab,
    BackTab,
    Esc,
    Up,
    Down,
    Left,
    Right,
    Enter,
    Backspace,
    Char(char),
    Other,
}

/// A key event: the key, the modifiers held, and whether it is a press.
#[derive(Debug, Clone, Copy, PartialEq, Eq, Structural)]
pub struct PanelKey {
    pub code: KeyInput,
    pub shift: bool,
    pub control: bool,
    pub alt: bool,
    pub press: bool,
}

impl PanelKey {
    /// A plain press of `code` without modifiers.
    pub fn new(code: KeyInput) -> (k: Self)
        ensures
            k.code == code,
            !k.shift && !k.control && !k.alt,
            k.press,
    {
        PanelKey { code, shift: false, control: false, alt: false, press: true }
    }
}

#[derive(Debug, PartialEq, Eq)]
pub struct ReviewContext {
    pub intent: String,
    pub tier: String,
    pub provider: String,
    pub model: String,
}

pub struct ContextView {
    pub intent: Seq<char>,
    pub tier: Seq<char>,
    pub provider: Seq<char>,
    pub model: Seq<char>,
}

impl View for ReviewContext {
    type V = ContextView;

    open spec fn view(&self) -> ContextView {
        ContextView {
            intent: self.intent@,
            tier: self.tier@,
            provider: self.provider@,
            model: self.model@,
        }
    }
}

/// The context of an escalation: the next tier's tier, provider and model,
/// with the current intent kept.
pub open spec fn escalated(current: ContextView, next: ContextView) -> ContextView {
    ContextView { intent: current.intent, ..next }
}

impl Clone for ReviewContext {
    fn clone(&self) -> (r: Self)
        ensures
            r@ == self@,
    {
        ReviewContext {
            intent: self.intent.clone(),
            tier: self.tier.clone(),
            provider: self.provider.clone(),
            model: self.model.clone(),
        }
    }
}

#[derive(Debug, Clone, Copy, PartialEq, Eq, Structural)]
pub struct InlineLayout {
    pub width: u16,
    pub height: u16,
    pub max_rows: u16,
    pub content_width: usize,
}

pub open spec fn clamp_rows(h: int) -> int {
    if h < 4 {
        4
    } else if h > MAX_PANEL_ROWS {
        MAX_PANEL_ROWS as int
    } else {
        h
    }
}

impl InlineLayout {
    pub fn for_dimensions(width: u16, height: u16) -> (l: Self)
        ensures
            l.width == width,
            l.height == height,
            l.max_rows == clamp_rows(if height == 0 {
                0
            } else {
                height - 1
            }),
            l.content_width == (if width < MIN_PANEL_WIDTH {
                MIN_PANEL_WIDTH
            } else {
                width
            }) - 4,
    {
        let bounded_width: u16 = if width < MIN_PANEL_WIDTH {
            MIN_PANEL_WIDTH
        } else {
            width
        };
        let rows: u16 = if height == 0 {
            0
        } else {
            height - 1
        };
        let max_rows: u16 = if rows < 4 {
            4
        } else if rows > MAX_PANEL_ROWS {
            MAX_PANEL_ROWS
        } else {
            rows
        };
        InlineLayout { width, height, max_rows, content_width: (bounded_width - 4) as usize }
    }

    pub fn is_bounded(self) -> (b: bool)
        ensures
            b == (self.width >= MIN_PANEL_WIDTH && self.max_rows <= MAX_PANEL_ROWS),
    {
        self.width >= MIN_PANEL_WIDTH && self.max_rows <= MAX_PANEL_ROWS
    }
}

/// Every layout keeps between four and the panel's maximum rows, and is
/// bounded exactly when the terminal is at least the minimum width.
pub proof fn layout_rows_are_bounded(width: u16, height: u16, l: InlineLayout)
    requires
        l.width == width,
        l.max_rows == clamp_rows(if height == 0 {
            0
        } else {
            height - 1
        }),
    ensures
        4 <= l.max_rows <= MAX_PANEL_ROWS,
        (l.width >= MIN_PANEL_WIDTH && l.max_rows <= MAX_PANEL_ROWS) == (width >= MIN_PANEL_WIDTH),
{
}

/// A cursor moved by `delta` within `len` entries, clamped at both ends.
pub open spec fn moved(current: int, delta: int, len: int) -> int {
    if len == 0 {
        0
    } else {
        let raw = if delta < 0 {
            if current >= -delta {
                current + delta
            } else {
                0
            }
        } else {
            if current + delta > usize::MAX {
                usize::MAX as int
            } else {
                current + delta
            }
        };
        if raw > len - 1 {
            len - 1
        } else {
            raw
        }
    }
}

pub fn move_cursor(current: usize, delta: isize, len: usize) -> (r: usize)
    ensures
        r as int == moved(current as int, delta as int, len as int),
        len > 0 ==> r < len,
{
    if len == 0 {
        return 0;
    }
    let raw: usize = if delta < 0 {
        let magnitude: usize = ((-(delta + 1)) as usize) + 1;
        if current >= magnitude {
            current - magnitude
        } else {
            0
        }
    } else {
        let d: usize = delta as usize;
        if current > usize::MAX - d {
            usize::MAX
        } else {
            current + d
        }
    };
    if raw > len - 1 {
        len - 1
    } else {
        raw
    }
}

pub open spec fn strings_view(v: Seq<String>) -> Seq<Seq<char>> {
    v.map_values(|s: String| s@)
}

pub open spec fn contexts_view(v: Seq<ReviewContext>) -> Seq<ContextView> {
    v.map_values(|c: ReviewContext| c@)
}

pub open spec fn candidates_view(v: Seq<ReviewCandidate>) -> Seq<CandidateView> {
    v.map_values(|c: ReviewCandidate| c@)
}

pub open spec fn opt_strings_view(o: Option<Vec<String>>) -> Option<Seq<Seq<char>>> {
    match o {
        Some(v) => Some(strings_view(v@)),
        None => None,
    }
}

#[derive(Debug, PartialEq, Eq)]
pub struct ReviewPanelState {
    pub context: ReviewContext,
    /// The candidate under review: the one in the selected slot.
    pub candidate: ReviewCandidate,
    pub candidates: Vec<ReviewCandidate>,
    pub candidate_contexts: Vec<ReviewContext>,
    pub selected_candidate: usize,
    pub focus: FocusRegion,
    pub flow_stage: usize,
    pub candidate_cursor: usize,
    pub action_cursor: usize,
    pub input_mode: PanelInputMode,
    /// The detailed card view is shown.
    pub details: bool,
    /// The panel only explains a command; it offers no decision.
    pub explain_only: bool,
    pub intent_history: Vec<String>,
    pub configured_model: String,
    pub model_selection: Option<Vec<String>>,
    pub model_cursor: usize,
    pub pending_model: Option<String>,
    pub pending_operation: Option<ReviewOperation>,
    pub editor_buffer: String,
    pub editor_original: String,
}

impl ReviewPanelState {
    pub open spec fn contexts(&self) -> Seq<ContextView> {
        contexts_view(self.candidate_contexts@)
    }

    pub open spec fn history(&self) -> Seq<Seq<char>> {
        strings_view(self.intent_history@)
    }

    pub open spec fn configured(&self) -> Seq<char> {
        self.configured_model@
    }

    pub open spec fn selection(&self) -> Option<Seq<Seq<char>>> {
        opt_strings_view(self.model_selection)
    }

    pub open spec fn selection_cursor(&self) -> usize {
        self.model_cursor
    }

    pub open spec fn pending_model_view(&self) -> Option<Seq<char>> {
        opt_view(self.pending_model)
    }

    pub open spec fn operation(&self) -> Option<ReviewOperation> {
        self.pending_operation
    }

    pub open spec fn buffer(&self) -> Seq<char> {
        self.editor_buffer@
    }

    pub open spec fn original(&self) -> Seq<char> {
        self.editor_original@
    }

    /// The state's own invariant: one context per candidate slot, a selected
    /// slot within range, and the candidate under review equal to the
    /// selected slot.
    pub open spec fn wf(&self) -> bool {
        &&& self.candidates@.len() >= 1
        &&& self.contexts().len() == self.candidates@.len()
        &&& self.selected_candidate < self.candidates@.len()
        &&& self.candidates@[self.selected_candidate as int]@ == self.candidate@
    }

    /// The action cursor names one of the actions.
    pub open spec fn action_in_range(&self) -> bool {
        self.action_cursor < ACTION_COUNT
    }

    /// Everything but the slots, the selection and the cursors is unchanged.
    pub open spec fn same_settings(&self, other: &Self) -> bool {
        &&& self.context@ == other.context@
        &&& self.focus == other.focus
        &&& self.action_cursor == other.action_cursor
        &&& self.input_mode == other.input_mode
        &&& self.details == other.details
        &&& self.explain_only == other.explain_only
        &&& self.history() == other.history()
        &&& self.configured() == other.configured()
        &&& self.selection() == other.selection()
        &&& self.selection_cursor() == other.selection_cursor()
        &&& self.pending_model_view() == other.pending_model_view()
        &&& self.operation() == other.operation()
        &&& self.buffer() == other.buffer()
        &&& self.original() == other.original()
    }

    pub fn new(context: ReviewContext, candidate: ReviewCandidate) -> (s: Self)
        ensures
            s.wf(),
            s.context@ == context@,
            s.candidate@ == candidate@,
            candidates_view(s.candidates@) == seq![candidate@],
            s.contexts() == seq![context@],
            s.selected_candidate == 0,
            s.focus == FocusRegion::Actions,
            s.flow_stage == 0,
            s.candidate_cursor == 0,
            s.action_cursor == 0,
            s.input_mode == PanelInputMode::Review,
            !s.details,
            !s.explain_only,
            s.history() == Seq::<Seq<char>>::empty(),
            s.configured() == context@.model,
            s.selection() is None,
            s.pending_model_view() is None,
            s.operation() is None,
            s.buffer() == Seq::<char>::empty(),
            s.original() == Seq::<char>::empty(),
    {
        let slot = candidate.clone();
        let mut candidates: Vec<ReviewCandidate> = Vec::new();
        candidates.push(slot);
        let mut candidate_contexts: Vec<ReviewContext> = Vec::new();
        candidate_contexts.push(context.clone());
        let configured_model = context.model.clone();
        let s = ReviewPanelState {
            configured_model,
            context,
            candidate,
            candidates,
            candidate_contexts,
            selected_candidate: 0,
            // Actions is the release gate and the initial decision point.
            focus: FocusRegion::Actions,
            flow_stage: 0,
            candidate_cursor: 0,
            action_cursor: 0,
            input_mode: PanelInputMode::Review,
            details: false,
            explain_only: false,
            intent_history: Vec::new(),
            model_selection: None,
            model_cursor: 0,
            pending_model: None,
            pending_operation: None,
            editor_buffer: String::new(),
            editor_original: String::new(),
        };
        assert(candidates_view(s.candidates@) =~= seq![s.candidate@]);
        assert(s.contexts() =~= seq![s.context@]);
        assert(s.history() =~= Seq::<Seq<char>>::empty());
        s
    }

    pub fn configured_model(&self) -> (s: &str)
        ensures
            s@ == self.configured(),
    {
        self.configured_model.as_str()
    }

    pub fn model_selection(&self) -> (r: Option<&[String]>)
        ensures
            match r {
                Some(v) => self.selection() == Some(strings_view(v@)),
                None => self.selection() is None,
            },
    {
        match &self.model_selection {
            Some(v) => Some(v.as_slice()),
            None => None,
        }
    }

    /// At the highest configured tier, a higher-tier request opens the explicit
    /// provider catalog selection instead of generating.
    pub fn open_model_selection(&mut self, models: Vec<String>)
        ensures
            final(self).selection() == Some(strings_view(models@)),
            final(self).selection_cursor() == 0,
            final(self).candidate@ == old(self).candidate@,
            candidates_view(final(self).candidates@) == candidates_view(old(self).candidates@),
            final(self).contexts() == old(self).contexts(),
            final(self).selected_candidate == old(self).selected_candidate,
            final(self).candidate_cursor == old(self).candidate_cursor,
            final(self).action_cursor == old(self).action_cursor,
            final(self).flow_stage == old(self).flow_stage,
            final(self).context@ == old(self).context@,
            final(self).pending_model_view() == old(self).pending_model_view(),
            final(self).operation() == old(self).operation(),
    {
        self.model_cursor = 0;
        self.model_selection = Some(models);
    }

    /// Applies the selected model to the next candidate only. The configured
    /// model is restored once that candidate cycle completes.
    pub fn select_model(&mut self, model: &str, candidate: ReviewCandidate)
        requires
            old(self).wf(),
        ensures
            final(self).wf(),
            final(self).pending_model_view() == Some(model@),
            final(self).context@.model == model@,
            final(self).context@.intent == old(self).context@.intent,
            final(self).context@.tier == old(self).context@.tier,
            final(self).context@.provider == old(self).context@.provider,
            final(self).selection() is None,
            final(self).configured() == old(self).configured(),
            final(self).candidate@ == candidate@,
            candidates_view(final(self).candidates@) == candidates_view(old(self).candidates@).update(
                old(self).selected_candidate as int,
                candidate@,
            ),
            final(self).contexts() == old(self).contexts().update(
                old(self).selected_candidate as int,
                final(self).context@,
            ),
            final(self).selected_candidate == old(self).selected_candidate,
            final(self).candidate_cursor == old(self).selected_candidate,
            final(self).flow_stage == 0,
    {
        self.pending_model = Some(String::from_str(model));
        self.context.model = String::from_str(model);
        self.model_selection = None;
        self.replace_current(candidate);
    }

    pub fn complete_model_selection(&mut self)
        ensures
            final(self).pending_model_view() is None,
            old(self).pending_model_view() is Some ==> final(self).context@.model
                == old(self).configured(),
            old(self).pending_model_view() is None ==> final(self).context@.model
                == old(self).context@.model,
            final(self).context@.intent == old(self).context@.intent,
            final(self).context@.tier == old(self).context@.tier,
            final(self).context@.provider == old(self).context@.provider,
            final(self).configured() == old(self).configured(),
            final(self).candidate@ == old(self).candidate@,
            candidates_view(final(self).candidates@) == candidates_view(old(self).candidates@),
            final(self).contexts() == old(self).contexts(),
            final(self).selected_candidate == old(self).selected_candidate,
            final(self).candidate_cursor == old(self).candidate_cursor,
            final(self).action_cursor == old(self).action_cursor,
            final(self)@ == model_selection_completed(old(self)@),
    {
        let had = self.pending_model.is_some();
        self.pending_model = None;
        if had {
            self.context.model = self.configured_model.clone();
        }
    }

    pub fn begin_operation(&mut self, operation: ReviewOperation)
        ensures
            final(self).operation() == Some(operation),
            final(self).same_settings_but_operation(old(self)),
            final(self).candidate@ == old(self).candidate@,
            candidates_view(final(self).candidates@) == candidates_view(old(self).candidates@),
            final(self).contexts() == old(self).contexts(),
            final(self).selected_candidate == old(self).selected_candidate,
            final(self).candidate_cursor == old(self).candidate_cursor,
            final(self).flow_stage == old(self).flow_stage,
    {
        self.pending_operation = Some(operation);
    }

    pub fn pending_operation(&self) -> (r: Option<ReviewOperation>)
        ensures
            r == self.operation(),
    {
        self.pending_operation
    }

    /// Only the in-progress operation is cancelled; candidate and review state
    /// are preserved.
    pub fn interrupt_operation(&mut self) -> (r: Option<ReviewOperation>)
        ensures
            r == old(self).operation(),
            final(self).operation() is None,
            final(self).same_settings_but_operation(old(self)),
            final(self).candidate@ == old(self).candidate@,
            candidates_view(final(self).candidates@) == candidates_view(old(self).candidates@),
            final(self).contexts() == old(self).contexts(),
            final(self).selected_candidate == old(self).selected_candidate,
            final(self).candidate_cursor == old(self).candidate_cursor,
            final(self).flow_stage == old(self).flow_stage,
    {
        let r = self.pending_operation;
        self.pending_operation = None;
        r
    }

    /// Everything but the pending operation is unchanged.
    pub open spec fn same_settings_but_operation(&self, other: &Self) -> bool {
        &&& self.context@ == other.context@
        &&& self.focus == other.focus
        &&& self.action_cursor == other.action_cursor
        &&& self.input_mode == other.input_mode
        &&& self.details == other.details
        &&& self.explain_only == other.explain_only
        &&& self.history() == other.history()
        &&& self.configured() == other.configured()
        &&& self.selection() == other.selection()
        &&& self.selection_cursor() == other.selection_cursor()
        &&& self.pending_model_view() == other.pending_model_view()
        &&& self.buffer() == other.buffer()
        &&& self.original() == other.original()
    }

    pub fn candidate(&self) -> (c: &ReviewCandidate)
        ensures
            c@ == self.candidate@,
    {
        &self.candidate
    }

    pub fn intent_history(&self) -> (h: &[String])
        ensures
            strings_view(h@) == self.history(),
    {
        self.intent_history.as_slice()
    }

    /// Rephrasing replaces the visible active Intent and starts a new candidate
    /// cycle. The prior Intent remains only in current-review history.
    pub fn rephrase_intent(&mut self, intent: &str)
        requires
            old(self).wf(),
        ensures
            final(self).wf(),
            final(self).history() == old(self).history().push(old(self).context@.intent),
            final(self).context@.intent == intent@,
            final(self).context@.tier == old(self).context@.tier,
            final(self).context@.provider == old(self).context@.provider,
            final(self).context@.model == old(self).context@.model,
            final(self).selected_candidate == 0,
            final(self).candidate_cursor == 0,
            final(self).flow_stage == 0,
            final(self).candidate@ == old(self).candidates@[0]@,
            candidates_view(final(self).candidates@) == candidates_view(old(self).candidates@),
            final(self).contexts() == old(self).contexts(),
    {
        let previous = self.context.intent.clone();
        let ghost before = self.intent_history@;
        self.intent_history.push(previous);
        assert(strings_view(self.intent_history@) =~= strings_view(before).push(
            old(self).context@.intent,
        ));
        self.context.intent = String::from_str(intent);
        self.selected_candidate = 0;
        self.candidate_cursor = 0;
        self.flow_stage = 0;
        self.candidate = self.candidates[0].clone();
    }

    /// Regeneration and escalation replace the current candidate by default.
    pub fn replace_current(&mut self, candidate: ReviewCandidate)
        requires
            old(self).wf(),
        ensures
            final(self).wf(),
            final(self).candidate@ == candidate@,
            candidates_view(final(self).candidates@) == candidates_view(old(self).candidates@).update(
                old(self).selected_candidate as int,
                candidate@,
            ),
            final(self).contexts() == old(self).contexts().update(
                old(self).selected_candidate as int,
                old(self).context@,
            ),
            final(self).selected_candidate == old(self).selected_candidate,
            final(self).candidate_cursor == old(self).selected_candidate,
            final(self).flow_stage == 0,
            final(self).same_settings(old(self)),
    {
        let sel = self.selected_candidate;
        let ghost cs = self.candidates@;
        let ghost xs = self.candidate_contexts@;
        let slot = candidate.clone();
        self.candidates.set(sel, slot);
        let context = self.context.clone();
        self.candidate_contexts.set(sel, context);
        assert(candidates_view(self.candidates@) =~= candidates_view(cs).update(
            sel as int,
            candidate@,
        ));
        assert(contexts_view(self.candidate_contexts@) =~= contexts_view(xs).update(
            sel as int,
            old(self).context@,
        ));
        self.candidate = candidate;
        self.flow_stage = 0;
        self.candidate_cursor = sel;
    }

    /// Higher-tier escalation generates a candidate in the next tier context
    /// while preserving the current intent.
    pub fn escalate(&mut self, context: ReviewContext, candidate: ReviewCandidate)
        requires
            old(self).wf(),
        ensures
            final(self).wf(),
            final(self).context@ == escalated(old(self).context@, context@),
            final(self).candidate@ == candidate@,
            candidates_view(final(self).candidates@) == candidates_view(old(self).candidates@).update(
                old(self).selected_candidate as int,
                candidate@,
            ),
            final(self).contexts() == old(self).contexts().update(
                old(self).selected_candidate as int,
                escalated(old(self).context@, context@),
            ),
            final(self).selected_candidate == old(self).selected_candidate,
            final(self).flow_stage == 0,
    {
        let intent = self.context.intent.clone();
        self.context = ReviewContext {
            intent,
            tier: context.tier,
            provider: context.provider,
            model: context.model,
        };
        self.replace_current(candidate);
    }

    /// Explicit comparison retention keeps the current candidate in history.
    pub fn retain_current(&mut self)
        requires
            old(self).wf(),
        ensures
            final(self).wf(),
            candidates_view(final(self).candidates@) == candidates_view(old(self).candidates@).push(
                old(self).candidate@,
            ),
            final(self).contexts() == old(self).contexts().push(old(self).context@),
            final(self).candidate@ == old(self).candidate@,
            final(self).selected_candidate == old(self).selected_candidate,
            final(self).candidate_cursor == old(self).candidate_cursor,
            final(self).flow_stage == old(self).flow_stage,
            final(self).same_settings(old(self)),
    {
        let retained = self.candidate.clone();
        let retained_context = self.context.clone();
        let ghost cs = self.candidates@;
        let ghost xs = self.candidate_contexts@;
        self.candidates.push(retained);
        self.candidate_contexts.push(retained_context);
        assert(candidates_view(self.candidates@) =~= candidates_view(cs).push(old(self).candidate@));
        assert(contexts_view(self.candidate_contexts@) =~= contexts_view(xs).push(
            old(self).context@,
        ));
        assert(self.candidates@[self.selected_candidate as int] == cs[self.selected_candidate as int]);
    }

    pub fn select_candidate(&mut self, index: usize)
        requires
            old(self).wf(),
        ensures
            final(self).wf(),
            final(self).selected_candidate == (if index < old(self).candidates@.len() {
                index as int
            } else {
                old(self).candidates@.len() - 1
            }),
            final(self).candidate_cursor == final(self).selected_candidate,
            final(self).flow_stage == 0,
            final(self).candidate@ == old(self).candidates@[final(self).selected_candidate as int]@,
            candidates_view(final(self).candidates@) == candidates_view(old(self).candidates@),
            final(self).contexts() == old(self).contexts(),
            final(self).same_settings(old(self)),
    {
        let last = self.candidates.len() - 1;
        let sel = if index < last {
            index
        } else {
            last
        };
        self.selected_candidate = sel;
        self.candidate_cursor = sel;
        self.flow_stage = 0;
        self.candidate = self.candidates[sel].clone();
    }

    pub fn selected_action(&self) -> (a: PanelAction)
        requires
            self.action_cursor < ACTION_COUNT,
        ensures
            a == action_at(self.action_cursor as int),
    {
        PanelAction::at(self.action_cursor)
    }

    pub fn editor_buffer(&self) -> (r: Option<&str>)
        ensures
            match r {
                Some(s) => self.input_mode == PanelInputMode::CommandEditor && s@ == self.buffer(),
                None => self.input_mode != PanelInputMode::CommandEditor,
            },
    {
        if self.input_mode == PanelInputMode::CommandEditor {
            Some(self.editor_buffer.as_str())
        } else {
            None
        }
    }
}


/// The whole panel state as values.
pub struct PanelView {
    pub context: ContextView,
    pub candidate: CandidateView,
    pub candidates: Seq<CandidateView>,
    pub contexts: Seq<ContextView>,
    pub selected: usize,
    pub focus: FocusRegion,
    pub flow_stage: usize,
    pub candidate_cursor: usize,
    pub action_cursor: usize,
    pub input_mode: PanelInputMode,
    pub details: bool,
    pub explain_only: bool,
    pub history: Seq<Seq<char>>,
    pub configured: Seq<char>,
    pub selection: Option<Seq<Seq<char>>>,
    pub model_cursor: usize,
    pub pending_model: Option<Seq<char>>,
    pub operation: Option<ReviewOperation>,
    pub buffer: Seq<char>,
    pub original: Seq<char>,
}

impl View for ReviewPanelState {
    type V = PanelView;

    open spec fn view(&self) -> PanelView {
        PanelView {
            context: self.context@,
            candidate: self.candidate@,
            candidates: candidates_view(self.candidates@),
            contexts: self.contexts(),
            selected: self.selected_candidate,
            focus: self.focus,
            flow_stage: self.flow_stage,
            candidate_cursor: self.candidate_cursor,
            action_cursor: self.action_cursor,
            input_mode: self.input_mode,
            details: self.details,
            explain_only: self.explain_only,
            history: self.history(),
            configured: self.configured(),
            selection: self.selection(),
            model_cursor: self.model_cursor,
            pending_model: self.pending_model_view(),
            operation: self.operation(),
            buffer: self.buffer(),
            original: self.original(),
        }
    }
}

pub enum PanelOutcomeView {
    Continue,
    Accepted(CandidateView),
    Cancelled,
    EditCommitted(Seq<char>),
    EditDiscarded,
    Rejected,
}

impl View for PanelOutcome {
    type V = PanelOutcomeView;

    open spec fn view(&self) -> PanelOutcomeView {
        match self {
            PanelOutcome::Continue => PanelOutcomeView::Continue,
            PanelOutcome::Accepted(c) => PanelOutcomeView::Accepted(c@),
            PanelOutcome::Cancelled => PanelOutcomeView::Cancelled,
            PanelOutcome::EditCommitted(s) => PanelOutcomeView::EditCommitted(s@),
            PanelOutcome::EditDiscarded => PanelOutcomeView::EditDiscarded,
            PanelOutcome::Rejected => PanelOutcomeView::Rejected,
        }
    }
}

/// The panel once the model chosen for one candidate is given up: the
/// configured model is back when one was pending, and nothing else changes.
pub open spec fn model_selection_completed(v: PanelView) -> PanelView {
    PanelView {
        pending_model: None,
        context: ContextView {
            model: if v.pending_model is Some {
                v.configured
            } else {
                v.context.model
            },
            ..v.context
        },
        ..v
    }
}

/// Completing a model selection a second time changes nothing more.
pub proof fn completing_twice_changes_nothing(v: PanelView)
    ensures
        model_selection_completed(model_selection_completed(v)) == model_selection_completed(v),
{
}


/// The panel after an arrow key moves the cursor of the focused region.
pub open spec fn moved_selection(v: PanelView, delta: int) -> PanelView {
    match v.focus {
        FocusRegion::Flow => PanelView {
            flow_stage: moved(v.flow_stage as int, delta, v.candidate.flow.len() as int) as usize,
            ..v
        },
        FocusRegion::Candidates => PanelView {
            candidate_cursor: moved(v.candidate_cursor as int, delta, v.candidates.len() as int) as usize,
            ..v
        },
        FocusRegion::Actions => PanelView {
            action_cursor: moved(v.action_cursor as int, delta, ACTION_COUNT as int) as usize,
            ..v
        },
    }
}

pub open spec fn min_int(a: int, b: int) -> int {
    if a < b {
        a
    } else {
        b
    }
}

/// The panel after Enter in review mode.
pub open spec fn activated(v: PanelView) -> (PanelView, PanelOutcomeView) {
    match v.focus {
        FocusRegion::Actions => match action_at(v.action_cursor as int) {
            PanelAction::Accept => (v, PanelOutcomeView::Accepted(v.candidate)),
            PanelAction::EditCommand => (
                PanelView {
                    original: v.candidate.command,
                    buffer: v.candidate.command,
                    input_mode: PanelInputMode::CommandEditor,
                    ..v
                },
                PanelOutcomeView::Continue,
            ),
            PanelAction::Reject => (v, PanelOutcomeView::Rejected),
            PanelAction::Cancel => (v, PanelOutcomeView::Cancelled),
        },
        FocusRegion::Candidates => {
            let sel = min_int(v.candidate_cursor as int, v.candidates.len() - 1);
            let c = v.candidates[sel];
            let last = if c.flow.len() == 0 {
                0
            } else {
                c.flow.len() - 1
            };
            (
                PanelView {
                    selected: sel as usize,
                    candidate: c,
                    flow_stage: min_int(v.flow_stage as int, last) as usize,
                    ..v
                },
                PanelOutcomeView::Continue,
            )
        },
        FocusRegion::Flow => (v, PanelOutcomeView::Continue),
    }
}

/// The panel after a key press in review mode.
pub open spec fn review_key(v: PanelView, key: PanelKey) -> (PanelView, PanelOutcomeView) {
    if (key.code == KeyInput::Tab && key.shift) || key.code == KeyInput::BackTab {
        (PanelView { focus: focus_previous(v.focus), ..v }, PanelOutcomeView::Continue)
    } else {
        match key.code {
            KeyInput::Tab => (PanelView { focus: focus_next(v.focus), ..v }, PanelOutcomeView::Continue),
            KeyInput::Esc => (v, PanelOutcomeView::Cancelled),
            KeyInput::Up => (moved_selection(v, -1), PanelOutcomeView::Continue),
            KeyInput::Down => (moved_selection(v, 1), PanelOutcomeView::Continue),
            KeyInput::Enter => activated(v),
            _ => (v, PanelOutcomeView::Continue),
        }
    }
}

/// The panel after a key press in the command editor.
pub open spec fn editor_key(v: PanelView, key: PanelKey) -> (PanelView, PanelOutcomeView) {
    match key.code {
        KeyInput::Esc => (
            PanelView { buffer: v.original, input_mode: PanelInputMode::Review, ..v },
            PanelOutcomeView::EditDiscarded,
        ),
        KeyInput::Enter => {
            let edited = crate::review::response::fresh(
                v.buffer,
                crate::review::response::next_generation(v.candidate.generation),
            );
            (
                PanelView {
                    candidate: edited,
                    candidates: v.candidates.update(v.selected as int, edited),
                    input_mode: PanelInputMode::Review,
                    original: Seq::empty(),
                    ..v
                },
                PanelOutcomeView::EditCommitted(v.buffer),
            )
        },
        KeyInput::Backspace => (
            PanelView {
                buffer: if v.buffer.len() == 0 {
                    v.buffer
                } else {
                    v.buffer.drop_last()
                },
                ..v
            },
            PanelOutcomeView::Continue,
        ),
        KeyInput::Char(c) => if !key.control && !key.alt {
            (PanelView { buffer: v.buffer.push(c), ..v }, PanelOutcomeView::Continue)
        } else {
            (v, PanelOutcomeView::Continue)
        },
        _ => (v, PanelOutcomeView::Continue),
    }
}

/// The panel after a key event.
pub open spec fn panel_key(v: PanelView, key: PanelKey) -> (PanelView, PanelOutcomeView) {
    if !key.press {
        (v, PanelOutcomeView::Continue)
    } else if v.input_mode == PanelInputMode::CommandEditor {
        editor_key(v, key)
    } else {
        review_key(v, key)
    }
}

/// In review mode, Up moves the cursor of the focused region one entry back
/// and Down one entry forward, each stopping at the first and last entry;
/// the other cursors stay where they are.
pub proof fn arrows_step_the_focused_cursor(v: PanelView, key: PanelKey)
    requires
        key.press,
        v.input_mode == PanelInputMode::Review,
        key.code == KeyInput::Up || key.code == KeyInput::Down,
    ensures
        ({
            let (w, out) = panel_key(v, key);
            let up = key.code == KeyInput::Up;
            let stages = v.candidate.flow.len() as int;
            let slots = v.candidates.len() as int;
            &&& out == PanelOutcomeView::Continue
            &&& w.focus == v.focus
            &&& v.focus == FocusRegion::Flow ==> {
                &&& up && 0 < v.flow_stage < stages ==> w.flow_stage == v.flow_stage - 1
                &&& up && v.flow_stage == 0 && stages > 0 ==> w.flow_stage == 0
                &&& !up && v.flow_stage + 1 < stages && v.flow_stage < usize::MAX ==> w.flow_stage == v.flow_stage + 1
                &&& !up && v.flow_stage + 1 == stages ==> w.flow_stage == v.flow_stage
                &&& w.candidate_cursor == v.candidate_cursor && w.action_cursor == v.action_cursor
            }
            &&& v.focus == FocusRegion::Candidates ==> {
                &&& up && 0 < v.candidate_cursor < slots ==> w.candidate_cursor == v.candidate_cursor - 1
                &&& up && v.candidate_cursor == 0 && slots > 0 ==> w.candidate_cursor == 0
                &&& !up && v.candidate_cursor + 1 < slots && v.candidate_cursor < usize::MAX ==> w.candidate_cursor == v.candidate_cursor + 1
                &&& !up && v.candidate_cursor + 1 == slots ==> w.candidate_cursor == v.candidate_cursor
                &&& w.flow_stage == v.flow_stage && w.action_cursor == v.action_cursor
            }
            &&& v.focus == FocusRegion::Actions ==> {
                &&& up && 0 < v.action_cursor < ACTION_COUNT ==> w.action_cursor == v.action_cursor - 1
                &&& up && v.action_cursor == 0 ==> w.action_cursor == 0
                &&& !up && v.action_cursor + 1 < ACTION_COUNT ==> w.action_cursor == v.action_cursor + 1
                &&& !up && v.action_cursor + 1 == ACTION_COUNT ==> w.action_cursor == v.action_cursor
                &&& w.flow_stage == v.flow_stage && w.candidate_cursor == v.candidate_cursor
            }
        }),
{
}

/// Away from the ends, Up undoes Down and Down undoes Up.
pub proof fn up_and_down_undo_each_other(v: PanelView, up: PanelKey, down: PanelKey)
    requires
        up.press && down.press,
        up.code == KeyInput::Up,
        down.code == KeyInput::Down,
        v.input_mode == PanelInputMode::Review,
        v.focus == FocusRegion::Flow,
        0 < v.flow_stage < usize::MAX,
        v.flow_stage + 1 < v.candidate.flow.len(),
    ensures
        panel_key(panel_key(v, up).0, down).0 == v,
        panel_key(panel_key(v, down).0, up).0 == v,
{
    arrows_step_the_focused_cursor(v, up);
    arrows_step_the_focused_cursor(v, down);
    let a = panel_key(v, up).0;
    let b = panel_key(v, down).0;
    arrows_step_the_focused_cursor(a, down);
    arrows_step_the_focused_cursor(b, up);
}

/// The invariant of the state, over its view.
pub open spec fn view_wf(v: PanelView) -> bool {
    &&& v.candidates.len() >= 1
    &&& v.contexts.len() == v.candidates.len()
    &&& v.selected < v.candidates.len()
    &&& v.candidates[v.selected as int] == v.candidate
}

/// Both cursors name an existing candidate and action.
pub open spec fn cursors_in_range(v: PanelView) -> bool {
    v.candidate_cursor < v.candidates.len() && v.action_cursor < ACTION_COUNT
}

/// Every key event keeps the panel's invariant: the candidate under review
/// stays the selected slot and one context per slot; cursors within range
/// stay within range.
pub proof fn keys_keep_the_panel_well_formed(v: PanelView, key: PanelKey)
    requires
        view_wf(v),
    ensures
        view_wf(panel_key(v, key).0),
        cursors_in_range(v) ==> cursors_in_range(panel_key(v, key).0),
{
}

/// Nothing is accepted while the command editor is open, and a key that is
/// not a press changes nothing.
pub proof fn editor_never_accepts(v: PanelView, key: PanelKey)
    ensures
        v.input_mode == PanelInputMode::CommandEditor ==> !(panel_key(v, key).1 is Accepted),
        !key.press ==> panel_key(v, key) == (v, PanelOutcomeView::Continue),
{
}

impl ReviewPanelState {
    pub proof fn lemma_wf_view(&self)
        ensures
            self.wf() == view_wf(self@),
    {
    }

    pub fn handle_key(&mut self, key: PanelKey) -> (r: PanelOutcome)
        requires
            old(self).wf(),
            old(self).action_in_range(),
        ensures
            final(self).wf(),
            final(self).action_in_range(),
            (final(self)@, r@) == panel_key(old(self)@, key),
    {
        if !key.press {
            return PanelOutcome::Continue;
        }
        if self.input_mode == PanelInputMode::CommandEditor {
            return self.handle_editor_key(key);
        }
        self.handle_review_key(key)
    }

    fn handle_review_key(&mut self, key: PanelKey) -> (r: PanelOutcome)
        requires
            old(self).wf(),
            old(self).action_in_range(),
        ensures
            final(self).wf(),
            final(self).action_in_range(),
            (final(self)@, r@) == review_key(old(self)@, key),
    {
        if (key.code == KeyInput::Tab && key.shift) || key.code == KeyInput::BackTab {
            self.focus = self.focus.previous();
            return PanelOutcome::Continue;
        }
        match key.code {
            KeyInput::Tab => {
                self.focus = self.focus.next();
            },
            KeyInput::Esc => return PanelOutcome::Cancelled,
            KeyInput::Up => self.move_selection(-1),
            KeyInput::Down => self.move_selection(1),
            KeyInput::Enter => return self.activate_selection(),
            _ => {},
        }
        PanelOutcome::Continue
    }

    fn handle_editor_key(&mut self, key: PanelKey) -> (r: PanelOutcome)
        requires
            old(self).wf(),
        ensures
            final(self).wf(),
            (final(self)@, r@) == editor_key(old(self)@, key),
    {
        match key.code {
            KeyInput::Esc => {
                self.input_mode = PanelInputMode::Review;
                self.editor_buffer = self.editor_original.clone();
                PanelOutcome::EditDiscarded
            },
            KeyInput::Enter => {
                let command = self.editor_buffer.clone();
                let sel = self.selected_candidate;
                let ghost cs = self.candidates@;
                self.candidate.edit_command(command.as_str());
                let slot = self.candidate.clone();
                self.candidates.set(sel, slot);
                assert(candidates_view(self.candidates@) =~= candidates_view(cs).update(
                    sel as int,
                    self.candidate@,
                ));
                self.input_mode = PanelInputMode::Review;
                self.editor_original = String::new();
                PanelOutcome::EditCommitted(command)
            },
            KeyInput::Backspace => {
                let chars = chars_of(self.editor_buffer.as_str());
                if chars.len() > 0 {
                    self.editor_buffer = string_from(chars.as_slice(), 0, chars.len() - 1);
                    assert(chars@.subrange(0, chars@.len() - 1) =~= chars@.drop_last());
                }
                PanelOutcome::Continue
            },
            KeyInput::Char(character) => {
                if !key.control && !key.alt {
                    push_char(&mut self.editor_buffer, character);
                }
                PanelOutcome::Continue
            },
            _ => PanelOutcome::Continue,
        }
    }

    fn activate_selection(&mut self) -> (r: PanelOutcome)
        requires
            old(self).wf(),
            old(self).action_in_range(),
        ensures
            final(self).wf(),
            final(self).action_in_range(),
            (final(self)@, r@) == activated(old(self)@),
    {
        match self.focus {
            FocusRegion::Actions => match self.selected_action() {
                PanelAction::Accept => PanelOutcome::Accepted(self.candidate.clone()),
                PanelAction::EditCommand => {
                    self.editor_original = self.candidate.command.clone();
                    self.editor_buffer = self.editor_original.clone();
                    self.input_mode = PanelInputMode::CommandEditor;
                    PanelOutcome::Continue
                },
                PanelAction::Reject => PanelOutcome::Rejected,
                PanelAction::Cancel => PanelOutcome::Cancelled,
            },
            FocusRegion::Candidates => {
                let last = self.candidates.len() - 1;
                let sel = if self.candidate_cursor < last {
                    self.candidate_cursor
                } else {
                    last
                };
                self.selected_candidate = sel;
                self.candidate = self.candidates[sel].clone();
                let stages = self.candidate.flow.stages.len();
                let top = if stages == 0 {
                    0
                } else {
                    stages - 1
                };
                if self.flow_stage > top {
                    self.flow_stage = top;
                }
                PanelOutcome::Continue
            },
            FocusRegion::Flow => PanelOutcome::Continue,
        }
    }

    fn move_selection(&mut self, delta: isize)
        requires
            old(self).wf(),
            old(self).action_in_range(),
        ensures
            final(self).wf(),
            final(self).action_in_range(),
            final(self)@ == moved_selection(old(self)@, delta as int),
    {
        match self.focus {
            FocusRegion::Flow => {
                let len = self.candidate.flow.stages.len();
                self.flow_stage = move_cursor(self.flow_stage, delta, len);
            },
            FocusRegion::Candidates => {
                self.candidate_cursor = move_cursor(self.candidate_cursor, delta, self.candidates.len());
            },
            FocusRegion::Actions => {
                self.action_cursor = move_cursor(self.action_cursor, delta, ACTION_COUNT);
            },
        }
    }
}


// ---------------------------------------------------------------------------
// Terminal text
// ---------------------------------------------------------------------------

/// Where the sanitizer stands inside an escape sequence.
#[derive(Debug, Clone, Copy, PartialEq, Eq, Structural)]
pub enum EscapeState {
    Normal,
    Esc,
    Csi,
    Osc,
    OscEsc,
}

/// `char::is_control`: the C0 and C1 control characters.
pub open spec fn is_control_char(c: char) -> bool {
    (c as u32) <= 0x1f || (0x7f <= (c as u32) && (c as u32) <= 0x9f)
}

/// One character of input: the next state and what is written.
pub open spec fn escape_step(st: EscapeState, c: char) -> (EscapeState, Seq<char>) {
    match st {
        EscapeState::Normal => if c == '\u{1b}' {
            (EscapeState::Esc, seq![])
        } else if is_control_char(c) && c != '\n' && c != '\r' && c != '\t' {
            (EscapeState::Normal, seq!['?'])
        } else {
            (EscapeState::Normal, seq![c])
        },
        EscapeState::Esc => (
            if c == '[' {
                EscapeState::Csi
            } else if c == ']' {
                EscapeState::Osc
            } else {
                EscapeState::Normal
            },
            seq![],
        ),
        EscapeState::Csi => (
            if '@' <= c && c <= '~' {
                EscapeState::Normal
            } else {
                EscapeState::Csi
            },
            seq![],
        ),
        EscapeState::Osc => (
            if c == '\u{7}' {
                EscapeState::Normal
            } else if c == '\u{1b}' {
                EscapeState::OscEsc
            } else {
                EscapeState::Osc
            },
            seq![],
        ),
        EscapeState::OscEsc => (
            if c == '\\' {
                EscapeState::Normal
            } else {
                EscapeState::Osc
            },
            seq![],
        ),
    }
}

/// The state after `s` and the text written for it.
pub open spec fn sanitize_run(s: Seq<char>) -> (EscapeState, Seq<char>)
    decreases s.len(),
{
    if s.len() == 0 {
        (EscapeState::Normal, seq![])
    } else {
        let before = sanitize_run(s.drop_last());
        let step = escape_step(before.0, s.last());
        (step.0, before.1 + step.1)
    }
}

pub open spec fn sanitized(s: Seq<char>) -> Seq<char> {
    sanitize_run(s).1
}

/// A character that may reach the terminal: no escape, and no control
/// character but line feed, carriage return and tab.
pub open spec fn terminal_safe(c: char) -> bool {
    c != '\u{1b}' && (!is_control_char(c) || c == '\n' || c == '\r' || c == '\t')
}

fn escape_next(st: EscapeState, c: char) -> (r: (EscapeState, Option<char>))
    ensures
        r.0 == escape_step(st, c).0,
        escape_step(st, c).1 == match r.1 {
            Some(x) => seq![x],
            None => Seq::<char>::empty(),
        },
{
    match st {
        EscapeState::Normal => {
            let v = c as u32;
            if c == '\u{1b}' {
                (EscapeState::Esc, None)
            } else if (v <= 0x1f || (0x7f <= v && v <= 0x9f)) && c != '\n' && c != '\r' && c != '\t' {
                (EscapeState::Normal, Some('?'))
            } else {
                (EscapeState::Normal, Some(c))
            }
        },
        EscapeState::Esc => (
            if c == '[' {
                EscapeState::Csi
            } else if c == ']' {
                EscapeState::Osc
            } else {
                EscapeState::Normal
            },
            None,
        ),
        EscapeState::Csi => (
            if '@' <= c && c <= '~' {
                EscapeState::Normal
            } else {
                EscapeState::Csi
            },
            None,
        ),
        EscapeState::Osc => (
            if c == '\u{7}' {
                EscapeState::Normal
            } else if c == '\u{1b}' {
                EscapeState::OscEsc
            } else {
                EscapeState::Osc
            },
            None,
        ),
        EscapeState::OscEsc => (
            if c == '\\' {
                EscapeState::Normal
            } else {
                EscapeState::Osc
            },
            None,
        ),
    }
}

/// Remove terminal escape sequences (CSI and OSC included) and replace other
/// control characters but line feed, carriage return and tab with `?`.
pub fn sanitize_terminal_text(value: &str) -> (r: String)
    ensures
        r@ == sanitized(value@),
{
    let chars = chars_of(value);
    let mut out = String::new();
    let mut state = EscapeState::Normal;
    let mut k: usize = 0;
    while k < chars.len()
        invariant
            k <= chars@.len(),
            chars@ == value@,
            (state, out@) == sanitize_run(chars@.take(k as int)),
        decreases chars@.len() - k,
    {
        let ghost prefix = chars@.take(k as int);
        assert(chars@.take(k + 1).drop_last() =~= prefix);
        assert(chars@.take(k + 1).last() == chars@[k as int]);
        let (next, emit) = escape_next(state, chars[k]);
        match emit {
            Some(x) => {
                push_char(&mut out, x);
                assert(out@ =~= sanitize_run(prefix).1 + escape_step(state, chars@[k as int]).1);
            },
            None => {
                assert(out@ =~= sanitize_run(prefix).1 + escape_step(state, chars@[k as int]).1);
            },
        }
        state = next;
        k += 1;
    }
    assert(chars@.take(chars@.len() as int) =~= chars@);
    out
}

proof fn lemma_sanitize_safe(s: Seq<char>)
    ensures
        forall|k: int| 0 <= k < sanitized(s).len() ==> #[trigger] terminal_safe(sanitized(s)[k]),
    decreases s.len(),
{
    if s.len() > 0 {
        lemma_sanitize_safe(s.drop_last());
        let before = sanitize_run(s.drop_last());
        let step = escape_step(before.0, s.last());
        assert(sanitized(s) == before.1 + step.1);
        assert forall|j: int| 0 <= j < step.1.len() implies #[trigger] terminal_safe(step.1[j]) by {
            let c = s.last();
            if before.0 == EscapeState::Normal {
                if c == '\u{1b}' {
                } else if is_control_char(c) && c != '\n' && c != '\r' && c != '\t' {
                    assert(step.1 == seq!['?']);
                    assert(step.1[j] == '?');
                } else {
                    assert(step.1 == seq![c]);
                    assert(step.1[j] == c);
                }
            }
        }
        assert forall|k: int| 0 <= k < sanitized(s).len() implies #[trigger] terminal_safe(
            sanitized(s)[k],
        ) by {
            if k < before.1.len() {
                assert(sanitized(s)[k] == before.1[k]);
                assert(terminal_safe(sanitized(s.drop_last())[k]));
            } else {
                assert(sanitized(s)[k] == step.1[k - before.1.len()]);
                assert(terminal_safe(step.1[k - before.1.len()]));
            }
        }
    }
}

/// Sanitized text never holds an escape character, nor any control
/// character but line feed, carriage return and tab.
pub proof fn sanitized_text_is_terminal_safe(s: Seq<char>)
    ensures
        forall|k: int| 0 <= k < sanitized(s).len() ==> #[trigger] terminal_safe(sanitized(s)[k]),
{
    lemma_sanitize_safe(s);
}

proof fn lemma_clean_run(s: Seq<char>)
    requires
        forall|k: int| 0 <= k < s.len() ==> #[trigger] terminal_safe(s[k]),
    ensures
        sanitize_run(s) == (EscapeState::Normal, s),
    decreases s.len(),
{
    if s.len() > 0 {
        let d = s.drop_last();
        assert forall|k: int| 0 <= k < d.len() implies #[trigger] terminal_safe(d[k]) by {
            assert(d[k] == s[k]);
        }
        lemma_clean_run(d);
        assert(terminal_safe(s[s.len() - 1]));
        assert(d + seq![s.last()] =~= s);
    }
}

/// Text that is already terminal-safe passes unchanged.
pub proof fn clean_text_is_kept(s: Seq<char>)
    requires
        forall|k: int| 0 <= k < s.len() ==> #[trigger] terminal_safe(s[k]),
    ensures
        sanitized(s) == s,
{
    lemma_clean_run(s);
}

/// Sanitizing twice is sanitizing once.
pub proof fn sanitizing_twice_is_sanitizing_once(s: Seq<char>)
    ensures
        sanitized(sanitized(s)) == sanitized(s),
{
    lemma_sanitize_safe(s);
    lemma_clean_run(sanitized(s));
}

// ---------------------------------------------------------------------------
// Wrapping
// ---------------------------------------------------------------------------

/// The rows of one line at `width` characters: an empty line is one empty
/// row; a longer line is cut into `width`-character rows.
pub open spec fn wrap_line(l: Seq<char>, width: int) -> Seq<Seq<char>>
    decreases l.len(),
{
    if width <= 0 || l.len() <= width {
        seq![l]
    } else {
        seq![l.take(width)] + wrap_line(l.skip(width), width)
    }
}

pub open spec fn wrap_all(lines: Seq<Seq<char>>, width: int) -> Seq<Seq<char>>
    decreases lines.len(),
{
    if lines.len() == 0 {
        seq![]
    } else {
        wrap_all(lines.drop_last(), width) + wrap_line(lines.last(), width)
    }
}

/// The rows of `lines` at `width`, cut to `max_rows` (at least one).
pub open spec fn wrapped_rows(lines: Seq<Seq<char>>, width: int, max_rows: int) -> Seq<Seq<char>> {
    let all = wrap_all(lines, width);
    let keep = if max_rows < 1 {
        1
    } else {
        max_rows
    };
    if all.len() <= keep {
        all
    } else {
        all.take(keep)
    }
}

proof fn lemma_wrap_line_bounded(l: Seq<char>, width: int)
    requires
        width >= 1,
    ensures
        forall|k: int| 0 <= k < wrap_line(l, width).len() ==> (#[trigger] wrap_line(l, width)[k]).len() <= width,
        wrap_line(l, width).len() >= 1,
    decreases l.len(),
{
    if l.len() > width {
        lemma_wrap_line_bounded(l.skip(width), width);
        let rest = wrap_line(l.skip(width), width);
        assert forall|k: int| 0 <= k < wrap_line(l, width).len() implies (#[trigger] wrap_line(
            l,
            width,
        )[k]).len() <= width by {
            if k > 0 {
                assert(wrap_line(l, width)[k] == rest[k - 1]);
            }
        }
    }
}

proof fn lemma_wrap_all_bounded(lines: Seq<Seq<char>>, width: int)
    requires
        width >= 1,
    ensures
        forall|k: int| 0 <= k < wrap_all(lines, width).len() ==> (#[trigger] wrap_all(lines, width)[k]).len() <= width,
    decreases lines.len(),
{
    if lines.len() > 0 {
        lemma_wrap_all_bounded(lines.drop_last(), width);
        lemma_wrap_line_bounded(lines.last(), width);
        let a = wrap_all(lines.drop_last(), width);
        let b = wrap_line(lines.last(), width);
        assert forall|k: int| 0 <= k < wrap_all(lines, width).len() implies (#[trigger] wrap_all(
            lines,
            width,
        )[k]).len() <= width by {
            if k < a.len() {
                assert(wrap_all(lines, width)[k] == a[k]);
            } else {
                assert(wrap_all(lines, width)[k] == b[k - a.len()]);
            }
        }
    }
}

/// Wrapped rows are never wider than the width and never more than the row
/// budget.
pub proof fn wrapped_rows_are_bounded(lines: Seq<Seq<char>>, width: int, max_rows: int)
    requires
        width >= 1,
    ensures
        wrapped_rows(lines, width, max_rows).len() <= (if max_rows < 1 {
            1
        } else {
            max_rows
        }),
        forall|k: int|
            0 <= k < wrapped_rows(lines, width, max_rows).len() ==> (#[trigger] wrapped_rows(
                lines,
                width,
                max_rows,
            )[k]).len() <= width,
{
    lemma_wrap_all_bounded(lines, width);
    let all = wrap_all(lines, width);
    let keep = if max_rows < 1 {
        1
    } else {
        max_rows
    };
    assert forall|k: int|
        0 <= k < wrapped_rows(lines, width, max_rows).len() implies (#[trigger] wrapped_rows(
        lines,
        width,
        max_rows,
    )[k]).len() <= width by {
        assert(wrapped_rows(lines, width, max_rows)[k] == all[k]);
    }
}

fn wrap_one(rows: &mut Vec<String>, line: &String, width: usize)
    requires
        width >= 1,
    ensures
        strings_view(final(rows)@) == strings_view(old(rows)@) + wrap_line(line@, width as int),
{
    let chars = chars_of(line.as_str());
    let mut start: usize = 0;
    let ghost base = strings_view(rows@);
    assert(chars@.skip(0) =~= chars@);
    while chars.len() - start > width
        invariant
            start <= chars@.len(),
            width >= 1,
            chars@ == line@,
            base + wrap_line(line@, width as int) == strings_view(rows@) + wrap_line(
                chars@.skip(start as int),
                width as int,
            ),
        decreases chars@.len() - start,
    {
        let ghost rest = chars@.skip(start as int);
        let piece = string_from(chars.as_slice(), start, start + width);
        assert(piece@ =~= rest.take(width as int));
        assert(rest.skip(width as int) =~= chars@.skip(start + width));
        let ghost before = rows@;
        rows.push(piece);
        assert(strings_view(rows@) =~= strings_view(before).push(piece@));
        assert(wrap_line(rest, width as int) =~= seq![rest.take(width as int)] + wrap_line(
            rest.skip(width as int),
            width as int,
        ));
        assert(strings_view(before) + wrap_line(rest, width as int) =~= strings_view(rows@)
            + wrap_line(chars@.skip(start + width), width as int));
        start = start + width;
    }
    let ghost rest = chars@.skip(start as int);
    let tail = string_from(chars.as_slice(), start, chars.len());
    assert(tail@ =~= rest);
    let ghost before = rows@;
    rows.push(tail);
    assert(strings_view(rows@) =~= strings_view(before).push(tail@));
    assert(wrap_line(rest, width as int) =~= seq![rest]);
}

pub fn wrap_lines(lines: Vec<String>, width: usize, max_rows: usize) -> (r: Vec<String>)
    requires
        width >= 1,
    ensures
        strings_view(r@) == wrapped_rows(strings_view(lines@), width as int, max_rows as int),
{
    let mut wrapped: Vec<String> = Vec::new();
    let mut k: usize = 0;
    assert(strings_view(lines@).take(0) =~= Seq::<Seq<char>>::empty());
    assert(strings_view(wrapped@) =~= Seq::<Seq<char>>::empty());
    while k < lines.len()
        invariant
            k <= lines@.len(),
            width >= 1,
            strings_view(wrapped@) == wrap_all(strings_view(lines@).take(k as int), width as int),
        decreases lines@.len() - k,
    {
        let ghost prefix = strings_view(lines@).take(k as int);
        assert(strings_view(lines@).take(k + 1).drop_last() =~= prefix);
        assert(strings_view(lines@).take(k + 1).last() == lines@[k as int]@);
        wrap_one(&mut wrapped, &lines[k], width);
        k += 1;
    }
    assert(strings_view(lines@).take(lines@.len() as int) =~= strings_view(lines@));
    let keep: usize = if max_rows < 1 {
        1
    } else {
        max_rows
    };
    if wrapped.len() > keep {
        let ghost all = strings_view(wrapped@);
        wrapped.truncate(keep);
        assert(strings_view(wrapped@) =~= all.take(keep as int));
    }
    wrapped
}


// ---------------------------------------------------------------------------
// Rendering
// ---------------------------------------------------------------------------

pub open spec fn dec(n: int) -> Seq<char> {
    crate::text::decimal_text(n as nat)
}

pub open spec fn flow_unsupported(f: Seq<crate::review::flow::StageView>) -> bool {
    exists|k: int| 0 <= k < f.len() && #[trigger] f[k].support == crate::review::flow::StageSupport::Unsupported
}

/// The purpose line of stage `i`: the model's purpose, else the status.
pub open spec fn purpose_of(c: CandidateView, i: int) -> Seq<char> {
    if 0 <= i < c.stages.len() && c.stages[i].purpose is Some {
        sanitized(c.stages[i].purpose->0)
    } else {
        crate::review::response::purpose_label(c.purpose_status)
    }
}

pub open spec fn stage_lines(c: CandidateView, i: int) -> Seq<Seq<char>> {
    if 0 <= i < c.flow.len() {
        let st = c.flow[i];
        seq!["> "@ + sanitized(st.text)] + (if st.spans.len() > 0 {
            seq![
                "  unsupported: "@ + crate::text::join(
                    Seq::new(st.spans.len(), |j: int| sanitized(st.spans[j].text)),
                    ", "@,
                ),
            ]
        } else {
            Seq::<Seq<char>>::empty()
        }) + seq!["  purpose: "@ + purpose_of(c, i)]
    } else {
        seq!["> no supported flow stages"@]
    }
}

pub open spec fn candidate_row(v: PanelView, i: int) -> Seq<char> {
    (if i == v.selected {
        ">"@
    } else {
        " "@
    }) + " "@ + dec(i + 1) + ". "@ + sanitized(v.candidates[i].command) + " | tier "@ + sanitized(
        v.contexts[i].tier,
    ) + " | "@ + sanitized(v.contexts[i].provider) + "/"@ + sanitized(v.contexts[i].model)
}

pub open spec fn marked(item: Seq<char>, selected: bool) -> Seq<char> {
    if selected {
        "["@ + item + "]"@
    } else {
        item
    }
}

pub open spec fn mode_line(v: PanelView) -> Seq<char> {
    if v.input_mode == PanelInputMode::CommandEditor {
        "Edit command: "@ + sanitized(v.buffer)
    } else {
        "Focus: "@ + focus_label(v.focus) + " | Actions: "@ + crate::text::join(
            Seq::new(ACTION_COUNT as nat, |i: int| marked(action_label(action_at(i)), i == v.action_cursor)),
            " | "@,
        )
    }
}

pub open spec fn model_lines(v: PanelView) -> Seq<Seq<char>> {
    match v.selection {
        Some(ms) => seq![
            "Models: "@ + crate::text::join(
                Seq::new(ms.len(), |i: int| marked(ms[i], i == v.model_cursor)),
                " | "@,
            ),
        ],
        None => Seq::empty(),
    }
}

/// The panel's lines before wrapping.
pub open spec fn panel_lines(v: PanelView) -> Seq<Seq<char>> {
    let c = v.candidate;
    let n = c.flow.len() as int;
    let next = if v.flow_stage == usize::MAX {
        usize::MAX as int
    } else {
        v.flow_stage + 1
    };
    let shown = if next < n {
        next
    } else {
        n
    };
    seq![
        "Review | intent: "@ + sanitized(v.context.intent),
        "Context | tier "@ + sanitized(v.context.tier) + " | "@ + sanitized(v.context.provider) + "/"@
            + sanitized(v.context.model),
        "Flow ["@ + dec(shown) + "/"@ + dec(n) + "]"@ + (if flow_unsupported(c.flow) {
            " | unsupported syntax marked"@
        } else {
            Seq::<char>::empty()
        }),
    ] + stage_lines(c, v.flow_stage as int) + seq![
        "Candidate: "@ + sanitized(c.command),
        "Candidates ["@ + dec(v.selected + 1) + "/"@ + dec(v.candidates.len() as int) + "]"@,
    ] + (if v.candidates.len() > 1 {
        Seq::new(v.candidates.len(), |i: int| candidate_row(v, i))
    } else {
        Seq::<Seq<char>>::empty()
    }) + seq![mode_line(v)] + model_lines(v)
}

fn cat(a: &str, b: &str) -> (r: String)
    ensures
        r@ == a@ + b@,
{
    let mut s = String::from_str(a);
    crate::text::push_str(&mut s, b);
    s
}

fn number(n: usize) -> (r: String)
    ensures
        r@ == dec(n as int),
{
    crate::text::decimal(n as u64)
}

fn push_line(lines: &mut Vec<String>, line: String)
    ensures
        strings_view(final(lines)@) == strings_view(old(lines)@).push(line@),
{
    let ghost before = lines@;
    lines.push(line);
    assert(strings_view(lines@) =~= strings_view(before).push(line@));
}

fn stage_block(lines: &mut Vec<String>, c: &ReviewCandidate, i: usize)
    ensures
        strings_view(final(lines)@) == strings_view(old(lines)@) + stage_lines(c@, i as int),
{
    let ghost base = strings_view(lines@);
    if i < c.flow.stages.len() {
        let stage = &c.flow.stages[i];
        let ghost st = c@.flow[i as int];
        assert(st == stage@);
        let first = cat("> ", sanitize_terminal_text(stage.stage_text.as_str()).as_str());
        push_line(lines, first);
        let ghost after_first = strings_view(lines@);
        if stage.unsupported_spans.len() > 0 {
            let mut texts: Vec<String> = Vec::new();
            let mut j: usize = 0;
            while j < stage.unsupported_spans.len()
                invariant
                    j <= stage.unsupported_spans@.len(),
                    st == stage@,
                    crate::text::views_of(texts@) == Seq::new(j as nat, |x: int| sanitized(st.spans[x].text)),
                decreases stage.unsupported_spans@.len() - j,
            {
                let t = sanitize_terminal_text(stage.unsupported_spans[j].text.as_str());
                assert(st.spans[j as int] == stage.unsupported_spans@[j as int]@);
                let ghost before = texts@;
                texts.push(t);
                assert(crate::text::views_of(texts@) =~= crate::text::views_of(before).push(t@));
                assert(crate::text::views_of(texts@) =~= Seq::new((j + 1) as nat, |x: int| sanitized(st.spans[x].text)));
                j += 1;
            }
            let joined = crate::text::join_strings(texts.as_slice(), ", ");
            push_line(lines, cat("  unsupported: ", joined.as_str()));
        }
        let purpose = if i < c.stages.len() {
            match &c.stages[i].purpose {
                Some(p) => sanitize_terminal_text(p.as_str()),
                None => String::from_str(c.purpose_status.label()),
            }
        } else {
            String::from_str(c.purpose_status.label())
        };
        push_line(lines, cat("  purpose: ", purpose.as_str()));
        assert(strings_view(lines@) =~= base + stage_lines(c@, i as int));
    } else {
        push_line(lines, String::from_str("> no supported flow stages"));
        assert(strings_view(lines@) =~= base + stage_lines(c@, i as int));
    }
}

fn marked_item(item: &str, selected: bool) -> (r: String)
    ensures
        r@ == marked(item@, selected),
{
    if selected {
        let s = cat("[", item);
        cat(s.as_str(), "]")
    } else {
        String::from_str(item)
    }
}

fn mode_text(state: &ReviewPanelState) -> (r: String)
    ensures
        r@ == mode_line(state@),
{
    if state.input_mode == PanelInputMode::CommandEditor {
        cat("Edit command: ", sanitize_terminal_text(state.editor_buffer.as_str()).as_str())
    } else {
        let mut items: Vec<String> = Vec::new();
        let mut i: usize = 0;
        while i < ACTION_COUNT
            invariant
                i <= ACTION_COUNT,
                crate::text::views_of(items@) == Seq::new(
                    i as nat,
                    |x: int| marked(action_label(action_at(x)), x == state.action_cursor),
                ),
            decreases ACTION_COUNT - i,
        {
            let item = marked_item(PanelAction::at(i).label(), i == state.action_cursor);
            let ghost before = items@;
            items.push(item);
            assert(crate::text::views_of(items@) =~= crate::text::views_of(before).push(item@));
            assert(crate::text::views_of(items@) =~= Seq::new(
                (i + 1) as nat,
                |x: int| marked(action_label(action_at(x)), x == state.action_cursor),
            ));
            i += 1;
        }
        let joined = crate::text::join_strings(items.as_slice(), " | ");
        let head = cat("Focus: ", state.focus.label());
        let head = cat(head.as_str(), " | Actions: ");
        cat(head.as_str(), joined.as_str())
    }
}

fn models_block(lines: &mut Vec<String>, state: &ReviewPanelState)
    ensures
        strings_view(final(lines)@) == strings_view(old(lines)@) + model_lines(state@),
{
    let ghost base = strings_view(lines@);
    match &state.model_selection {
        Some(models) => {
            let ghost ms = strings_view(models@);
            let mut items: Vec<String> = Vec::new();
            let mut i: usize = 0;
            while i < models.len()
                invariant
                    i <= models@.len(),
                    ms == strings_view(models@),
                    crate::text::views_of(items@) == Seq::new(
                        i as nat,
                        |x: int| marked(ms[x], x == state.model_cursor),
                    ),
                decreases models@.len() - i,
            {
                let item = marked_item(models[i].as_str(), i == state.model_cursor);
                let ghost before = items@;
                items.push(item);
                assert(crate::text::views_of(items@) =~= crate::text::views_of(before).push(item@));
                assert(crate::text::views_of(items@) =~= Seq::new(
                    (i + 1) as nat,
                    |x: int| marked(ms[x], x == state.model_cursor),
                ));
                i += 1;
            }
            let joined = crate::text::join_strings(items.as_slice(), " | ");
            push_line(lines, cat("Models: ", joined.as_str()));
            assert(strings_view(lines@) =~= base + model_lines(state@));
        },
        None => {
            assert(strings_view(lines@) =~= base + model_lines(state@));
        },
    }
}

fn candidate_rows(lines: &mut Vec<String>, state: &ReviewPanelState)
    requires
        state.wf(),
    ensures
        strings_view(final(lines)@) == strings_view(old(lines)@) + Seq::new(
            state@.candidates.len(),
            |i: int| candidate_row(state@, i),
        ),
{
    let ghost base = strings_view(lines@);
    let mut i: usize = 0;
    while i < state.candidates.len()
        invariant
            i <= state.candidates@.len(),
            state.wf(),
            strings_view(lines@) == base + Seq::new(i as nat, |x: int| candidate_row(state@, x)),
        decreases state.candidates@.len() - i,
    {
        let marker = if i == state.selected_candidate {
            ">"
        } else {
            " "
        };
        let context = &state.candidate_contexts[i];
        assert(state@.contexts[i as int] == context@);
        assert(state@.candidates[i as int] == state.candidates@[i as int]@);
        let line = cat(marker, " ");
        let line = cat(line.as_str(), number(i + 1).as_str());
        let line = cat(line.as_str(), ". ");
        let line = cat(line.as_str(), sanitize_terminal_text(state.candidates[i].command.as_str()).as_str());
        let line = cat(line.as_str(), " | tier ");
        let line = cat(line.as_str(), sanitize_terminal_text(context.tier.as_str()).as_str());
        let line = cat(line.as_str(), " | ");
        let line = cat(line.as_str(), sanitize_terminal_text(context.provider.as_str()).as_str());
        let line = cat(line.as_str(), "/");
        let line = cat(line.as_str(), sanitize_terminal_text(context.model.as_str()).as_str());
        assert(line@ =~= candidate_row(state@, i as int));
        push_line(lines, line);
        assert(strings_view(lines@) =~= base + Seq::new((i + 1) as nat, |x: int| candidate_row(state@, x)));
        i += 1;
    }
}

/// The panel's lines before wrapping.
fn content_lines(state: &ReviewPanelState) -> (r: Vec<String>)
    requires
        state.wf(),
    ensures
        strings_view(r@) == panel_lines(state@),
{
    let c = &state.candidate;
    let n = c.flow.stages.len();
    let mut lines: Vec<String> = Vec::new();
    push_line(&mut lines, cat("Review | intent: ", sanitize_terminal_text(state.context.intent.as_str()).as_str()));
    let l = cat("Context | tier ", sanitize_terminal_text(state.context.tier.as_str()).as_str());
    let l = cat(l.as_str(), " | ");
    let l = cat(l.as_str(), sanitize_terminal_text(state.context.provider.as_str()).as_str());
    let l = cat(l.as_str(), "/");
    let l = cat(l.as_str(), sanitize_terminal_text(state.context.model.as_str()).as_str());
    push_line(&mut lines, l);
    let next: usize = if state.flow_stage == usize::MAX {
        usize::MAX
    } else {
        state.flow_stage + 1
    };
    let shown: usize = if next < n {
        next
    } else {
        n
    };
    let l = cat("Flow [", number(shown).as_str());
    let l = cat(l.as_str(), "/");
    let l = cat(l.as_str(), number(n).as_str());
    let l = cat(l.as_str(), "]");
    let unsupported = c.flow.has_unsupported();
    proof {
        if unsupported {
            let k = choose|k: int| 0 <= k < c.flow.stages@.len() && #[trigger] c.flow.stages@[k].support
                == crate::review::flow::StageSupport::Unsupported;
            assert(c@.flow[k].support == crate::review::flow::StageSupport::Unsupported);
        } else {
            assert forall|k: int| 0 <= k < c@.flow.len() implies #[trigger] c@.flow[k].support
                != crate::review::flow::StageSupport::Unsupported by {
                assert(c@.flow[k] == c.flow.stages@[k]@);
            }
        }
    }
    let l = if unsupported {
        cat(l.as_str(), " | unsupported syntax marked")
    } else {
        l
    };
    push_line(&mut lines, l);
    stage_block(&mut lines, c, state.flow_stage);
    push_line(&mut lines, cat("Candidate: ", sanitize_terminal_text(c.command.as_str()).as_str()));
    let count = state.candidates.len();
    let l = cat("Candidates [", number(state.selected_candidate + 1).as_str());
    let l = cat(l.as_str(), "/");
    let l = cat(l.as_str(), number(state.candidates.len()).as_str());
    let l = cat(l.as_str(), "]");
    push_line(&mut lines, l);
    if state.candidates.len() > 1 {
        candidate_rows(&mut lines, state);
    }
    push_line(&mut lines, mode_text(state));
    models_block(&mut lines, state);
    assert(strings_view(lines@) =~= panel_lines(state@));
    lines
}

/// Render the panel as rows of at most the layout's content width (at least
/// one column), cut to its row budget.
pub fn render_lines(state: &ReviewPanelState, layout: InlineLayout) -> (r: Vec<String>)
    requires
        state.wf(),
    ensures
        strings_view(r@) == wrapped_rows(
            panel_lines(state@),
            if layout.content_width < 1 {
                1
            } else {
                layout.content_width as int
            },
            layout.max_rows as int,
        ),
{
    let lines = content_lines(state);
    let width: usize = if layout.content_width < 1 {
        1
    } else {
        layout.content_width
    };
    wrap_lines(lines, width, layout.max_rows as usize)
}

} // verus!
