//! The setup wizard as a state machine: each key moves it from one state
//! to the next, and says what outside work (a catalog fetch, a model
//! search) the program is to do and hand back.
use vstd::prelude::*;

use crate::config::env::{env_view, env_value};
use crate::config::{provider_for, providers_view, Config};
use crate::config::types::ProviderConfigView;
use crate::error::{message_prefix, Error};
use crate::provider::setup::{
    build_provider_draft, key_env_for, openrouter_endpoint, suggested_api_key_env, ProviderDraft,
    ProviderIdentity, SetupCancellation, OPENROUTER_ENDPOINT,
};
use crate::setup::{page_index, selected_shells, valid_environment_name, SetupEntryPoint, SetupPage};
use crate::shell_shortcut::Shell;
use crate::text::{str_eq, trim};
use crate::models::dialog::{strength_name, strength_of, ReasoningStrength};
use crate::models::list::{entries_view, ModelEntry, ModelEntryView};
use crate::review::response::opt_view;
use crate::setup::{contains_strength, offered_strengths, reasoning_options};

verus! {

/// A confirmed model and the reasoning effort chosen for it.
#[derive(Debug)]
pub struct LevelChoice {
    pub model: ModelEntry,
    pub reasoning: String,
}

impl Clone for LevelChoice {
    fn clone(&self) -> (r: Self)
        ensures
            r.model@ == self.model@,
            r.reasoning@ == self.reasoning@,
    {
        LevelChoice { model: self.model.clone(), reasoning: self.reasoning.clone() }
    }
}

/// The same choice of a tier: both absent, or the same model and strength.
pub open spec fn same_choice(a: Option<LevelChoice>, b: Option<LevelChoice>) -> bool {
    match (a, b) {
        (Some(x), Some(y)) => x.model@ == y.model@ && x.reasoning@ == y.reasoning@,
        (None, None) => true,
        _ => false,
    }
}

/// A copy of a list of catalog models.
pub fn clone_entries(v: &Vec<ModelEntry>) -> (r: Vec<ModelEntry>)
    ensures
        entries_view(r@) == entries_view(v@),
{
    let mut out: Vec<ModelEntry> = Vec::new();
    let mut k: usize = 0;
    while k < v.len()
        invariant
            k <= v@.len(),
            entries_view(out@) == entries_view(v@).take(k as int),
        decreases v@.len() - k,
    {
        let ghost before = out@;
        out.push(v[k].clone());
        assert(entries_view(out@) =~= entries_view(before).push(v@[k as int]@));
        assert(entries_view(v@).take(k + 1) =~= entries_view(v@).take(k as int).push(v@[k as int]@));
        k += 1;
    }
    assert(entries_view(v@).take(v@.len() as int) =~= entries_view(v@));
    out
}

/// The first place of `x` in `s`.
pub open spec fn first_index(s: Seq<ReasoningStrength>, x: ReasoningStrength) -> Option<int>
    decreases s.len(),
{
    if s.len() == 0 {
        None
    } else if s[0] == x {
        Some(0)
    } else {
        match first_index(s.drop_first(), x) {
            Some(i) => Some(i + 1),
            None => None,
        }
    }
}

proof fn lemma_first_index(s: Seq<ReasoningStrength>, x: ReasoningStrength)
    ensures
        match first_index(s, x) {
            Some(i) => 0 <= i < s.len() && s[i] == x && forall|j: int| 0 <= j < i ==> s[j] != x,
            None => !s.contains(x),
        },
    decreases s.len(),
{
    if s.len() > 0 && s[0] != x {
        lemma_first_index(s.drop_first(), x);
        match first_index(s.drop_first(), x) {
            Some(i) => {
                assert forall|j: int| 0 <= j < i + 1 implies s[j] != x by {
                    if j > 0 {
                        assert(s[j] == s.drop_first()[j - 1]);
                    }
                }
            },
            None => {
                assert forall|j: int| 0 <= j < s.len() implies s[j] != x by {
                    if j > 0 {
                        assert(s[j] == s.drop_first()[j - 1]);
                    }
                }
            },
        }
    }
}

fn position_of(v: &Vec<ReasoningStrength>, x: ReasoningStrength) -> (r: Option<usize>)
    ensures
        match r {
            Some(i) => first_index(v@, x) == Some(i as int),
            None => first_index(v@, x) is None,
        },
{
    let mut k: usize = 0;
    while k < v.len()
        invariant
            k <= v@.len(),
            forall|j: int| 0 <= j < k ==> v@[j] != x,
        decreases v@.len() - k,
    {
        if v[k] == x {
            proof {
                lemma_first_index(v@, x);
                match first_index(v@, x) {
                    Some(i) => {
                        if i < k {
                        } else if i > k {
                        }
                    },
                    None => {
                        assert(v@.contains(x));
                    },
                }
            }
            return Some(k);
        }
        k += 1;
    }
    proof {
        lemma_first_index(v@, x);
        match first_index(v@, x) {
            Some(i) => {
                assert(v@[i] == x);
            },
            None => {},
        }
    }
    None
}

/// The state of one model tier's page: its catalog, its search, its
/// selection and its reasoning choice.
#[derive(Debug)]
pub struct ModelSlot {
    pub models: Vec<ModelEntry>,
    pub query: String,
    pub suggestions: Vec<ModelEntry>,
    pub selection: usize,
    pub manual_model: String,
    pub completed: Option<LevelChoice>,
    pub reasoning: ReasoningStrength,
    pub custom_reasoning: Option<String>,
    pub reasoning_explicit: bool,
    pub search_status: Option<String>,
    pub search_pending: bool,
    pub initial_model: Option<String>,
}

impl ModelSlot {
    /// The selection stays on a suggestion, or at the top of an empty list.
    pub open spec fn wf(&self) -> bool {
        self.selection < self.suggestions@.len() || (self.selection == 0 && self.suggestions@.len() == 0)
    }

    /// The suggestion at `sel`.
    pub open spec fn selected_at(&self, sel: int) -> Option<ModelEntryView> {
        if 0 <= sel < self.suggestions@.len() {
            Some(self.suggestions@[sel]@)
        } else {
            None
        }
    }

    /// The selected suggestion.
    pub open spec fn selected(&self) -> Option<ModelEntryView> {
        self.selected_at(self.selection as int)
    }

    /// The strengths the suggestion at `sel` offers; off alone without one.
    pub open spec fn options_at(&self, sel: int) -> Seq<ReasoningStrength> {
        match self.selected_at(sel) {
            Some(m) => offered_strengths(m.reasoning),
            None => seq![ReasoningStrength::Off],
        }
    }

    pub open spec fn options(&self) -> Seq<ReasoningStrength> {
        self.options_at(self.selection as int)
    }

    /// The default strength of the suggestion at `sel`, if it names one.
    pub open spec fn default_at(&self, sel: int) -> Option<ReasoningStrength> {
        match self.selected_at(sel) {
            Some(m) => match m.reasoning {
                Some(r) => match r.default_effort {
                    Some(e) => strength_of(e),
                    None => None,
                },
                None => None,
            },
            None => None,
        }
    }

    /// The strength once it is brought in line with the suggestion at
    /// `sel`: an explicit choice it offers stays; otherwise its default when
    /// offered, else its first option.
    pub open spec fn synced_with(&self, sel: int) -> ReasoningStrength {
        let opts = self.options_at(sel);
        if self.reasoning_explicit && opts.contains(self.reasoning) {
            self.reasoning
        } else {
            match self.default_at(sel) {
                Some(d) if opts.contains(d) => d,
                _ => opts[0],
            }
        }
    }

    pub open spec fn synced_strength(&self) -> ReasoningStrength {
        self.synced_with(self.selection as int)
    }

    /// The effort recorded for the tier: the custom text, else the
    /// strength's name.
    pub open spec fn value(&self) -> Seq<char> {
        match self.custom_reasoning {
            Some(c) => c@,
            None => strength_name(self.reasoning),
        }
    }

    /// Everything but the reasoning strength is as in `other`.
    pub open spec fn same_but_reasoning(&self, other: &ModelSlot) -> bool {
        &&& entries_view(self.models@) == entries_view(other.models@)
        &&& self.query@ == other.query@
        &&& entries_view(self.suggestions@) == entries_view(other.suggestions@)
        &&& self.suggestions@.len() == other.suggestions@.len()
        &&& self.models@.len() == other.models@.len()
        &&& self.selection == other.selection
        &&& self.manual_model@ == other.manual_model@
        &&& self.completed == other.completed
        &&& self.custom_reasoning == other.custom_reasoning
        &&& self.reasoning_explicit == other.reasoning_explicit
        &&& self.search_status == other.search_status
        &&& self.search_pending == other.search_pending
        &&& self.initial_model == other.initial_model
    }

    pub fn new(initial_model: Option<String>, reasoning: ReasoningStrength, explicit: bool) -> (s: Self)
        ensures
            s.wf(),
            s.models@.len() == 0,
            s.suggestions@.len() == 0,
            s.query@.len() == 0,
            s.manual_model@.len() == 0,
            s.selection == 0,
            s.completed is None,
            s.reasoning == reasoning,
            s.custom_reasoning is None,
            s.reasoning_explicit == explicit,
            s.search_status is None,
            !s.search_pending,
            s.initial_model == initial_model,
    {
        ModelSlot {
            models: Vec::new(),
            query: String::new(),
            suggestions: Vec::new(),
            selection: 0,
            manual_model: String::new(),
            completed: None,
            reasoning,
            custom_reasoning: None,
            reasoning_explicit: explicit,
            search_status: None,
            search_pending: false,
            initial_model,
        }
    }

    /// The strengths the selected model offers.
    pub fn reasoning_options(&self) -> (r: Vec<ReasoningStrength>)
        ensures
            r@ == self.options(),
            r@.len() > 0,
    {
        if self.selection < self.suggestions.len() {
            match &self.suggestions[self.selection].reasoning {
                Some(policy) => reasoning_options(Some(policy)),
                None => reasoning_options(None),
            }
        } else {
            let mut v: Vec<ReasoningStrength> = Vec::new();
            v.push(ReasoningStrength::Off);
            assert(v@ =~= seq![ReasoningStrength::Off]);
            v
        }
    }

    /// Bring the strength in line with the selected model.
    pub fn sync_reasoning(&mut self)
        ensures
            final(self).same_but_reasoning(old(self)),
            final(self).reasoning == old(self).synced_strength(),
    {
        let options = self.reasoning_options();
        if !self.reasoning_explicit || !contains_strength(&options, self.reasoning) {
            let default: Option<ReasoningStrength> = if self.selection < self.suggestions.len() {
                match &self.suggestions[self.selection].reasoning {
                    Some(policy) => match &policy.default_effort {
                        Some(effort) => ReasoningStrength::parse(effort.as_str()),
                        None => None,
                    },
                    None => None,
                }
            } else {
                None
            };
            self.reasoning = match default {
                Some(d) => if contains_strength(&options, d) {
                    d
                } else {
                    options[0]
                },
                None => options[0],
            };
        }
    }

    /// The effort recorded for the tier.
    pub fn reasoning_value(&self) -> (r: String)
        ensures
            r@ == self.value(),
    {
        match &self.custom_reasoning {
            Some(c) => c.clone(),
            None => self.reasoning.as_str().to_string(),
        }
    }

    /// Step the strength through the options, forward or back, wrapping
    /// around; the step is an explicit choice and replaces a custom effort.
    pub fn cycle_reasoning(&mut self, forward: bool)
        ensures
            ({
                let opts = old(self).options();
                let current = match first_index(opts, old(self).reasoning) {
                    Some(i) => i,
                    None => 0,
                };
                let next = if forward {
                    (current + 1) % (opts.len() as int)
                } else {
                    (current + opts.len() - 1) % (opts.len() as int)
                };
                final(self).reasoning == opts[next]
            }),
            final(self).custom_reasoning is None,
            final(self).reasoning_explicit,
            match old(self).completed {
                Some(c) => final(self).completed matches Some(d) && d.model@ == c.model@ && d.reasoning@
                    == strength_name(final(self).reasoning),
                None => final(self).completed is None,
            },
            entries_view(final(self).models@) == entries_view(old(self).models@),
            entries_view(final(self).suggestions@) == entries_view(old(self).suggestions@),
            final(self).selection == old(self).selection,
            final(self).query@ == old(self).query@,
            final(self).manual_model@ == old(self).manual_model@,
            final(self).search_status == old(self).search_status,
            final(self).search_pending == old(self).search_pending,
            final(self).initial_model == old(self).initial_model,
    {
        let options = self.reasoning_options();
        let n = options.len();
        let current = match position_of(&options, self.reasoning) {
            Some(i) => i,
            None => 0,
        };
        proof {
            lemma_first_index(options@, self.reasoning);
        }
        assert(current < n);
        let next = if forward {
            if current + 1 == n {
                0
            } else {
                current + 1
            }
        } else {
            if current == 0 {
                n - 1
            } else {
                current - 1
            }
        };
        assert(forward ==> next == (current + 1) % (n as int)) by (nonlinear_arith)
            requires
                current < n,
                forward ==> next == (if current + 1 == n { 0 } else { current + 1 }),
        ;
        assert(!forward ==> next == (current + n - 1) % (n as int)) by (nonlinear_arith)
            requires
                current < n,
                !forward ==> next == (if current == 0 { n - 1 } else { current - 1 }),
        ;
        self.reasoning = options[next];
        self.custom_reasoning = None;
        self.reasoning_explicit = true;
        let value = self.reasoning_value();
        match self.completed.take() {
            Some(choice) => {
                self.completed = Some(LevelChoice { model: choice.model, reasoning: value });
            },
            None => {},
        }
    }
}


/// Remove the last character of `s`, if any.
pub fn pop_char(s: &mut String)
    ensures
        old(s)@.len() > 0 ==> final(s)@ == old(s)@.drop_last(),
        old(s)@.len() == 0 ==> final(s)@ == old(s)@,
{
    let chars = crate::text::chars_of(s.as_str());
    let n = chars.len();
    if n > 0 {
        *s = crate::text::string_from(chars.as_slice(), 0, n - 1);
        assert(chars@.subrange(0, n - 1) =~= chars@.drop_last());
    }
}

/// `s` with `c` typed (`Some`) or its last character erased (`None`).
pub open spec fn typed(s: Seq<char>, c: Option<char>) -> Seq<char> {
    match c {
        Some(c) => s.push(c),
        None => if s.len() > 0 {
            s.drop_last()
        } else {
            s
        },
    }
}

/// Type a character (`Some`) or erase one (`None`).
pub fn edit_text(s: &mut String, c: Option<char>)
    ensures
        final(s)@ == typed(old(s)@, c),
{
    match c {
        Some(c) => crate::text::push_char(s, c),
        None => pop_char(s),
    }
}

/// The place of the first model named `id`.
pub open spec fn index_of_id(models: Seq<ModelEntryView>, id: Seq<char>) -> Option<int>
    decreases models.len(),
{
    if models.len() == 0 {
        None
    } else if models[0].id == id {
        Some(0)
    } else {
        match index_of_id(models.drop_first(), id) {
            Some(i) => Some(i + 1),
            None => None,
        }
    }
}

proof fn lemma_index_of_id(models: Seq<ModelEntryView>, id: Seq<char>)
    ensures
        match index_of_id(models, id) {
            Some(i) => 0 <= i < models.len(),
            None => true,
        },
    decreases models.len(),
{
    if models.len() > 0 && models[0].id != id {
        lemma_index_of_id(models.drop_first(), id);
    }
}

fn find_id(models: &Vec<ModelEntry>, id: &str) -> (r: Option<usize>)
    ensures
        match r {
            Some(i) => index_of_id(entries_view(models@), id@) == Some(i as int) && i < models@.len(),
            None => index_of_id(entries_view(models@), id@) is None,
        },
{
    let mut k: usize = 0;
    assert(entries_view(models@).skip(0) =~= entries_view(models@));
    while k < models.len()
        invariant
            k <= models@.len(),
            index_of_id(entries_view(models@), id@) == match index_of_id(entries_view(models@).skip(k as int), id@) {
                Some(i) => Some(i + k),
                None => None,
            },
        decreases models@.len() - k,
    {
        let ghost rest = entries_view(models@).skip(k as int);
        assert(rest[0] == models@[k as int]@);
        if crate::text::str_eq(models[k].id.as_str(), id) {
            return Some(k);
        }
        assert(rest.drop_first() =~= entries_view(models@).skip(k + 1));
        k += 1;
    }
    assert(entries_view(models@).skip(k as int).len() == 0);
    None
}

/// What a finished search sets as the status line: the provider's notice,
/// else a note that nothing was found.
pub open spec fn found_status(notice: Option<String>, no_results: bool) -> Option<Seq<char>> {
    match notice {
        Some(n) => Some(n@),
        None => if no_results {
            Some("(no models found)"@)
        } else {
            None
        },
    }
}

impl ModelSlot {
    /// The slot that `finish_search` leaves with a search's result.
    pub open spec fn search_done(self, next: ModelSlot, result: Result<(Vec<ModelEntry>, Option<String>, bool), Error>) -> bool {
        &&& next.wf()
        &&& next.selection == 0
        &&& !next.search_pending
        &&& next.query@ == self.query@
        &&& entries_view(next.models@) == entries_view(self.models@)
        &&& next.completed == self.completed
        &&& next.custom_reasoning == self.custom_reasoning
        &&& next.reasoning_explicit == self.reasoning_explicit
        &&& next.manual_model@ == self.manual_model@
        &&& next.reasoning == ModelSlot::synced_for(
                    entries_view(next.suggestions@),
                    self.reasoning,
                    self.reasoning_explicit,
                )
        &&& match result {
                    Ok((found, notice, no_results)) => entries_view(next.suggestions@) == entries_view(found@)
                        && opt_view(next.search_status) == found_status(notice, no_results),
                    Err(e) => {
                        let filtered = crate::models::picker::matching(entries_view(self.models@), self.query@);
                        &&& entries_view(next.suggestions@) == if filtered.len() == 0 {
                            entries_view(self.models@)
                        } else {
                            filtered
                        }
                        &&& next.search_status is Some
                        &&& !(e is IoError) ==> opt_view(next.search_status) == Some(
                            crate::error::message_prefix(&e),
                        )
                    },
                }
    }

    /// `next` is this slot with the strength stepped forward or back through
    /// the options, wrapping around, as an explicit choice; the selection,
    /// query and lists stay.
    pub open spec fn reasoning_stepped(self, next: ModelSlot, forward: bool) -> bool {
        let opts = self.options();
        let current = match first_index(opts, self.reasoning) {
            Some(i) => i,
            None => 0,
        };
        let step = if forward {
            (current + 1) % (opts.len() as int)
        } else {
            (current + opts.len() - 1) % (opts.len() as int)
        };
        &&& next.reasoning == opts[step]
        &&& next.custom_reasoning is None
        &&& next.reasoning_explicit
        &&& match self.completed {
            Some(c) => next.completed matches Some(d) && d.model@ == c.model@ && d.reasoning@ == strength_name(
                next.reasoning,
            ),
            None => next.completed is None,
        }
        &&& entries_view(next.models@) == entries_view(self.models@)
        &&& entries_view(next.suggestions@) == entries_view(self.suggestions@)
        &&& next.selection == self.selection
        &&& next.query@ == self.query@
        &&& next.manual_model@ == self.manual_model@
        &&& next.search_status == self.search_status
        &&& next.search_pending == self.search_pending
        &&& next.initial_model == self.initial_model
    }

    /// `next` is this slot with the selection one suggestion up.
    pub open spec fn moved_up(self, next: ModelSlot) -> bool {
        &&& next.wf()
        &&& next.selection == if self.selection > 0 {
            self.selection - 1
        } else {
            0
        }
        &&& next.reasoning == self.synced_with(next.selection as int)
        &&& entries_view(next.suggestions@) == entries_view(self.suggestions@)
    }

    /// `next` is this slot with the selection one suggestion down, staying
    /// on the last.
    pub open spec fn moved_down(self, next: ModelSlot) -> bool {
        &&& next.wf()
        &&& self.suggestions@.len() == 0 ==> next.selection == self.selection && next.reasoning == self.reasoning
        &&& self.suggestions@.len() > 0 ==> next.selection == (if self.selection + 1 < self.suggestions@.len() {
            self.selection + 1
        } else {
            self.suggestions@.len() - 1
        }) && next.reasoning == self.synced_with(next.selection as int)
        &&& entries_view(next.suggestions@) == entries_view(self.suggestions@)
    }

    /// `next` is this slot with the selection ten suggestions up or down,
    /// staying in the list.
    pub open spec fn paged(self, next: ModelSlot, forward: bool) -> bool {
        &&& next.wf()
        &&& self.suggestions@.len() == 0 ==> next.selection == self.selection && next.reasoning == self.reasoning
        &&& self.suggestions@.len() > 0 ==> {
            let target = if forward {
                self.selection + 10
            } else {
                self.selection - 10
            };
            let last = self.suggestions@.len() - 1;
            &&& next.selection == if target < 0 {
                0
            } else if target > last {
                last
            } else {
                target
            }
            &&& next.reasoning == self.synced_with(next.selection as int)
        }
        &&& entries_view(next.suggestions@) == entries_view(self.suggestions@)
    }

    /// Move the selection up one suggestion.
    pub fn select_up(&mut self)
        requires
            old(self).wf(),
        ensures
            final(self).wf(),
            final(self).selection == if old(self).selection > 0 {
                old(self).selection - 1
            } else {
                0
            },
            final(self).reasoning == old(self).synced_with(final(self).selection as int),
            entries_view(final(self).suggestions@) == entries_view(old(self).suggestions@),
    {
        self.selection = if self.selection > 0 {
            self.selection - 1
        } else {
            0
        };
        self.sync_reasoning();
    }

    /// Move the selection down one suggestion, staying on the last.
    pub fn select_down(&mut self)
        requires
            old(self).wf(),
        ensures
            final(self).wf(),
            old(self).suggestions@.len() == 0 ==> final(self).selection == old(self).selection
                && final(self).reasoning == old(self).reasoning,
            old(self).suggestions@.len() > 0 ==> final(self).selection == if old(self).selection + 1
                < old(self).suggestions@.len() {
                old(self).selection + 1
            } else {
                old(self).suggestions@.len() - 1
            } && final(self).reasoning == old(self).synced_with(final(self).selection as int),
            entries_view(final(self).suggestions@) == entries_view(old(self).suggestions@),
    {
        let n = self.suggestions.len();
        if n > 0 {
            self.selection = if self.selection + 1 < n {
                self.selection + 1
            } else {
                n - 1
            };
            self.sync_reasoning();
        }
    }

    /// Move the selection ten suggestions up or down, staying in the list.
    pub fn select_page(&mut self, forward: bool)
        requires
            old(self).wf(),
        ensures
            final(self).wf(),
            old(self).suggestions@.len() == 0 ==> final(self).selection == old(self).selection
                && final(self).reasoning == old(self).reasoning,
            old(self).suggestions@.len() > 0 ==> {
                let target = if forward {
                    old(self).selection + 10
                } else {
                    old(self).selection - 10
                };
                let last = old(self).suggestions@.len() - 1;
                &&& final(self).selection == if target < 0 {
                    0
                } else if target > last {
                    last
                } else {
                    target
                }
                &&& final(self).reasoning == old(self).synced_with(final(self).selection as int)
            },
            entries_view(final(self).suggestions@) == entries_view(old(self).suggestions@),
    {
        let n = self.suggestions.len();
        if n == 0 {
            return;
        }
        let last = n - 1;
        self.selection = if forward {
            if self.selection >= last || last - self.selection < 10 {
                last
            } else {
                self.selection + 10
            }
        } else {
            if self.selection < 10 {
                0
            } else {
                self.selection - 10
            }
        };
        self.sync_reasoning();
    }

    /// Confirm the tier's model: the manual identifier (trimmed, not
    /// empty), or the selected suggestion once no search is pending. The
    /// result is the reason it cannot be confirmed.
    pub fn confirm(&mut self, manual: bool) -> (r: Option<&'static str>)
        requires
            old(self).wf(),
        ensures
            final(self).wf(),
            manual ==> match r {
                Some(m) => crate::text::trim(old(self).manual_model@).len() == 0 && m@
                    == "enter a non-empty manual model identifier"@ && final(self).completed
                    == old(self).completed,
                None => crate::text::trim(old(self).manual_model@).len() > 0 && (final(self).completed matches Some(c)
                    && c.model@ == (ModelEntryView {
                    id: crate::text::trim(old(self).manual_model@),
                    name: None,
                    context_length: None,
                    supported_features: seq![],
                    reasoning: None,
                }) && c.reasoning@ == old(self).value()),
            },
            !manual ==> match r {
                Some(m) => (old(self).search_pending || old(self).suggestions@.len() == 0) && m@
                    == "wait for a model result before continuing"@ && final(self).completed
                    == old(self).completed,
                None => !old(self).search_pending && old(self).suggestions@.len() > 0
                    && (final(self).completed matches Some(c) && Some(c.model@) == old(self).selected()
                    && c.reasoning@ == old(self).value()),
            },
            final(self).same_but_completion(old(self)),
    {
        if manual {
            let model = crate::text::trim_string(self.manual_model.as_str());
            if model.unicode_len() == 0 {
                return Some("enter a non-empty manual model identifier");
            }
            let value = self.reasoning_value();
            let entry = ModelEntry {
                id: model,
                name: None,
                context_length: None,
                supported_features: Vec::new(),
                reasoning: None,
            };
            assert(crate::text::views_of(entry.supported_features@) =~= Seq::<Seq<char>>::empty());
            self.completed = Some(LevelChoice { model: entry, reasoning: value });
            return None;
        }
        if self.search_pending || self.suggestions.len() == 0 {
            return Some("wait for a model result before continuing");
        }
        let value = self.reasoning_value();
        let model = self.suggestions[self.selection].clone();
        self.completed = Some(LevelChoice { model, reasoning: value });
        None
    }

    /// Everything but the confirmed choice is as in `other`.
    pub open spec fn same_but_completion(&self, other: &ModelSlot) -> bool {
        &&& entries_view(self.models@) == entries_view(other.models@)
        &&& self.query@ == other.query@
        &&& entries_view(self.suggestions@) == entries_view(other.suggestions@)
        &&& self.suggestions@.len() == other.suggestions@.len()
        &&& self.selection == other.selection
        &&& self.manual_model@ == other.manual_model@
        &&& self.reasoning == other.reasoning
        &&& self.custom_reasoning == other.custom_reasoning
        &&& self.reasoning_explicit == other.reasoning_explicit
        &&& self.search_status == other.search_status
        &&& self.search_pending == other.search_pending
    }

    /// Show the whole catalog again: the query is cleared and no search is
    /// pending.
    pub fn reset_search(&mut self)
        ensures
            final(self).wf(),
            final(self).query@.len() == 0,
            entries_view(final(self).suggestions@) == entries_view(old(self).models@),
            entries_view(final(self).models@) == entries_view(old(self).models@),
            final(self).selection == 0,
            !final(self).search_pending,
            final(self).search_status is None,
            final(self).reasoning == ModelSlot::synced_for(entries_view(old(self).models@), old(self).reasoning, old(self).reasoning_explicit),
            final(self).completed == old(self).completed,
            final(self).custom_reasoning == old(self).custom_reasoning,
            final(self).reasoning_explicit == old(self).reasoning_explicit,
            final(self).manual_model@ == old(self).manual_model@,
            final(self).initial_model == old(self).initial_model,
    {
        self.query = String::new();
        self.suggestions = clone_entries(&self.models);
        self.selection = 0;
        self.search_pending = false;
        self.search_status = None;
        proof {
            assert(self.suggestions@.len() == entries_view(self.suggestions@).len());
            assert(self.models@.len() == entries_view(self.models@).len());
            if self.suggestions@.len() > 0 {
                assert(self.suggestions@[0]@ == entries_view(self.suggestions@)[0]);
                assert(old(self).models@[0]@ == entries_view(old(self).models@)[0]);
            }
        }
        self.sync_reasoning();
    }

    /// The strength brought in line with the first of `models`, as the
    /// selection stands after the suggestions are replaced by `models`.
    pub open spec fn synced_for(models: Seq<ModelEntryView>, reasoning: ReasoningStrength, explicit: bool) -> ReasoningStrength {
        let opts = if models.len() > 0 {
            offered_strengths(models[0].reasoning)
        } else {
            seq![ReasoningStrength::Off]
        };
        let default = if models.len() > 0 {
            match models[0].reasoning {
                Some(r) => match r.default_effort {
                    Some(e) => strength_of(e),
                    None => None,
                },
                None => None,
            }
        } else {
            None
        };
        if explicit && opts.contains(reasoning) {
            reasoning
        } else {
            match default {
                Some(d) if opts.contains(d) => d,
                _ => opts[0],
            }
        }
    }

    /// Search the catalog for the query: an empty query shows the whole
    /// catalog; a complete catalog is filtered here; otherwise the provider
    /// is to be asked, and the result says so.
    pub fn search(&mut self, catalog_complete: bool) -> (remote: bool)
        ensures
            final(self).wf(),
            final(self).selection == 0,
            final(self).query@ == old(self).query@,
            entries_view(final(self).models@) == entries_view(old(self).models@),
            final(self).completed == old(self).completed,
            final(self).custom_reasoning == old(self).custom_reasoning,
            final(self).reasoning_explicit == old(self).reasoning_explicit,
            final(self).manual_model@ == old(self).manual_model@,
            final(self).initial_model == old(self).initial_model,
            remote == (old(self).query@.len() > 0 && !catalog_complete),
            if old(self).query@.len() == 0 {
                &&& entries_view(final(self).suggestions@) == entries_view(old(self).models@)
                &&& !final(self).search_pending
                &&& final(self).search_status is None
                &&& final(self).reasoning == ModelSlot::synced_for(
                    entries_view(old(self).models@),
                    old(self).reasoning,
                    old(self).reasoning_explicit,
                )
            } else if catalog_complete {
                &&& entries_view(final(self).suggestions@) == crate::models::picker::matching(
                    entries_view(old(self).models@),
                    old(self).query@,
                )
                &&& !final(self).search_pending
                &&& final(self).search_status is None
                &&& final(self).reasoning == ModelSlot::synced_for(
                    entries_view(final(self).suggestions@),
                    old(self).reasoning,
                    old(self).reasoning_explicit,
                )
            } else {
                &&& final(self).suggestions@.len() == 0
                &&& final(self).search_pending
                &&& opt_view(final(self).search_status) == Some("Searching..."@)
                &&& final(self).reasoning == old(self).reasoning
            },
    {
        if self.query.unicode_len() == 0 {
            self.reset_search();
            return false;
        }
        if catalog_complete {
            self.suggestions = crate::models::picker::local_filter(self.models.as_slice(), self.query.as_str());
            self.selection = 0;
            self.search_pending = false;
            self.search_status = None;
            proof {
                assert(self.suggestions@.len() == entries_view(self.suggestions@).len());
            }
            let ghost before = *self;
            self.sync_reasoning();
            proof {
                if before.suggestions@.len() > 0 {
                    assert(before.selected() == Some(before.suggestions@[0]@));
                    assert(entries_view(before.suggestions@)[0] == before.suggestions@[0]@);
                }
            }
            return false;
        }
        self.suggestions = Vec::new();
        self.selection = 0;
        self.search_pending = true;
        self.search_status = Some(String::from_str("Searching..."));
        true
    }

    /// Show the outcome of a search that was asked of the provider: its
    /// models, with its notice or a note that none were found; on an error,
    /// the catalog filtered here (the whole catalog when nothing matches)
    /// with the error as the notice.
    pub fn finish_search(&mut self, result: Result<(Vec<ModelEntry>, Option<String>, bool), Error>)
        ensures
            old(self).search_done(*final(self), result),
    {
        self.search_pending = false;
        match result {
            Ok((found, notice, no_results)) => {
                self.suggestions = found;
                self.selection = 0;
                self.search_status = match notice {
                    Some(n) => Some(n),
                    None => if no_results {
                        Some(String::from_str("(no models found)"))
                    } else {
                        None
                    },
                };
            },
            Err(e) => {
                let filtered = crate::models::picker::local_filter(self.models.as_slice(), self.query.as_str());
                proof {
                    assert(filtered@.len() == entries_view(filtered@).len());
                }
                self.suggestions = if filtered.len() == 0 {
                    clone_entries(&self.models)
                } else {
                    filtered
                };
                self.selection = 0;
                self.search_status = Some(e.message());
            },
        }
        proof {
            assert(self.suggestions@.len() == entries_view(self.suggestions@).len());
        }
        let ghost before = *self;
        self.sync_reasoning();
        proof {
            if before.suggestions@.len() > 0 {
                assert(before.selected() == Some(before.suggestions@[0]@));
                assert(entries_view(before.suggestions@)[0] == before.suggestions@[0]@);
            }
        }
    }

    /// Take the loaded catalog: it is the whole list, and the model the
    /// tier had before is selected when the catalog holds it.
    pub fn load(&mut self, models: &Vec<ModelEntry>)
        ensures
            final(self).wf(),
            entries_view(final(self).models@) == entries_view(models@),
            entries_view(final(self).suggestions@) == entries_view(models@),
            final(self).selection == match old(self).initial_model {
                Some(id) => match index_of_id(entries_view(models@), id@) {
                    Some(i) => i,
                    None => if old(self).selection < models@.len() {
                        old(self).selection as int
                    } else {
                        0
                    },
                },
                None => if old(self).selection < models@.len() {
                    old(self).selection as int
                } else {
                    0
                },
            },
            final(self).reasoning == old(self).synced_with_list(models@, final(self).selection as int),
            final(self).query@ == old(self).query@,
            final(self).completed == old(self).completed,
            final(self).custom_reasoning == old(self).custom_reasoning,
            final(self).reasoning_explicit == old(self).reasoning_explicit,
            final(self).manual_model@ == old(self).manual_model@,
            final(self).search_status == old(self).search_status,
            final(self).search_pending == old(self).search_pending,
    {
        self.models = clone_entries(models);
        self.suggestions = clone_entries(models);
        proof {
            assert(self.suggestions@.len() == entries_view(self.suggestions@).len());
            assert(models@.len() == entries_view(models@).len());
        }
        let found = match &self.initial_model {
            Some(id) => find_id(models, id.as_str()),
            None => None,
        };
        match found {
            Some(i) => {
                self.selection = i;
            },
            None => {
                if self.selection >= models.len() {
                    self.selection = 0;
                }
            },
        }
        let ghost before = *self;
        self.sync_reasoning();
        proof {
            if before.selection < before.suggestions@.len() {
                assert(before.suggestions@[before.selection as int]@ == entries_view(models@)[before.selection as int]);
                assert(entries_view(models@).skip(before.selection as int)[0] == entries_view(models@)[before.selection as int]);
            }
        }
    }

    /// The strength brought in line with the model at `sel` of `models`.
    pub open spec fn synced_with_list(&self, models: Seq<ModelEntry>, sel: int) -> ReasoningStrength {
        ModelSlot::synced_for(entries_view(models).skip(sel), self.reasoning, self.reasoning_explicit)
    }
}

/// A key as the wizard reads it.
#[derive(Debug, Clone, Copy, PartialEq, Eq, Structural)]
pub enum WizardKey {
    Tab,
    /// Shift-Tab.
    BackTab,
    Enter,
    Esc,
    Up,
    Down,
    PageUp,
    PageDown,
    Backspace,
    /// A character, and whether Ctrl was held.
    Char(char, bool),
    Other,
}

#[derive(Debug, Clone, Copy, PartialEq, Eq, Structural)]
pub enum CredentialStorage {
    Configuration,
    Environment,
}

#[derive(Debug, Clone, Copy, PartialEq, Eq, Structural)]
pub enum CredentialFocus {
    Storage,
    Value,
}

#[derive(Debug, Clone, Copy, PartialEq, Eq, Structural)]
pub enum ModelFocus {
    Table,
    Reasoning,
}

#[derive(Debug, Clone, Copy, PartialEq, Eq, Structural)]
pub enum ShellInstallFocus {
    Question,
    Shells,
}

/// The answer of a shell-integration page: whether to install, and for
/// which shells.
#[derive(Debug, Clone, Copy, PartialEq, Eq)]
pub struct ShellInstallChoice {
    pub focus: ShellInstallFocus,
    pub enabled: bool,
    pub cursor: usize,
    pub selected: [bool; 3],
}

impl ShellInstallChoice {
    pub open spec fn wf(&self) -> bool {
        self.cursor < 3
    }

    pub fn new(selected: [bool; 3]) -> (c: Self)
        ensures
            c.wf(),
            c.focus == ShellInstallFocus::Question,
            !c.enabled,
            c.cursor == 0,
            c.selected == selected,
    {
        ShellInstallChoice { focus: ShellInstallFocus::Question, enabled: false, cursor: 0, selected }
    }

    /// Read a key of the page. At the question, `y` turns installation on
    /// and moves to the shells; `n`, Enter and Tab leave it off and finish
    /// the page. Among the shells, the arrows move, Space toggles, Enter and
    /// Tab finish the page. The result says whether the page is finished.
    pub fn handle_key(&mut self, key: WizardKey) -> (advance: bool)
        requires
            old(self).wf(),
        ensures
            final(self).wf(),
            match old(self).focus {
                ShellInstallFocus::Question => match key {
                    WizardKey::Char(c, _) if c == 'y' || c == 'Y' => !advance && final(self).enabled
                        && final(self).focus == ShellInstallFocus::Shells && final(self).cursor == 0
                        && final(self).selected == old(self).selected,
                    WizardKey::Char(c, _) if c == 'n' || c == 'N' => advance && !final(self).enabled
                        && final(self).focus == old(self).focus && final(self).cursor == old(self).cursor
                        && final(self).selected == old(self).selected,
                    WizardKey::Enter | WizardKey::Tab => advance && !final(self).enabled && final(self).focus
                        == old(self).focus && final(self).cursor == old(self).cursor && final(self).selected
                        == old(self).selected,
                    _ => !advance && *final(self) == *old(self),
                },
                ShellInstallFocus::Shells => match key {
                    WizardKey::Up => !advance && final(self).cursor == (if old(self).cursor > 0 {
                        old(self).cursor - 1
                    } else {
                        0
                    }) && final(self).selected == old(self).selected && final(self).enabled == old(self).enabled
                        && final(self).focus == old(self).focus,
                    WizardKey::Down => !advance && final(self).cursor == (if old(self).cursor < 2 {
                        old(self).cursor + 1
                    } else {
                        2
                    }) && final(self).selected == old(self).selected && final(self).enabled == old(self).enabled
                        && final(self).focus == old(self).focus,
                    WizardKey::Char(c, _) if c == ' ' => !advance && final(self).selected@ == old(
                        self,
                    ).selected@.update(old(self).cursor as int, !old(self).selected@[old(self).cursor as int])
                        && final(self).cursor == old(self).cursor && final(self).enabled == old(self).enabled
                        && final(self).focus == old(self).focus,
                    WizardKey::Enter | WizardKey::Tab => advance && *final(self) == *old(self),
                    _ => !advance && *final(self) == *old(self),
                },
            },
    {
        match self.focus {
            ShellInstallFocus::Question => match key {
                WizardKey::Char(c, _) => {
                    if c == 'y' || c == 'Y' {
                        self.enabled = true;
                        self.focus = ShellInstallFocus::Shells;
                        self.cursor = 0;
                        false
                    } else if c == 'n' || c == 'N' {
                        self.enabled = false;
                        true
                    } else {
                        false
                    }
                },
                WizardKey::Enter | WizardKey::Tab => {
                    self.enabled = false;
                    true
                },
                _ => false,
            },
            ShellInstallFocus::Shells => match key {
                WizardKey::Up => {
                    self.cursor = if self.cursor > 0 {
                        self.cursor - 1
                    } else {
                        0
                    };
                    false
                },
                WizardKey::Down => {
                    self.cursor = if self.cursor < 2 {
                        self.cursor + 1
                    } else {
                        2
                    };
                    false
                },
                WizardKey::Char(c, _) => {
                    if c == ' ' {
                        let i = self.cursor;
                        self.selected[i] = !self.selected[i];
                    }
                    false
                },
                WizardKey::Enter | WizardKey::Tab => true,
                _ => false,
            },
        }
    }
}

/// What the wizard saves.
pub struct SetupWizardResult {
    pub provider: ProviderDraft,
    pub choices: Vec<Option<LevelChoice>>,
    pub completion_shells: Vec<Shell>,
    pub shortcut_shells: Vec<Shell>,
}

/// A search that the program is to ask of the provider, and hand back with
/// its number.
#[derive(Debug)]
pub struct SearchRequest {
    pub slot: usize,
    pub generation: u64,
    pub query: String,
    pub endpoint: String,
    pub key: Option<String>,
    pub models: Vec<ModelEntry>,
}

/// What a key leads to.
pub enum WizardStep {
    /// Nothing to do but draw the wizard again.
    Continue,
    /// The wizard is done: save this.
    Saved(SetupWizardResult),
    /// The wizard was left without saving.
    Cancelled(SetupCancellation),
    /// Fetch the catalog from `endpoint` with `key`, and hand it back.
    LoadCatalog { endpoint: String, key: String },
    /// Ask the provider for this search, and hand the outcome back.
    Search(SearchRequest),
}

/// The setup wizard's state.
pub struct SetupWizard {
    /// The provider that the configuration names as its default.
    pub configured_provider: Option<String>,
    pub provider_name: String,
    pub provider_cursor: usize,
    pub page: SetupPage,
    pub first_page: SetupPage,
    pub last_page: SetupPage,
    pub endpoint: String,
    pub storage: CredentialStorage,
    pub credential_input: String,
    pub credential_focus: CredentialFocus,
    /// The small, normal and thinking tiers.
    pub slots: Vec<ModelSlot>,
    pub model_focus: ModelFocus,
    pub catalog_complete: bool,
    pub catalog_manual: bool,
    /// The number of the latest search; a search whose number is older is
    /// stale.
    pub generation: u64,
    pub validation: String,
    pub save_prompt: bool,
    pub completion: ShellInstallChoice,
    pub shortcut: ShellInstallChoice,
    /// The environment that credential references are read from.
    pub env: Vec<(String, String)>,
}

/// A model page.
pub open spec fn is_model_page(page: SetupPage) -> bool {
    page == SetupPage::SmallModel || page == SetupPage::NormalModel || page == SetupPage::ThinkingModel
}

/// A reasoning page.
pub open spec fn is_reasoning_page(page: SetupPage) -> bool {
    page == SetupPage::SmallReasoning || page == SetupPage::NormalReasoning || page == SetupPage::ThinkingReasoning
}

/// A step that continues or starts a search.
pub open spec fn is_search_step(r: Result<WizardStep, Error>) -> bool {
    r == Ok::<WizardStep, Error>(WizardStep::Continue) || r matches Ok(WizardStep::Search(_))
}

/// The search a step starts, if any.
pub open spec fn search_in(r: Result<WizardStep, Error>) -> Option<SearchRequest> {
    match r {
        Ok(WizardStep::Search(q)) => Some(q),
        _ => None,
    }
}

/// The provider the configuration names as its default, or OpenRouter.
pub open spec fn configured_name(config: &Config) -> Seq<char> {
    match config.defaults.provider {
        Some(p) => p@,
        None => "openrouter"@,
    }
}

/// The settings of that provider; OpenRouter's endpoint alone when there
/// are none.
pub open spec fn configured_provider(config: &Config) -> ProviderConfigView {
    match provider_for(providers_view(config.providers@), configured_name(config)) {
        Some(p) => p,
        None => ProviderConfigView {
            endpoint: openrouter_endpoint(),
            api_key: None,
            default_model: None,
            catalog_endpoint: None,
        },
    }
}

/// How the wizard starts the credential: a configured `${NAME}` as that
/// variable, another configured credential as itself; without one, the
/// model setup on OpenRouter suggests OpenRouter's variable. A variable
/// left unnamed gets the usual name for the endpoint.
pub open spec fn initial_credential(pc: ProviderConfigView, entry: SetupEntryPoint, endpoint: Seq<char>) -> (
    CredentialStorage,
    Seq<char>,
) {
    let start = match pc.api_key {
        Some(v) => credential_split(v),
        None => if entry == SetupEntryPoint::Models && pc.endpoint == openrouter_endpoint() {
            (CredentialStorage::Environment, key_env_for(pc.endpoint))
        } else {
            (CredentialStorage::Configuration, Seq::<char>::empty())
        },
    };
    if start.0 == CredentialStorage::Environment && start.1.len() == 0 {
        (start.0, key_env_for(endpoint))
    } else {
        start
    }
}

/// The first page of an entry point.
pub open spec fn entry_first(entry: SetupEntryPoint) -> SetupPage {
    match entry {
        SetupEntryPoint::Models => SetupPage::SmallModel,
        SetupEntryPoint::Shell => SetupPage::ShellCompletion,
        _ => SetupPage::Provider,
    }
}

/// The last page of an entry point.
pub open spec fn entry_last(entry: SetupEntryPoint) -> SetupPage {
    match entry {
        SetupEntryPoint::Provider => SetupPage::ApiKey,
        SetupEntryPoint::Models => SetupPage::ThinkingReasoning,
        _ => SetupPage::ShellShortcut,
    }
}

/// How a configured credential is shown: a `${NAME}` reference as the
/// variable's name, anything else as the value itself.
pub open spec fn credential_split(key: Seq<char>) -> (CredentialStorage, Seq<char>) {
    if key.len() >= 3 && key[0] == '$' && key[1] == '{' && key.last() == '}' {
        (CredentialStorage::Environment, key.subrange(2, key.len() - 1))
    } else {
        (CredentialStorage::Configuration, key)
    }
}

/// The credential text a draft carries for the chosen storage.
pub open spec fn credential_text(storage: CredentialStorage, input: Seq<char>) -> Seq<char> {
    match storage {
        CredentialStorage::Configuration => input,
        CredentialStorage::Environment => "${"@ + input + "}"@,
    }
}

impl SetupWizard {
    pub open spec fn wf(&self) -> bool {
        &&& self.slots@.len() == 3
        &&& forall|i: int| 0 <= i < 3 ==> (#[trigger] self.slots@[i]).wf()
        &&& self.provider_cursor < 3
        &&& self.completion.wf()
        &&& self.shortcut.wf()
    }

    /// Set up the wizard for an entry point from the configuration. The
    /// program passes the environment, the shells found on the machine, and
    /// for each shell whether its completion and shortcut are installed.
    pub fn from_config(
        config: &Config,
        entry: SetupEntryPoint,
        env: Vec<(String, String)>,
        detected: [bool; 3],
        completion_installed: [bool; 3],
        shortcut_installed: [bool; 3],
    ) -> (r: Result<SetupWizard, Error>)
        ensures
            match r {
                Ok(w) => {
                    &&& w.wf()
                    &&& w.page == entry_first(entry)
                    &&& w.first_page == entry_first(entry)
                    &&& w.last_page == entry_last(entry)
                    &&& w.generation == 0
                    &&& !w.save_prompt
                    &&& w.completion.selected == (if entry == SetupEntryPoint::Shell {
                        completion_installed
                    } else {
                        detected
                    })
                    &&& w.shortcut.selected == (if entry == SetupEntryPoint::Shell {
                        shortcut_installed
                    } else {
                        detected
                    })
                    &&& opt_view(w.slots@[0].initial_model) == opt_view(config.tiers.small)
                    &&& opt_view(w.slots@[1].initial_model) == opt_view(config.tiers.normal)
                    &&& opt_view(w.slots@[2].initial_model) == opt_view(config.tiers.thinking)
                    &&& w.slots@[0].reasoning == crate::setup::stored_strength(opt_view(config.tiers.reasoning.small))
                    &&& w.slots@[1].reasoning == crate::setup::stored_strength(opt_view(config.tiers.reasoning.normal))
                    &&& w.slots@[2].reasoning == crate::setup::stored_strength(
                        opt_view(config.tiers.reasoning.thinking),
                    )
                    &&& w.slots@[0].reasoning_explicit == config.tiers.reasoning.small is Some
                    &&& w.slots@[1].reasoning_explicit == config.tiers.reasoning.normal is Some
                    &&& w.slots@[2].reasoning_explicit == config.tiers.reasoning.thinking is Some
                    &&& forall|i: int| 0 <= i < 3 ==> (#[trigger] w.slots@[i]).models@.len() == 0
                        && w.slots@[i].completed is None
                    &&& opt_view(w.configured_provider) == opt_view(config.defaults.provider)
                    &&& w.provider_name@ == configured_name(config)
                    &&& w.provider_cursor == if configured_name(config) == "openrouter"@ {
                        0usize
                    } else if configured_name(config) == "openai"@ {
                        1usize
                    } else {
                        2usize
                    }
                    &&& w.endpoint@ == if configured_provider(config).endpoint.len() == 0 {
                        openrouter_endpoint()
                    } else {
                        configured_provider(config).endpoint
                    }
                    &&& (w.storage, w.credential_input@) == initial_credential(
                        configured_provider(config),
                        entry,
                        w.endpoint@,
                    )
                    &&& w.credential_focus == if page_index(entry_first(entry)) >= page_index(SetupPage::SmallModel) {
                        CredentialFocus::Value
                    } else {
                        CredentialFocus::Storage
                    }
                    &&& w.model_focus == ModelFocus::Table
                    &&& !w.catalog_complete
                    &&& !w.catalog_manual
                    &&& w.validation@.len() == 0
                    &&& w.env@ == env@
                },
                Err(e) => entry == SetupEntryPoint::Models && provider_for(
                    providers_view(config.providers@),
                    configured_name(config),
                ) is None && (e matches Error::ProviderNotFound(n) && n@ == configured_name(config)),
            },
            r is Err == (entry == SetupEntryPoint::Models && provider_for(
                providers_view(config.providers@),
                configured_name(config),
            ) is None),
    {
        let provider_name = match &config.defaults.provider {
            Some(p) => p.clone(),
            None => String::from_str("openrouter"),
        };
        let provider = match crate::config::resolve_provider(config, provider_name.as_str()) {
            Ok(p) => p,
            Err(e) => {
                if entry == SetupEntryPoint::Models {
                    return Err(e);
                }
                crate::config::types::ProviderConfig {
                    endpoint: String::from_str(OPENROUTER_ENDPOINT),
                    api_key: None,
                    default_model: None,
                    catalog_endpoint: None,
                }
            },
        };
        let (storage, credential_input) = match &provider.api_key {
            Some(value) => {
                let chars = crate::text::chars_of(value.as_str());
                let n = chars.len();
                if n >= 3 && chars[0] == '$' && chars[1] == '{' && chars[n - 1] == '}' {
                    (CredentialStorage::Environment, crate::text::string_from(chars.as_slice(), 2, n - 1))
                } else {
                    (CredentialStorage::Configuration, value.clone())
                }
            },
            None => {
                if entry == SetupEntryPoint::Models && str_eq(provider.endpoint.as_str(), OPENROUTER_ENDPOINT) {
                    (CredentialStorage::Environment, suggested_api_key_env(provider.endpoint.as_str()).to_string())
                } else {
                    (CredentialStorage::Configuration, String::new())
                }
            },
        };
        let first_page = match entry {
            SetupEntryPoint::Models => SetupPage::SmallModel,
            SetupEntryPoint::Shell => SetupPage::ShellCompletion,
            _ => SetupPage::Provider,
        };
        let last_page = match entry {
            SetupEntryPoint::Provider => SetupPage::ApiKey,
            SetupEntryPoint::Models => SetupPage::ThinkingReasoning,
            _ => SetupPage::ShellShortcut,
        };
        let mut slots: Vec<ModelSlot> = Vec::new();
        slots.push(ModelSlot::new(
            crate::review::response::clone_opt(&config.tiers.small),
            crate::setup::parse_reasoning(opt_str(&config.tiers.reasoning.small)),
            config.tiers.reasoning.small.is_some(),
        ));
        slots.push(ModelSlot::new(
            crate::review::response::clone_opt(&config.tiers.normal),
            crate::setup::parse_reasoning(opt_str(&config.tiers.reasoning.normal)),
            config.tiers.reasoning.normal.is_some(),
        ));
        slots.push(ModelSlot::new(
            crate::review::response::clone_opt(&config.tiers.thinking),
            crate::setup::parse_reasoning(opt_str(&config.tiers.reasoning.thinking)),
            config.tiers.reasoning.thinking.is_some(),
        ));
        let shell_entry = entry == SetupEntryPoint::Shell;
        let provider_cursor: usize = if str_eq(provider_name.as_str(), "openrouter") {
            0
        } else if str_eq(provider_name.as_str(), "openai") {
            1
        } else {
            2
        };
        let endpoint = if provider.endpoint.unicode_len() == 0 {
            String::from_str(OPENROUTER_ENDPOINT)
        } else {
            provider.endpoint.clone()
        };
        let credential_focus = if first_page.index() >= SetupPage::SmallModel.index() {
            CredentialFocus::Value
        } else {
            CredentialFocus::Storage
        };
        let mut wizard = SetupWizard {
            configured_provider: crate::review::response::clone_opt(&config.defaults.provider),
            provider_name,
            provider_cursor,
            page: first_page,
            first_page,
            last_page,
            endpoint,
            storage,
            credential_input,
            credential_focus,
            slots,
            model_focus: ModelFocus::Table,
            catalog_complete: false,
            catalog_manual: false,
            generation: 0,
            validation: String::new(),
            save_prompt: false,
            completion: ShellInstallChoice::new(if shell_entry { completion_installed } else { detected }),
            shortcut: ShellInstallChoice::new(if shell_entry { shortcut_installed } else { detected }),
            env,
        };
        if wizard.storage == CredentialStorage::Environment && wizard.credential_input.unicode_len() == 0 {
            wizard.credential_input = suggested_api_key_env(wizard.endpoint.as_str()).to_string();
        }
        assert(wizard.slots@[0].wf() && wizard.slots@[1].wf() && wizard.slots@[2].wf());
        assert forall|i: int| 0 <= i < 3 implies (#[trigger] wizard.slots@[i]).wf() by {
            if i == 0 {
            } else if i == 1 {
            } else {
            }
        }
        Ok(wizard)
    }

    /// The provider that the wizard's answers describe.
    pub fn current_provider(&self) -> (r: Result<ProviderDraft, Error>)
        ensures
            crate::provider::setup::draft_outcome(
                self.endpoint@,
                credential_text(self.storage, self.credential_input@),
                r,
            ),
    {
        let api_key = match self.storage {
            CredentialStorage::Configuration => self.credential_input.clone(),
            CredentialStorage::Environment => {
                let mut k = String::from_str("${");
                crate::text::push_str(&mut k, self.credential_input.as_str());
                crate::text::push_str(&mut k, "}");
                k
            },
        };
        build_provider_draft(self.endpoint.as_str(), api_key.as_str())
    }

    /// The credential that requests use: the answer, or the variable it
    /// names.
    pub fn request_credential(&self) -> (r: Result<String, Error>)
        ensures
            ({
                let key = credential_text(self.storage, self.credential_input@);
                if crate::provider::setup::draft_accepted(self.endpoint@, key) {
                    crate::config::auth_result(r, crate::config::expanded_key(key, env_view(self.env@)))
                } else {
                    r matches Err(e) && crate::provider::setup::draft_error(self.endpoint@, key, e)
                }
            }),
    {
        let draft = self.current_provider()?;
        crate::config::expand_api_key(draft.api_key.as_str(), self.env.as_slice())
    }

    /// What the wizard saves: the three tiers' choices, the shells ticked
    /// for each integration, and the provider that the answers describe
    /// (none but an empty custom one for the shells alone).
    pub open spec fn saved_as(&self, res: SetupWizardResult) -> bool {
        &&& res.choices@.len() == 3
        &&& forall|i: int| 0 <= i < 3 ==> same_choice(#[trigger] res.choices@[i], self.slots@[i].completed)
        &&& res.completion_shells@ == crate::setup::ticked(
            self.completion.enabled,
            self.completion.selected@[0],
            self.completion.selected@[1],
            self.completion.selected@[2],
        )
        &&& res.shortcut_shells@ == crate::setup::ticked(
            self.shortcut.enabled,
            self.shortcut.selected@[0],
            self.shortcut.selected@[1],
            self.shortcut.selected@[2],
        )
        &&& if self.first_page == SetupPage::ShellCompletion {
            &&& res.provider.name@ == "custom"@
            &&& res.provider.endpoint@.len() == 0
            &&& res.provider.api_key@.len() == 0
            &&& res.provider.identity == ProviderIdentity::Custom
        } else {
            crate::provider::setup::draft_outcome(
                self.endpoint@,
                credential_text(self.storage, self.credential_input@),
                Ok::<ProviderDraft, Error>(res.provider),
            )
        }
    }

    /// What the wizard saves. A shell-only wizard saves no provider.
    pub fn result(&self) -> (r: Result<SetupWizardResult, Error>)
        requires
            self.wf(),
        ensures
            match r {
                Ok(res) => self.saved_as(res),
                Err(e) => self.first_page != SetupPage::ShellCompletion && crate::provider::setup::draft_error(
                    self.endpoint@,
                    credential_text(self.storage, self.credential_input@),
                    e,
                ),
            },
            r is Err == (self.first_page != SetupPage::ShellCompletion && !crate::provider::setup::draft_accepted(
                self.endpoint@,
                credential_text(self.storage, self.credential_input@),
            )),
    {
        let provider = if self.first_page == SetupPage::ShellCompletion {
            ProviderDraft {
                name: String::from_str("custom"),
                endpoint: String::new(),
                api_key: String::new(),
                identity: ProviderIdentity::Custom,
            }
        } else {
            self.current_provider()?
        };
        let mut choices: Vec<Option<LevelChoice>> = Vec::new();
        let mut i: usize = 0;
        while i < 3
            invariant
                i <= 3,
                self.wf(),
                choices@.len() == i,
                forall|j: int| 0 <= j < i ==> same_choice(#[trigger] choices@[j], self.slots@[j].completed),
            decreases 3 - i,
        {
            let choice = match &self.slots[i].completed {
                Some(c) => Some(c.clone()),
                None => None,
            };
            choices.push(choice);
            i += 1;
        }
        Ok(SetupWizardResult {
            provider,
            choices,
            completion_shells: selected_shells(self.completion.enabled, self.completion.selected),
            shortcut_shells: selected_shells(self.shortcut.enabled, self.shortcut.selected),
        })
    }

    /// Choose where the credential is kept: `e` keeps a variable's name,
    /// anything else the value; an empty name is prefilled with the usual
    /// variable of the endpoint.
    pub fn choose_storage(&mut self, c: char)
        ensures
            old(self).storage_chosen(*final(self), c),
    {
        self.storage = if c == 'e' || c == 'E' {
            CredentialStorage::Environment
        } else {
            CredentialStorage::Configuration
        };
        if self.storage == CredentialStorage::Environment && self.credential_input.unicode_len() == 0 {
            self.credential_input = suggested_api_key_env(self.endpoint.as_str()).to_string();
        }
        self.credential_focus = CredentialFocus::Value;
    }

    /// Check the answer of the page before leaving it: the URL page keeps
    /// the normalized endpoint; the credential page needs a credential, and
    /// a valid variable name when a variable is named. The result says
    /// whether the page may be left; a refusal sets the validation message.
    pub fn validate_current_page(&mut self) -> (ok: bool)
        ensures
            final(self).slots == old(self).slots,
            final(self).provider_name == old(self).provider_name,
            final(self).page == old(self).page,
            final(self).storage == old(self).storage,
            final(self).provider_cursor == old(self).provider_cursor,
            final(self).completion == old(self).completion,
            final(self).shortcut == old(self).shortcut,
            final(self).generation == old(self).generation,
            final(self).first_page == old(self).first_page,
            final(self).last_page == old(self).last_page,
            final(self).credential_focus == old(self).credential_focus,
            final(self).catalog_manual == old(self).catalog_manual,
            old(self).page == SetupPage::ApiKey ==> {
                &&& ok == (trim(old(self).credential_input@).len() > 0 && (old(self).storage
                    == CredentialStorage::Environment ==> crate::setup::environment_name(
                    old(self).credential_input@,
                )))
                &&& trim(old(self).credential_input@).len() == 0 ==> final(self).validation@
                    == "credential cannot be empty"@
                &&& trim(old(self).credential_input@).len() > 0 && !ok ==> final(self).validation@
                    == "environment variable name is invalid"@
                &&& ok ==> final(self).validation@.len() == 0
            },
            old(self).page != SetupPage::Url && old(self).page != SetupPage::ApiKey ==> ok && final(self).endpoint
                == old(self).endpoint && final(self).validation == old(self).validation,
            old(self).page == SetupPage::Url ==> ok == crate::provider::setup::endpoint_accepted(
                crate::provider::setup::endpoint_text(old(self).endpoint@),
            ),
            old(self).page == SetupPage::Url && ok ==> final(self).endpoint@ == crate::provider::setup::endpoint_text(
                old(self).endpoint@,
            ),
    {
        match self.page {
            SetupPage::Url => {
                match crate::provider::setup::normalize_endpoint(self.endpoint.as_str()) {
                    Ok(e) => {
                        self.endpoint = e;
                        if self.storage == CredentialStorage::Environment && self.credential_input.unicode_len() == 0 {
                            self.credential_input = suggested_api_key_env(self.endpoint.as_str()).to_string();
                        }
                        true
                    },
                    Err(e) => {
                        self.validation = e.message();
                        false
                    },
                }
            },
            SetupPage::ApiKey => {
                if crate::text::is_blank(self.credential_input.as_str()) {
                    self.validation = String::from_str("credential cannot be empty");
                    proof {
                        crate::text::lemma_trim_empty(old(self).credential_input@);
                    }
                    return false;
                }
                proof {
                    crate::text::lemma_trim_empty(old(self).credential_input@);
                }
                if self.storage == CredentialStorage::Environment && !valid_environment_name(
                    self.credential_input.as_str(),
                ) {
                    self.validation = String::from_str("environment variable name is invalid");
                    return false;
                }
                self.validation = String::new();
                true
            },
            _ => true,
        }
    }
}

fn opt_str(o: &Option<String>) -> (r: Option<&str>)
    ensures
        crate::config::types::opt_str_view(r) == opt_view(*o),
{
    match o {
        Some(s) => Some(s.as_str()),
        None => None,
    }
}

/// The number after `g`, wrapping around as an atomic counter does.
pub open spec fn bumped(g: u64) -> u64 {
    if g == u64::MAX {
        0
    } else {
        (g + 1) as u64
    }
}

pub fn bump(g: u64) -> (r: u64)
    ensures
        r == bumped(g),
{
    if g == u64::MAX {
        0
    } else {
        g + 1
    }
}

proof fn lemma_slots_wf(slots: Seq<ModelSlot>, i: int, s: ModelSlot)
    requires
        slots.len() == 3,
        forall|j: int| 0 <= j < 3 ==> (#[trigger] slots[j]).wf(),
        0 <= i < 3,
        s.wf(),
    ensures
        forall|j: int| 0 <= j < 3 ==> (#[trigger] slots.update(i, s)[j]).wf(),
{
    assert forall|j: int| 0 <= j < 3 implies (#[trigger] slots.update(i, s)[j]).wf() by {
        if j != i {
            assert(slots.update(i, s)[j] == slots[j]);
        }
    }
}

impl SetupWizard {
    /// The slot that the page's arrows act on: its reasoning slot, else its
    /// model slot.
    pub open spec fn arrow_slot(&self) -> Option<int> {
        match self.page {
            SetupPage::SmallModel | SetupPage::SmallReasoning => Some(0),
            SetupPage::NormalModel | SetupPage::NormalReasoning => Some(1),
            SetupPage::ThinkingModel | SetupPage::ThinkingReasoning => Some(2),
            _ => None,
        }
    }

    /// The state that `move_up` leaves.
    pub open spec fn up_to(&self, next: SetupWizard) -> bool {
        &&& next.wf()
        &&& next.page == self.page
        &&& next.generation == self.generation
        &&& self.page == SetupPage::Provider ==> next.provider_cursor == (if self.provider_cursor
                    > 0 {
                    self.provider_cursor - 1
                } else {
                    0
                })
        &&& self.page == SetupPage::ApiKey && self.credential_focus == CredentialFocus::Storage
                    ==> next.storage == CredentialStorage::Configuration
        &&& match self.arrow_slot() {
                    Some(s) => self.others_kept(&next, s) && if self.arrows_step_reasoning() {
                        self.slots@[s].reasoning_stepped(next.slots@[s], false)
                    } else {
                        self.slots@[s].moved_up(next.slots@[s])
                    },
                    None => next.slots@ == self.slots@,
                }
    }

    /// The state that `move_down` leaves.
    pub open spec fn down_to(&self, next: SetupWizard) -> bool {
        &&& next.wf()
        &&& next.page == self.page
        &&& next.generation == self.generation
        &&& self.page == SetupPage::Provider ==> next.provider_cursor == (if self.provider_cursor
                    < 2 {
                    self.provider_cursor + 1
                } else {
                    2
                })
        &&& self.page == SetupPage::ApiKey && self.credential_focus == CredentialFocus::Storage
                    ==> next.storage == CredentialStorage::Environment && next.credential_input@ == if self.credential_input@.len() == 0 {
                    key_env_for(self.endpoint@)
                } else {
                    self.credential_input@
                }
        &&& match self.arrow_slot() {
                    Some(s) => self.others_kept(&next, s) && if self.arrows_step_reasoning() {
                        self.slots@[s].reasoning_stepped(next.slots@[s], true)
                    } else {
                        self.slots@[s].moved_down(next.slots@[s])
                    },
                    None => next.slots@ == self.slots@,
                }
    }

    /// The state that `move_page` leaves.
    pub open spec fn paged_to(&self, next: SetupWizard, forward: bool) -> bool {
        &&& next.wf()
        &&& next.page == self.page
        &&& next.generation == self.generation
        &&& ({
                    let slot = match self.page {
                        SetupPage::SmallModel => Some(0int),
                        SetupPage::NormalModel => Some(1int),
                        SetupPage::ThinkingModel => Some(2int),
                        _ => None,
                    };
                    match slot {
                        Some(s) => if self.model_focus == ModelFocus::Reasoning {
                            next.slots@ == self.slots@
                        } else {
                            self.others_kept(&next, s) && self.slots@[s].paged(next.slots@[s], forward)
                        },
                        None => next.slots@ == self.slots@,
                    }
                })
    }

    /// The state that `move_previous` leaves: the previous page, when it
    /// belongs to the entry point, with the message cleared, the credential
    /// value focused on the credential page, and a fresh search number and
    /// search on a model page; else nothing changes.
    pub open spec fn previous_to(&self, next: SetupWizard) -> bool {
        &&& next.wf()
        &&& match crate::setup::page_previous(self.page) {
            Some(p) if page_index(p) >= page_index(self.first_page) => {
                &&& next.page == p
                &&& next.validation@.len() == 0
                &&& next.credential_focus == if p == SetupPage::ApiKey {
                    CredentialFocus::Value
                } else {
                    self.credential_focus
                }
                &&& next.generation == if is_model_page(p) {
                    bumped(self.generation)
                } else {
                    self.generation
                }
                &&& !is_model_page(p) ==> next.slots@ == self.slots@
                &&& next.endpoint == self.endpoint
                &&& next.credential_input == self.credential_input
                &&& next.storage == self.storage
            },
            _ => next == *self,
        }
    }

    /// The state that `edit_input` leaves: the character is typed into (or
    /// one erased from) the URL, the credential value, the tier's manual
    /// model or search query, or its custom effort; a new query starts a
    /// search.
    pub open spec fn edited_to(&self, next: SetupWizard, c: Option<char>, r: Option<SearchRequest>) -> bool {
        &&& next.wf()
        &&& next.page == self.page
        &&& next.generation == self.generation || next.generation == bumped(self.generation)
        &&& self.page == SetupPage::Url ==> next.endpoint@ == typed(self.endpoint@, c) && r is None
        &&& self.page == SetupPage::ApiKey ==> r is None && next.credential_input@ == if self.credential_focus
            == CredentialFocus::Value {
            typed(self.credential_input@, c)
        } else {
            self.credential_input@
        }
        &&& self.page == SetupPage::SmallModel || self.page == SetupPage::NormalModel || self.page
            == SetupPage::ThinkingModel ==> if self.model_focus != ModelFocus::Table {
            r is None && next == *self
        } else {
            match self.arrow_slot() {
            Some(s) => if self.catalog_manual {
                &&& r is None
                &&& next.slots@[s].manual_model@ == typed(self.slots@[s].manual_model@, c)
                &&& next.generation == self.generation
            } else {
                let query = typed(self.slots@[s].query@, c);
                &&& next.generation == bumped(self.generation)
                &&& r is Some == (query.len() > 0 && !self.catalog_complete)
                &&& r matches Some(req) ==> req.slot == s && req.query@ == query && req.endpoint@
                    == self.endpoint@
            },
            None => false,
            }
        }
        &&& is_reasoning_page(self.page) ==> match self.arrow_slot() {
            Some(s) => {
                &&& r is None
                &&& next.generation == self.generation
                &&& next.slots@[s].custom_reasoning matches Some(t) ==> self.slots@[s].custom_reasoning matches Some(
                    u,
                ) && t@ == typed(u@, c)
                &&& next.slots@[s].custom_reasoning is None == self.slots@[s].custom_reasoning is None
            },
            None => false,
        }
        &&& match r {
            Some(req) => req.generation == next.generation,
            None => true,
        }
    }

    /// The state that `move_next` leaves.
    pub open spec fn next_to(&self, next: SetupWizard, r: Result<WizardStep, Error>) -> bool {
        &&& next.wf()
        &&& next.generation == self.generation
        &&& match r {
                    Ok(WizardStep::Saved(_)) => self.page == self.last_page,
                    Ok(WizardStep::LoadCatalog { endpoint, .. }) => (next.page == SetupPage::SmallModel
                        || next.page == SetupPage::NormalModel || next.page == SetupPage::ThinkingModel)
                        && self.slots@[0].models@.len() == 0 && endpoint@ == next.endpoint@,
                    Ok(WizardStep::Cancelled(_)) | Ok(WizardStep::Search(_)) => false,
                    _ => true,
                }
        &&& self.page == SetupPage::Provider ==> next.provider_name@ == if self.provider_cursor == 0 {
            "openrouter"@
        } else if self.provider_cursor == 1 {
            "openai"@
        } else {
            "custom"@
        }
        &&& self.page == SetupPage::ApiKey && self.credential_focus == CredentialFocus::Storage ==> {
            &&& r == Ok::<WizardStep, Error>(WizardStep::Continue)
            &&& next.page == SetupPage::ApiKey
            &&& next.credential_focus == CredentialFocus::Value
            &&& next.validation@.len() == 0
        }
        &&& r is Err ==> self.page == self.last_page
        &&& is_model_page(self.page) && (next.page != self.page || r is Err || r matches Ok(WizardStep::Saved(_)))
            ==> (self.arrow_slot() matches Some(s) && next.slots@[s].completed is Some)
        &&& is_reasoning_page(self.page) && (next.page != self.page || r is Err || r matches Ok(
            WizardStep::Saved(_),
        )) ==> (self.arrow_slot() matches Some(s) && next.slots@[s].reasoning_explicit && (
        next.slots@[s].custom_reasoning matches Some(t) ==> !crate::text::all_ws(t@)))
        &&& r matches Ok(WizardStep::Saved(res)) ==> next.page == self.page && next.saved_as(res)
        &&& r matches Ok(WizardStep::LoadCatalog { key, .. }) ==> crate::config::expanded_key(
            credential_text(next.storage, next.credential_input@),
            env_view(next.env@),
        ) == Ok::<Seq<char>, Seq<char>>(key@)
        &&& {
            ||| next.page == self.page
            ||| crate::setup::page_next(self.page) matches Some(q) && next.page == q && page_index(q) >= page_index(
                self.first_page,
            ) && page_index(q) <= page_index(self.last_page)
            ||| crate::setup::page_next(self.page) matches Some(q) && is_model_page(q) && next.page
                == SetupPage::ApiKey && next.credential_focus == CredentialFocus::Value && r == Ok::<
                WizardStep,
                Error,
            >(WizardStep::Continue)
        }
    }

    /// The state that `handle_save_prompt` leaves.
    pub open spec fn prompt_answered(&self, next: SetupWizard, key: WizardKey, r: WizardStep) -> bool {
        let save = match key {
            WizardKey::Char(c, _) => c == 'y' || c == 'Y',
            WizardKey::Enter => true,
            _ => false,
        };
        let refused = self.first_page != SetupPage::ShellCompletion && !crate::provider::setup::draft_accepted(
            self.endpoint@,
            credential_text(self.storage, self.credential_input@),
        );
        &&& next.wf()
        &&& next.page == self.page
        &&& if key matches WizardKey::Char(c, _) && (c == 'n' || c == 'N') {
            r == WizardStep::Cancelled(SetupCancellation::Escape) && next == SetupWizard {
                generation: bumped(self.generation),
                ..*self
            }
        } else if key == WizardKey::Esc {
            r == WizardStep::Continue && next == SetupWizard { save_prompt: false, ..*self }
        } else if save {
            &&& next.generation == self.generation
            &&& refused ==> r == WizardStep::Continue && !next.save_prompt && next == SetupWizard { save_prompt: false, validation: next.validation, ..*self }
            &&& !refused ==> r is Saved && next == *self && (r matches WizardStep::Saved(res) && self.saved_as(res))
        } else {
            r == WizardStep::Continue && next == *self
        }
    }

    /// The state that `handle_shell_install_key` leaves.
    pub open spec fn shell_key_to(&self, next: SetupWizard, key: WizardKey, r: Result<WizardStep, Error>) -> bool {
        &&& next.wf()
        &&& key == WizardKey::Esc ==> r == Ok::<WizardStep, Error>(WizardStep::Continue) && next == SetupWizard {
            save_prompt: true,
            ..*self
        }
        &&& key == WizardKey::BackTab ==> r == Ok::<WizardStep, Error>(WizardStep::Continue) && self.previous_to(next)
        &&& (r is Err || (r matches Ok(WizardStep::Saved(_)))) ==> self.page == SetupPage::ShellShortcut
        &&& r matches Ok(WizardStep::Saved(res)) ==> next.saved_as(res)
        &&& !(r matches Ok(WizardStep::Cancelled(_)))
        &&& !(r matches Ok(WizardStep::Search(_)))
        &&& !(r matches Ok(WizardStep::LoadCatalog { .. }))
    }

    /// The state that `choose_storage` leaves.
    pub open spec fn storage_chosen(&self, next: SetupWizard, c: char) -> bool {
        &&& next.storage == if c == 'e' || c == 'E' {
                    CredentialStorage::Environment
                } else {
                    CredentialStorage::Configuration
                }
        &&& next.credential_focus == CredentialFocus::Value
        &&& next.credential_input@ == if next.storage == CredentialStorage::Environment
                    && self.credential_input@.len() == 0 {
                    key_env_for(self.endpoint@)
                } else {
                    self.credential_input@
                }
        &&& next.endpoint == self.endpoint
        &&& next.slots == self.slots
        &&& next.page == self.page
        &&& next.provider_cursor == self.provider_cursor
        &&& next.completion == self.completion
        &&& next.shortcut == self.shortcut
        &&& next.generation == self.generation
    }

    /// Ctrl-C on a reasoning page: the tier takes a custom effort, empty
    /// for now, as an explicit choice; nothing else changes.
    pub open spec fn custom_started(&self, next: SetupWizard) -> bool {
        match self.arrow_slot() {
            Some(s) => {
                &&& next.slots@[s].custom_reasoning matches Some(t) && t@.len() == 0
                &&& next.slots@[s] == ModelSlot {
                    custom_reasoning: next.slots@[s].custom_reasoning,
                    reasoning_explicit: true,
                    ..self.slots@[s]
                }
                &&& self.others_kept(&next, s)
                &&& next == SetupWizard { slots: next.slots, ..*self }
            },
            None => false,
        }
    }

    /// The state that `handle_key` leaves, key by key.
    pub open spec fn handled(&self, next: SetupWizard, key: WizardKey, r: Result<WizardStep, Error>) -> bool {
        let cont = Ok::<WizardStep, Error>(WizardStep::Continue);
        &&& next.wf()
        &&& match key {
            WizardKey::BackTab => r == cont && self.previous_to(next),
            WizardKey::Tab | WizardKey::Enter => self.next_to(next, r),
            WizardKey::Up => r == cont && self.up_to(next),
            WizardKey::Down => r == cont && self.down_to(next),
            WizardKey::PageUp => r == cont && self.paged_to(next, false),
            WizardKey::PageDown => r == cont && self.paged_to(next, true),
            WizardKey::Backspace => is_search_step(r) && self.edited_to(next, None, search_in(r)),
            WizardKey::Char(c, ctrl) => if c == 'r' && ctrl && is_model_page(self.page) {
                r == cont && next == SetupWizard {
                    model_focus: match self.model_focus {
                        ModelFocus::Table => ModelFocus::Reasoning,
                        ModelFocus::Reasoning => ModelFocus::Table,
                    },
                    ..*self
                }
            } else if self.page == SetupPage::ApiKey && self.credential_focus == CredentialFocus::Storage && (c == 'p'
                || c == 'P' || c == 'e' || c == 'E') {
                r == cont && self.storage_chosen(next, c)
            } else if is_reasoning_page(self.page) && (c == 'c' || c == 'C') {
                r == cont && self.custom_started(next)
            } else {
                is_search_step(r) && self.edited_to(next, Some(c), search_in(r))
            },
            _ => r == cont && next == *self,
        }
    }

    /// The state that `key` leaves.
    pub open spec fn keyed(&self, next: SetupWizard, key: WizardKey, r: Result<WizardStep, Error>) -> bool {
        &&& next.wf()
        &&& if key == WizardKey::Char('c', true) {
                    r == Ok::<WizardStep, Error>(WizardStep::Cancelled(SetupCancellation::CtrlC)) && next
                        == SetupWizard { generation: bumped(self.generation), ..*self }
                } else if key == WizardKey::Char('u', true) {
                    r == Ok::<WizardStep, Error>(WizardStep::Continue) && if self.page == SetupPage::Url {
                        next.endpoint@.len() == 0 && next == SetupWizard {
                            endpoint: next.endpoint,
                            ..*self
                        }
                    } else if self.page == SetupPage::ApiKey && self.credential_focus == CredentialFocus::Value {
                        next.credential_input@.len() == 0 && next == SetupWizard {
                            credential_input: next.credential_input,
                            ..*self
                        }
                    } else {
                        next == *self
                    }
                } else if self.save_prompt {
                    r matches Ok(step) && self.prompt_answered(next, key, step)
                } else if self.page == SetupPage::ShellCompletion || self.page == SetupPage::ShellShortcut {
                    self.shell_key_to(next, key, r)
                } else if key == WizardKey::Esc {
                    r == Ok::<WizardStep, Error>(WizardStep::Continue) && next == SetupWizard {
                        save_prompt: true,
                        ..*self
                    }
                } else {
                    self.handled(next, key, r)
                }
        &&& r matches Ok(WizardStep::Cancelled(c)) ==> (key == WizardKey::Char('c', true) && c
                    == SetupCancellation::CtrlC) || (self.save_prompt && c == SetupCancellation::Escape)
        &&& match r {
                    Ok(WizardStep::Search(req)) => req.generation == next.generation,
                    _ => true,
                }
    }

    /// The arrows step the tier's reasoning rather than its selection: on a
    /// reasoning page, or with the focus on the reasoning column.
    pub open spec fn arrows_step_reasoning(&self) -> bool {
        match self.page {
            SetupPage::SmallReasoning | SetupPage::NormalReasoning | SetupPage::ThinkingReasoning => true,
            _ => self.model_focus == ModelFocus::Reasoning,
        }
    }

    /// Only the slot `s` may have changed.
    pub open spec fn others_kept(&self, next: &SetupWizard, s: int) -> bool {
        forall|j: int| 0 <= j < 3 && j != s ==> next.slots@[j] == #[trigger] self.slots@[j]
    }

    /// Up: the provider list moves up; the storage choice takes the
    /// configuration; on a tier's pages the reasoning steps back (on its
    /// reasoning page, or with the focus on reasoning), else the selection
    /// moves up.
    pub fn move_up(&mut self)
        requires
            old(self).wf(),
        ensures
            old(self).up_to(*final(self)),
    {
        if self.page == SetupPage::Provider {
            self.provider_cursor = if self.provider_cursor > 0 {
                self.provider_cursor - 1
            } else {
                0
            };
            return;
        }
        if self.page == SetupPage::ApiKey && self.credential_focus == CredentialFocus::Storage {
            self.storage = CredentialStorage::Configuration;
            return;
        }
        let slot = match self.page.reasoning_slot() {
            Some(s) => s,
            None => match self.page.model_slot() {
                Some(s) => s,
                None => return,
            },
        };
        let ghost slots = self.slots@;
        if self.page.reasoning_slot().is_some() || self.model_focus == ModelFocus::Reasoning {
            self.slots[slot].cycle_reasoning(false);
            proof {
                assert(self.slots@[slot as int].wf() == slots[slot as int].wf()) by {
                    assert(self.slots@[slot as int].suggestions@.len() == entries_view(self.slots@[slot as int].suggestions@).len());
                    assert(slots[slot as int].suggestions@.len() == entries_view(slots[slot as int].suggestions@).len());
                }
                lemma_slots_wf(slots, slot as int, self.slots@[slot as int]);
            }
        } else {
            self.slots[slot].select_up();
            proof {
                lemma_slots_wf(slots, slot as int, self.slots@[slot as int]);
            }
        }
    }

    /// Down: the provider list moves down; the storage choice takes a
    /// variable (its usual name prefilled when empty); on a tier's pages
    /// the reasoning steps forward, else the selection moves down.
    pub fn move_down(&mut self)
        requires
            old(self).wf(),
        ensures
            old(self).down_to(*final(self)),
    {
        if self.page == SetupPage::Provider {
            self.provider_cursor = if self.provider_cursor < 2 {
                self.provider_cursor + 1
            } else {
                2
            };
            return;
        }
        if self.page == SetupPage::ApiKey && self.credential_focus == CredentialFocus::Storage {
            self.storage = CredentialStorage::Environment;
            if self.credential_input.unicode_len() == 0 {
                self.credential_input = suggested_api_key_env(self.endpoint.as_str()).to_string();
            }
            return;
        }
        let slot = match self.page.reasoning_slot() {
            Some(s) => s,
            None => match self.page.model_slot() {
                Some(s) => s,
                None => return,
            },
        };
        let ghost slots = self.slots@;
        if self.page.reasoning_slot().is_some() || self.model_focus == ModelFocus::Reasoning {
            self.slots[slot].cycle_reasoning(true);
            proof {
                assert(self.slots@[slot as int].wf() == slots[slot as int].wf()) by {
                    assert(self.slots@[slot as int].suggestions@.len() == entries_view(self.slots@[slot as int].suggestions@).len());
                    assert(slots[slot as int].suggestions@.len() == entries_view(slots[slot as int].suggestions@).len());
                }
                lemma_slots_wf(slots, slot as int, self.slots@[slot as int]);
            }
        } else {
            self.slots[slot].select_down();
            proof {
                lemma_slots_wf(slots, slot as int, self.slots@[slot as int]);
            }
        }
    }

    /// Page up or down in the model table.
    pub fn move_page(&mut self, forward: bool)
        requires
            old(self).wf(),
        ensures
            old(self).paged_to(*final(self), forward),
    {
        let slot = match self.page.model_slot() {
            Some(s) => s,
            None => return,
        };
        if self.model_focus == ModelFocus::Reasoning {
            return;
        }
        let ghost slots = self.slots@;
        self.slots[slot].select_page(forward);
        proof {
            lemma_slots_wf(slots, slot as int, self.slots@[slot as int]);
        }
    }

    /// Start a search for the query of `slot`: the search gets the next
    /// number, and a request when the provider is to be asked.
    pub fn search(&mut self, slot: usize) -> (r: Option<SearchRequest>)
        requires
            old(self).wf(),
            slot < 3,
        ensures
            final(self).wf(),
            final(self).generation == bumped(old(self).generation),
            final(self).page == old(self).page,
            match r {
                Some(req) => req.slot == slot && req.generation == final(self).generation && req.query@ == old(
                    self,
                ).slots@[slot as int].query@ && req.endpoint@ == old(self).endpoint@ && entries_view(req.models@)
                    == entries_view(old(self).slots@[slot as int].models@),
                None => true,
            },
            r is Some == (old(self).slots@[slot as int].query@.len() > 0 && !old(self).catalog_complete),
    {
        let query = self.slots[slot].query.clone();
        self.generation = bump(self.generation);
        let ghost slots = self.slots@;
        let complete = self.catalog_complete;
        let remote = self.slots[slot].search(complete);
        proof {
            lemma_slots_wf(slots, slot as int, self.slots@[slot as int]);
        }
        if !remote {
            return None;
        }
        let key = match self.request_credential() {
            Ok(k) => Some(k),
            Err(_) => None,
        };
        Some(SearchRequest {
            slot,
            generation: self.generation,
            query,
            endpoint: self.endpoint.clone(),
            key,
            models: clone_entries(&self.slots[slot].models),
        })
    }

    /// Type a character (`Some`) or erase one (`None`) in the page's input:
    /// the URL, the credential, the tier's search query (or its manual
    /// model when the catalog is unavailable), or its custom effort.
    pub fn edit_input(&mut self, c: Option<char>) -> (r: Option<SearchRequest>)
        requires
            old(self).wf(),
        ensures
            old(self).edited_to(*final(self), c, r),
    {
        match self.page {
            SetupPage::Url => {
                edit_text(&mut self.endpoint, c);
                None
            },
            SetupPage::ApiKey => {
                if self.credential_focus == CredentialFocus::Value {
                    edit_text(&mut self.credential_input, c);
                }
                None
            },
            SetupPage::SmallModel | SetupPage::NormalModel | SetupPage::ThinkingModel => {
                if self.model_focus != ModelFocus::Table {
                    return None;
                }
                let slot = match self.page.model_slot() {
                    Some(s) => s,
                    None => return None,
                };
                let ghost slots = self.slots@;
                if self.catalog_manual {
                    edit_text(&mut self.slots[slot].manual_model, c);
                    proof {
                        lemma_slots_wf(slots, slot as int, self.slots@[slot as int]);
                    }
                    return None;
                }
                edit_text(&mut self.slots[slot].query, c);
                proof {
                    lemma_slots_wf(slots, slot as int, self.slots@[slot as int]);
                }
                self.search(slot)
            },
            SetupPage::SmallReasoning | SetupPage::NormalReasoning | SetupPage::ThinkingReasoning => {
                let slot = match self.page.reasoning_slot() {
                    Some(s) => s,
                    None => return None,
                };
                let ghost slots = self.slots@;
                match self.slots[slot].custom_reasoning.take() {
                    Some(mut text) => {
                        edit_text(&mut text, c);
                        self.slots[slot].custom_reasoning = Some(text);
                    },
                    None => {},
                }
                proof {
                    lemma_slots_wf(slots, slot as int, self.slots@[slot as int]);
                }
                None
            },
            _ => None,
        }
    }
}

/// The catalog can be offered: every model has an id, and no id repeats.
pub open spec fn ids_usable(models: Seq<ModelEntryView>) -> bool {
    &&& forall|i: int| 0 <= i < models.len() ==> trim((#[trigger] models[i]).id).len() > 0
    &&& forall|i: int, j: int| 0 <= i < j < models.len() ==> (#[trigger] models[i]).id != (#[trigger] models[j]).id
}

fn catalog_ids_usable(models: &Vec<ModelEntry>) -> (b: bool)
    ensures
        b == ids_usable(entries_view(models@)),
{
    let ghost v = entries_view(models@);
    let mut k: usize = 0;
    while k < models.len()
        invariant
            k <= models@.len(),
            v == entries_view(models@),
            forall|i: int| 0 <= i < k ==> trim((#[trigger] v[i]).id).len() > 0,
            forall|i: int, j: int| 0 <= i < j < k ==> (#[trigger] v[i]).id != (#[trigger] v[j]).id,
        decreases models@.len() - k,
    {
        assert(v[k as int] == models@[k as int]@);
        if crate::text::is_blank(models[k].id.as_str()) {
            proof {
                crate::text::lemma_trim_empty(v[k as int].id);
            }
            return false;
        }
        proof {
            crate::text::lemma_trim_empty(v[k as int].id);
        }
        let mut j: usize = 0;
        while j < k
            invariant
                j <= k,
                k < models@.len(),
                v == entries_view(models@),
                forall|i: int| 0 <= i < j ==> (#[trigger] v[i]).id != v[k as int].id,
            decreases k - j,
        {
            assert(v[j as int] == models@[j as int]@);
            if str_eq(models[j].id.as_str(), models[k].id.as_str()) {
                return false;
            }
            j += 1;
        }
        k += 1;
    }
    true
}

impl SetupWizard {
    /// Go back one page, not before the first; going back to a tier's model
    /// page shows its whole catalog again.
    pub fn move_previous(&mut self)
        requires
            old(self).wf(),
        ensures
            old(self).previous_to(*final(self)),
    {
        let previous = match self.page.previous() {
            Some(p) => p,
            None => return,
        };
        if previous.index() < self.first_page.index() {
            return;
        }
        self.page = previous;
        self.validation = String::new();
        if self.page == SetupPage::ApiKey {
            self.credential_focus = CredentialFocus::Value;
        }
        match self.page.model_slot() {
            Some(slot) => {
                self.generation = bump(self.generation);
                let ghost slots = self.slots@;
                self.slots[slot].reset_search();
                proof {
                    lemma_slots_wf(slots, slot as int, self.slots@[slot as int]);
                }
            },
            None => {},
        }
    }

    /// Leave the page forward: check its answer, confirm the tier's model or
    /// reasoning, save on the last page, else go to the next page (asking
    /// for the catalog when a tier's page is reached without one).
    pub fn move_next(&mut self) -> (r: Result<WizardStep, Error>)
        requires
            old(self).wf(),
        ensures
            old(self).next_to(*final(self), r),
    {
        if self.page == SetupPage::Provider {
            let choices = crate::setup::provider_choices();
            self.provider_name = choices[self.provider_cursor].to_string();
            let configured_custom = match &self.configured_provider {
                Some(p) => str_eq(p.as_str(), "custom"),
                None => false,
            };
            if str_eq(self.provider_name.as_str(), "custom") && !configured_custom && str_eq(
                self.endpoint.as_str(),
                OPENROUTER_ENDPOINT,
            ) {
                self.endpoint = String::new();
            }
        }
        if self.page == SetupPage::ApiKey && self.credential_focus == CredentialFocus::Storage {
            self.credential_focus = CredentialFocus::Value;
            self.validation = String::new();
            return Ok(WizardStep::Continue);
        }
        if !self.validate_current_page() {
            return Ok(WizardStep::Continue);
        }
        match self.page.model_slot() {
            Some(slot) => {
                let manual = self.catalog_manual;
                let ghost slots = self.slots@;
                let refused = self.slots[slot].confirm(manual);
                proof {
                    lemma_slots_wf(slots, slot as int, self.slots@[slot as int]);
                }
                match refused {
                    Some(message) => {
                        let mut v = String::from_str("config error: ");
                        crate::text::push_str(&mut v, message);
                        self.validation = v;
                        return Ok(WizardStep::Continue);
                    },
                    None => {},
                }
            },
            None => {},
        }
        match self.page.reasoning_slot() {
            Some(slot) => {
                let blank_custom = match &self.slots[slot].custom_reasoning {
                    Some(c) => crate::text::is_blank(c.as_str()),
                    None => false,
                };
                if blank_custom {
                    self.validation = String::from_str("reasoning effort cannot be empty");
                    return Ok(WizardStep::Continue);
                }
                let ghost slots = self.slots@;
                self.slots[slot].reasoning_explicit = true;
                let value = self.slots[slot].reasoning_value();
                match self.slots[slot].completed.take() {
                    Some(choice) => {
                        self.slots[slot].completed = Some(LevelChoice { model: choice.model, reasoning: value });
                    },
                    None => {},
                }
                proof {
                    lemma_slots_wf(slots, slot as int, self.slots@[slot as int]);
                }
            },
            None => {},
        }
        if self.page == self.last_page {
            let result = self.result()?;
            return Ok(WizardStep::Saved(result));
        }
        match self.page.next() {
            Some(next) => {
                if next.index() >= self.first_page.index() && next.index() <= self.last_page.index() {
                    self.page = next;
                    self.validation = String::new();
                    self.model_focus = ModelFocus::Table;
                    if next.model_slot().is_some() && self.slots[0].models.len() == 0 {
                        match self.request_credential() {
                            Ok(key) => {
                                return Ok(WizardStep::LoadCatalog { endpoint: self.endpoint.clone(), key });
                            },
                            Err(e) => {
                                self.page = SetupPage::ApiKey;
                                self.credential_focus = CredentialFocus::Value;
                                self.validation = e.message();
                                return Ok(WizardStep::Continue);
                            },
                        }
                    }
                }
            },
            None => {},
        }
        Ok(WizardStep::Continue)
    }

    /// The credential for fetching the catalog; when it cannot be had, the
    /// error is also shown.
    pub fn catalog_credential(&mut self) -> (r: Result<String, Error>)
        requires
            old(self).wf(),
        ensures
            final(self).wf(),
            final(self).page == old(self).page,
            final(self).generation == old(self).generation,
            ({
                let key = credential_text(old(self).storage, old(self).credential_input@);
                if crate::provider::setup::draft_accepted(old(self).endpoint@, key) {
                    crate::config::auth_result(r, crate::config::expanded_key(key, env_view(old(self).env@)))
                } else {
                    r matches Err(e) && crate::provider::setup::draft_error(old(self).endpoint@, key, e)
                }
            }),
            r is Ok ==> *final(self) == *old(self),
            r matches Err(e) ==> final(self).validation@ == message_prefix(&e) && *final(self) == (SetupWizard {
                validation: final(self).validation,
                ..*old(self)
            }),
    {
        match self.request_credential() {
            Ok(key) => Ok(key),
            Err(e) => {
                self.validation = e.message();
                Err(e)
            },
        }
    }

    /// Take the fetched catalog and whether it is complete. Without models,
    /// with an unusable list, or on an error, the tiers are asked for by
    /// hand instead.
    pub fn catalog_loaded(&mut self, fetched: Result<(Vec<ModelEntry>, bool), Error>)
        requires
            old(self).wf(),
        ensures
            final(self).wf(),
            final(self).page == old(self).page,
            final(self).generation == old(self).generation,
            match fetched {
                Ok((models, complete)) => if models@.len() > 0 && ids_usable(entries_view(models@)) {
                    &&& final(self).catalog_manual == old(self).catalog_manual
                    &&& final(self).catalog_complete == complete
                    &&& forall|i: int| 0 <= i < 3 ==> entries_view((#[trigger] final(self).slots@[i]).models@)
                        == entries_view(models@)
                } else {
                    final(self).catalog_manual && final(self).validation@ == if models@.len() == 0 {
                        "Catalog discovery unavailable. Enter a manual model identifier."@
                    } else {
                        "Catalog discovery unavailable. Model identifiers must be unique and non-empty."@
                    }
                },
                Err(e) => final(self).catalog_manual,
            },
    {
        match fetched {
            Ok((models, complete)) => {
                if models.len() == 0 {
                    self.catalog_manual = true;
                    self.validation = String::from_str("Catalog discovery unavailable. Enter a manual model identifier.");
                    return;
                }
                if !catalog_ids_usable(&models) {
                    self.catalog_manual = true;
                    self.validation = String::from_str(
                        "Catalog discovery unavailable. Model identifiers must be unique and non-empty.",
                    );
                    return;
                }
                self.catalog_complete = complete;
                let mut i: usize = 0;
                while i < 3
                    invariant
                        i <= 3,
                        self.wf(),
                        self.page == old(self).page,
                        self.generation == old(self).generation,
                        self.catalog_manual == old(self).catalog_manual,
                        self.catalog_complete == complete,
                        forall|j: int| 0 <= j < i ==> entries_view((#[trigger] self.slots@[j]).models@) == entries_view(models@),
                    decreases 3 - i,
                {
                    let ghost slots = self.slots@;
                    self.slots[i].load(&models);
                    proof {
                        lemma_slots_wf(slots, i as int, self.slots@[i as int]);
                        assert forall|j: int| 0 <= j < i + 1 implies entries_view((#[trigger] self.slots@[j]).models@) == entries_view(models@) by {
                            if j < i {
                                assert(self.slots@[j] == slots[j]);
                            }
                        }
                    }
                    i += 1;
                }
            },
            Err(e) => {
                self.catalog_manual = true;
                let mut v = String::from_str("Catalog discovery unavailable. Enter a manual model identifier: ");
                let m = e.message();
                crate::text::push_str(&mut v, m.as_str());
                self.validation = v;
            },
        }
    }

    /// Take the outcome of the search numbered `generation` for `slot`; a
    /// stale search is dropped.
    pub fn search_finished(&mut self, slot: usize, generation: u64, result: Result<(Vec<ModelEntry>, Option<String>, bool), Error>)
        requires
            old(self).wf(),
        ensures
            final(self).wf(),
            if slot >= 3 || generation != old(self).generation {
                *final(self) == *old(self)
            } else {
                &&& old(self).others_kept(&*final(self), slot as int)
                &&& old(self).slots@[slot as int].search_done(final(self).slots@[slot as int], result)
                &&& *final(self) == SetupWizard { slots: final(self).slots, ..*old(self) }
            },
    {
        if slot >= 3 || generation != self.generation {
            return;
        }
        let ghost slots = self.slots@;
        self.slots[slot].finish_search(result);
        proof {
            lemma_slots_wf(slots, slot as int, self.slots@[slot as int]);
        }
    }
}

impl SetupWizard {
    /// A key while the wizard asks whether to save: `n` leaves without
    /// saving; `y` or Enter saves (an answer that cannot be saved is shown
    /// instead); Esc goes back to the wizard.
    pub fn handle_save_prompt(&mut self, key: WizardKey) -> (r: WizardStep)
        requires
            old(self).wf(),
        ensures
            old(self).prompt_answered(*final(self), key, r),
    {
        let save = match key {
            WizardKey::Char(c, _) => {
                if c == 'n' || c == 'N' {
                    self.generation = bump(self.generation);
                    return WizardStep::Cancelled(SetupCancellation::Escape);
                }
                c == 'y' || c == 'Y'
            },
            WizardKey::Enter => true,
            WizardKey::Esc => {
                self.save_prompt = false;
                return WizardStep::Continue;
            },
            _ => false,
        };
        if !save {
            return WizardStep::Continue;
        }
        match self.result() {
            Ok(result) => WizardStep::Saved(result),
            Err(e) => {
                self.save_prompt = false;
                self.validation = e.message();
                WizardStep::Continue
            },
        }
    }

    /// Finish a shell-integration page: the completion page leads to the
    /// shortcut page; the shortcut page saves.
    pub fn advance_shell_install_page(&mut self) -> (r: Result<WizardStep, Error>)
        requires
            old(self).wf(),
        ensures
            final(self).wf(),
            final(self).generation == old(self).generation,
            old(self).page == SetupPage::ShellCompletion ==> r == Ok::<WizardStep, Error>(WizardStep::Continue)
                && final(self).page == SetupPage::ShellShortcut,
            old(self).page == SetupPage::ShellShortcut ==> r matches Ok(WizardStep::Saved(_)) || r is Err,
            r matches Ok(x) ==> (x == WizardStep::Continue || x is Saved),
            (r is Err || (r matches Ok(WizardStep::Saved(_)))) ==> old(self).page == SetupPage::ShellShortcut,
            r matches Ok(WizardStep::Saved(res)) ==> final(self).saved_as(res),
    {
        match self.page {
            SetupPage::ShellCompletion => {
                self.page = SetupPage::ShellShortcut;
                self.validation = String::new();
                Ok(WizardStep::Continue)
            },
            SetupPage::ShellShortcut => {
                let result = self.result()?;
                Ok(WizardStep::Saved(result))
            },
            _ => Ok(WizardStep::Continue),
        }
    }

    /// A key on a shell-integration page.
    pub fn handle_shell_install_key(&mut self, key: WizardKey) -> (r: Result<WizardStep, Error>)
        requires
            old(self).wf(),
        ensures
            old(self).shell_key_to(*final(self), key, r),
    {
        if key == WizardKey::BackTab {
            self.move_previous();
            return Ok(WizardStep::Continue);
        }
        if key == WizardKey::Esc {
            self.save_prompt = true;
            return Ok(WizardStep::Continue);
        }
        let advance = if self.page == SetupPage::ShellShortcut {
            self.shortcut.handle_key(key)
        } else {
            self.completion.handle_key(key)
        };
        if advance {
            self.advance_shell_install_page()
        } else {
            Ok(WizardStep::Continue)
        }
    }

    /// A key on the other pages.
    pub fn handle_key(&mut self, key: WizardKey) -> (r: Result<WizardStep, Error>)
        requires
            old(self).wf(),
        ensures
            final(self).wf(),
            old(self).handled(*final(self), key, r),
            !(r matches Ok(WizardStep::Cancelled(_))),
            match r {
                Ok(WizardStep::Search(req)) => req.generation == final(self).generation,
                _ => true,
            },
    {
        match key {
            WizardKey::BackTab => {
                self.move_previous();
                Ok(WizardStep::Continue)
            },
            WizardKey::Tab | WizardKey::Enter => self.move_next(),
            WizardKey::Up => {
                self.move_up();
                Ok(WizardStep::Continue)
            },
            WizardKey::Down => {
                self.move_down();
                Ok(WizardStep::Continue)
            },
            WizardKey::PageUp => {
                self.move_page(false);
                Ok(WizardStep::Continue)
            },
            WizardKey::PageDown => {
                self.move_page(true);
                Ok(WizardStep::Continue)
            },
            WizardKey::Backspace => match self.edit_input(None) {
                Some(req) => Ok(WizardStep::Search(req)),
                None => Ok(WizardStep::Continue),
            },
            WizardKey::Char(c, ctrl) => {
                if c == 'r' && ctrl && self.page.model_slot().is_some() {
                    self.model_focus = match self.model_focus {
                        ModelFocus::Table => ModelFocus::Reasoning,
                        ModelFocus::Reasoning => ModelFocus::Table,
                    };
                    return Ok(WizardStep::Continue);
                }
                if self.page == SetupPage::ApiKey && self.credential_focus == CredentialFocus::Storage && (c == 'p'
                    || c == 'P' || c == 'e' || c == 'E') {
                    self.choose_storage(c);
                    return Ok(WizardStep::Continue);
                }
                match self.page.reasoning_slot() {
                    Some(slot) => {
                        if c == 'c' || c == 'C' {
                            let ghost slots = self.slots@;
                            self.slots[slot].custom_reasoning = Some(String::new());
                            self.slots[slot].reasoning_explicit = true;
                            proof {
                                lemma_slots_wf(slots, slot as int, self.slots@[slot as int]);
                            }
                            return Ok(WizardStep::Continue);
                        }
                    },
                    None => {},
                }
                match self.edit_input(Some(c)) {
                    Some(req) => Ok(WizardStep::Search(req)),
                    None => Ok(WizardStep::Continue),
                }
            },
            _ => Ok(WizardStep::Continue),
        }
    }

    /// Read one key. Ctrl-C leaves without saving; Ctrl-U clears the URL or
    /// the credential; while the save question is open it takes the key;
    /// the shell pages read their own keys; Esc opens the save question.
    pub fn key(&mut self, key: WizardKey) -> (r: Result<WizardStep, Error>)
        requires
            old(self).wf(),
        ensures
            old(self).keyed(*final(self), key, r),
    {
        match key {
            WizardKey::Char(c, true) => {
                if c == 'c' {
                    self.generation = bump(self.generation);
                    return Ok(WizardStep::Cancelled(SetupCancellation::CtrlC));
                }
                if c == 'u' {
                    if self.page == SetupPage::Url {
                        self.endpoint = String::new();
                    } else if self.page == SetupPage::ApiKey && self.credential_focus == CredentialFocus::Value {
                        self.credential_input = String::new();
                    }
                    return Ok(WizardStep::Continue);
                }
            },
            _ => {},
        }
        if self.save_prompt {
            return Ok(self.handle_save_prompt(key));
        }
        if self.page == SetupPage::ShellCompletion || self.page == SetupPage::ShellShortcut {
            return self.handle_shell_install_key(key);
        }
        if key == WizardKey::Esc {
            self.save_prompt = true;
            return Ok(WizardStep::Continue);
        }
        self.handle_key(key)
    }
}

/// Escape opens the save question and a second Escape closes it: the
/// wizard is as it was, and it goes on.
pub proof fn escape_twice_changes_nothing(
    w: SetupWizard,
    w1: SetupWizard,
    r1: Result<WizardStep, Error>,
    w2: SetupWizard,
    r2: Result<WizardStep, Error>,
)
    requires
        w.wf(),
        !w.save_prompt,
        w.keyed(w1, WizardKey::Esc, r1),
        w1.keyed(w2, WizardKey::Esc, r2),
    ensures
        w2 == w,
        r1 == Ok::<WizardStep, Error>(WizardStep::Continue),
        r2 == Ok::<WizardStep, Error>(WizardStep::Continue),
{
}

/// The wizard saves only when the save question is answered, or when its
/// last page (or the shortcut page) is left forward, and what it saves is
/// the answers as they then stand.
pub proof fn saves_only_when_finished(w: SetupWizard, next: SetupWizard, key: WizardKey, res: SetupWizardResult)
    requires
        w.wf(),
        w.keyed(next, key, Ok::<WizardStep, Error>(WizardStep::Saved(res))),
    ensures
        w.save_prompt || w.page == w.last_page || w.page == SetupPage::ShellShortcut,
        next.saved_as(res),
{
}

/// What the first catalog page leads to.
#[derive(Debug)]
pub enum CatalogPage {
    /// Offer these models; the flag says whether they are the whole catalog.
    Use(Vec<ModelEntry>, bool),
    /// The page was empty: fetch the catalog without pages.
    FetchAll,
    /// The catalog could not be fetched.
    Failed(Error),
}

/// Decide on the first page of the catalog, fetched with `limit` models a
/// page: a page with models is used (the whole catalog when it is not
/// full); an empty page asks for the catalog without pages.
pub fn catalog_page_outcome(page: Result<Vec<ModelEntry>, Error>, limit: usize) -> (r: CatalogPage)
    ensures
        match page {
            Ok(models) => if models@.len() > 0 {
                r matches CatalogPage::Use(m, complete) && entries_view(m@) == entries_view(models@) && complete
                    == (models@.len() < limit)
            } else {
                r is FetchAll
            },
            Err(e) => r == CatalogPage::Failed(e),
        },
{
    match page {
        Ok(models) => {
            if models.len() > 0 {
                let complete = models.len() < limit;
                CatalogPage::Use(models, complete)
            } else {
                CatalogPage::FetchAll
            }
        },
        Err(e) => CatalogPage::Failed(e),
    }
}

/// The model and effort of each confirmed tier, as the configuration keeps
/// them.
pub fn tier_choices(result: &SetupWizardResult) -> (r: [Option<(String, String)>; 3])
    requires
        result.choices@.len() == 3,
    ensures
        forall|i: int| 0 <= i < 3 ==> match #[trigger] result.choices@[i] {
            Some(c) => r@[i] matches Some(p) && p.0@ == c.model.id@ && p.1@ == c.reasoning@,
            None => r@[i] is None,
        },
{
    let a = choice_pair(&result.choices[0]);
    let b = choice_pair(&result.choices[1]);
    let c = choice_pair(&result.choices[2]);
    let r = [a, b, c];
    assert(r@[0] == a && r@[1] == b && r@[2] == c);
    r
}

fn choice_pair(c: &Option<LevelChoice>) -> (r: Option<(String, String)>)
    ensures
        match *c {
            Some(c) => r matches Some(p) && p.0@ == c.model.id@ && p.1@ == c.reasoning@,
            None => r is None,
        },
{
    match c {
        Some(c) => Some((c.model.id.clone(), c.reasoning.clone())),
        None => None,
    }
}

/// For each shell in order: whether its completion and its shortcut are to
/// be installed (else removed).
pub fn shell_plan(result: &SetupWizardResult) -> (r: Vec<(Shell, bool, bool)>)
    ensures
        r@.len() == 3,
        forall|i: int| 0 <= i < 3 ==> {
            let (shell, completion, shortcut) = #[trigger] r@[i];
            &&& shell == crate::shell_shortcut::all_shells()[i]
            &&& completion == result.completion_shells@.contains(shell)
            &&& shortcut == result.shortcut_shells@.contains(shell)
        },
{
    let shells = Shell::all();
    let mut r: Vec<(Shell, bool, bool)> = Vec::new();
    let mut i: usize = 0;
    while i < 3
        invariant
            i <= 3,
            shells@ == crate::shell_shortcut::all_shells(),
            r@.len() == i,
            forall|j: int| 0 <= j < i ==> {
                let (shell, completion, shortcut) = #[trigger] r@[j];
                &&& shell == crate::shell_shortcut::all_shells()[j]
                &&& completion == result.completion_shells@.contains(shell)
                &&& shortcut == result.shortcut_shells@.contains(shell)
            },
        decreases 3 - i,
    {
        let shell = shells[i];
        let completion = contains_shell(&result.completion_shells, shell);
        let shortcut = contains_shell(&result.shortcut_shells, shell);
        r.push((shell, completion, shortcut));
        i += 1;
    }
    r
}

fn contains_shell(v: &Vec<Shell>, s: Shell) -> (b: bool)
    ensures
        b == v@.contains(s),
{
    let mut k: usize = 0;
    while k < v.len()
        invariant
            k <= v@.len(),
            forall|j: int| 0 <= j < k ==> v@[j] != s,
        decreases v@.len() - k,
    {
        if v[k] == s {
            assert(v@[k as int] == s);
            return true;
        }
        k += 1;
    }
    false
}

} // verus!
