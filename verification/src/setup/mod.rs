//! The setup wizard's rules: its pages and their order, the shells it
//! installs, the reasoning strengths a model offers, and the names it
//! accepts for credential variables.
pub mod screen;
pub mod wizard;

use vstd::prelude::*;

use crate::models::dialog::{strength_of, ReasoningStrength};
use crate::models::list::ModelReasoning;
use crate::shell_shortcut::{all_shells, Shell};

verus! {

#[derive(Debug, Clone, Copy, PartialEq, Eq, Structural)]
pub enum SetupEntryPoint {
    Setup,
    Provider,
    Models,
    Shell,
}

/// The shells whose box is ticked, in order; none while the page is off.
pub open spec fn ticked(enabled: bool, b0: bool, b1: bool, b2: bool) -> Seq<Shell> {
    if !enabled {
        seq![]
    } else {
        (if b0 {
            seq![Shell::Bash]
        } else {
            Seq::<Shell>::empty()
        }) + (if b1 {
            seq![Shell::Zsh]
        } else {
            Seq::<Shell>::empty()
        }) + (if b2 {
            seq![Shell::Fish]
        } else {
            Seq::<Shell>::empty()
        })
    }
}

pub fn selected_shells(enabled: bool, selected: [bool; 3]) -> (r: Vec<Shell>)
    ensures
        r@ == ticked(enabled, selected@[0], selected@[1], selected@[2]),
{
    let mut r: Vec<Shell> = Vec::new();
    if !enabled {
        assert(r@ =~= ticked(enabled, selected@[0], selected@[1], selected@[2]));
        return r;
    }
    if selected[0] {
        r.push(Shell::Bash);
    }
    if selected[1] {
        r.push(Shell::Zsh);
    }
    if selected[2] {
        r.push(Shell::Fish);
    }
    assert(r@ =~= ticked(enabled, selected@[0], selected@[1], selected@[2]));
    r
}

pub fn selected_shortcut_shells(enabled: bool, selected: [bool; 3]) -> (r: Vec<Shell>)
    ensures
        r@ == ticked(enabled, selected@[0], selected@[1], selected@[2]),
{
    selected_shells(enabled, selected)
}

/// The wizard's pages, in order.
#[derive(Debug, Clone, Copy, PartialEq, Eq, PartialOrd, Ord, Structural)]
pub enum SetupPage {
    Provider,
    Url,
    ApiKey,
    SmallModel,
    SmallReasoning,
    NormalModel,
    NormalReasoning,
    ThinkingModel,
    ThinkingReasoning,
    ShellCompletion,
    ShellShortcut,
}

pub open spec fn page_index(p: SetupPage) -> int {
    match p {
        SetupPage::Provider => 0,
        SetupPage::Url => 1,
        SetupPage::ApiKey => 2,
        SetupPage::SmallModel => 3,
        SetupPage::SmallReasoning => 4,
        SetupPage::NormalModel => 5,
        SetupPage::NormalReasoning => 6,
        SetupPage::ThinkingModel => 7,
        SetupPage::ThinkingReasoning => 8,
        SetupPage::ShellCompletion => 9,
        SetupPage::ShellShortcut => 10,
    }
}

pub open spec fn page_at(i: int) -> Option<SetupPage> {
    if i == 0 {
        Some(SetupPage::Provider)
    } else if i == 1 {
        Some(SetupPage::Url)
    } else if i == 2 {
        Some(SetupPage::ApiKey)
    } else if i == 3 {
        Some(SetupPage::SmallModel)
    } else if i == 4 {
        Some(SetupPage::SmallReasoning)
    } else if i == 5 {
        Some(SetupPage::NormalModel)
    } else if i == 6 {
        Some(SetupPage::NormalReasoning)
    } else if i == 7 {
        Some(SetupPage::ThinkingModel)
    } else if i == 8 {
        Some(SetupPage::ThinkingReasoning)
    } else if i == 9 {
        Some(SetupPage::ShellCompletion)
    } else if i == 10 {
        Some(SetupPage::ShellShortcut)
    } else {
        None
    }
}

/// The page after `p`.
pub open spec fn page_next(p: SetupPage) -> Option<SetupPage> {
    page_at(page_index(p) + 1)
}

/// The page before `p`; the provider and URL pages have none, since going
/// back from the URL would leave the provider's page.
pub open spec fn page_previous(p: SetupPage) -> Option<SetupPage> {
    if p == SetupPage::Url {
        None
    } else {
        page_at(page_index(p) - 1)
    }
}

impl SetupPage {
    pub fn title(self) -> (s: &'static str)
        ensures
            s@ == page_title(self),
    {
        match self {
            SetupPage::Provider => "Provider",
            SetupPage::Url => "URL",
            SetupPage::ApiKey => "API key",
            SetupPage::SmallModel => "Small Model",
            SetupPage::SmallReasoning => "Small Reasoning",
            SetupPage::NormalModel => "Normal Model",
            SetupPage::NormalReasoning => "Normal Reasoning",
            SetupPage::ThinkingModel => "Thinking Model",
            SetupPage::ThinkingReasoning => "Thinking Reasoning",
            SetupPage::ShellCompletion => "Shell Completion",
            SetupPage::ShellShortcut => "Shell Shortcut",
        }
    }

    pub fn index(self) -> (i: usize)
        ensures
            i == page_index(self),
    {
        match self {
            SetupPage::Provider => 0,
            SetupPage::Url => 1,
            SetupPage::ApiKey => 2,
            SetupPage::SmallModel => 3,
            SetupPage::SmallReasoning => 4,
            SetupPage::NormalModel => 5,
            SetupPage::NormalReasoning => 6,
            SetupPage::ThinkingModel => 7,
            SetupPage::ThinkingReasoning => 8,
            SetupPage::ShellCompletion => 9,
            SetupPage::ShellShortcut => 10,
        }
    }

    /// The model tier a model page chooses for.
    pub fn model_slot(self) -> (r: Option<usize>)
        ensures
            r == match self {
                SetupPage::SmallModel => Some(0usize),
                SetupPage::NormalModel => Some(1usize),
                SetupPage::ThinkingModel => Some(2usize),
                _ => None,
            },
    {
        match self {
            SetupPage::SmallModel => Some(0),
            SetupPage::NormalModel => Some(1),
            SetupPage::ThinkingModel => Some(2),
            _ => None,
        }
    }

    /// The model tier a reasoning page chooses for.
    pub fn reasoning_slot(self) -> (r: Option<usize>)
        ensures
            r == match self {
                SetupPage::SmallReasoning => Some(0usize),
                SetupPage::NormalReasoning => Some(1usize),
                SetupPage::ThinkingReasoning => Some(2usize),
                _ => None,
            },
    {
        match self {
            SetupPage::SmallReasoning => Some(0),
            SetupPage::NormalReasoning => Some(1),
            SetupPage::ThinkingReasoning => Some(2),
            _ => None,
        }
    }

    pub fn next(self) -> (r: Option<Self>)
        ensures
            r == page_next(self),
    {
        match self {
            SetupPage::Provider => Some(SetupPage::Url),
            SetupPage::Url => Some(SetupPage::ApiKey),
            SetupPage::ApiKey => Some(SetupPage::SmallModel),
            SetupPage::SmallModel => Some(SetupPage::SmallReasoning),
            SetupPage::SmallReasoning => Some(SetupPage::NormalModel),
            SetupPage::NormalModel => Some(SetupPage::NormalReasoning),
            SetupPage::NormalReasoning => Some(SetupPage::ThinkingModel),
            SetupPage::ThinkingModel => Some(SetupPage::ThinkingReasoning),
            SetupPage::ThinkingReasoning => Some(SetupPage::ShellCompletion),
            SetupPage::ShellCompletion => Some(SetupPage::ShellShortcut),
            SetupPage::ShellShortcut => None,
        }
    }

    pub fn previous(self) -> (r: Option<Self>)
        ensures
            r == page_previous(self),
    {
        match self {
            SetupPage::Provider => None,
            SetupPage::Url => None,
            SetupPage::ApiKey => Some(SetupPage::Url),
            SetupPage::SmallModel => Some(SetupPage::ApiKey),
            SetupPage::SmallReasoning => Some(SetupPage::SmallModel),
            SetupPage::NormalModel => Some(SetupPage::SmallReasoning),
            SetupPage::NormalReasoning => Some(SetupPage::NormalModel),
            SetupPage::ThinkingModel => Some(SetupPage::NormalReasoning),
            SetupPage::ThinkingReasoning => Some(SetupPage::ThinkingModel),
            SetupPage::ShellCompletion => Some(SetupPage::ThinkingReasoning),
            SetupPage::ShellShortcut => Some(SetupPage::ShellCompletion),
        }
    }
}

pub open spec fn page_title(p: SetupPage) -> Seq<char> {
    match p {
        SetupPage::Provider => "Provider"@,
        SetupPage::Url => "URL"@,
        SetupPage::ApiKey => "API key"@,
        SetupPage::SmallModel => "Small Model"@,
        SetupPage::SmallReasoning => "Small Reasoning"@,
        SetupPage::NormalModel => "Normal Model"@,
        SetupPage::NormalReasoning => "Normal Reasoning"@,
        SetupPage::ThinkingModel => "Thinking Model"@,
        SetupPage::ThinkingReasoning => "Thinking Reasoning"@,
        SetupPage::ShellCompletion => "Shell Completion"@,
        SetupPage::ShellShortcut => "Shell Shortcut"@,
    }
}

/// Going forward and back returns to the page one started on, from every
/// page past the URL; the pages run in the order of their indices.
pub proof fn pages_step_back_and_forth(p: SetupPage)
    ensures
        p != SetupPage::Provider && page_next(p) is Some ==> page_previous(page_next(p)->0) == Some(p),
        page_next(p) matches Some(q) ==> page_index(q) == page_index(p) + 1,
        page_next(p) is None <==> p == SetupPage::ShellShortcut,
{
}

/// The reasoning strength stored for a tier: its name, else off.
pub open spec fn stored_strength(value: Option<Seq<char>>) -> ReasoningStrength {
    match value {
        Some(v) => match strength_of(v) {
            Some(s) => s,
            None => ReasoningStrength::Off,
        },
        None => ReasoningStrength::Off,
    }
}

pub fn parse_reasoning(value: Option<&str>) -> (r: ReasoningStrength)
    ensures
        r == stored_strength(crate::config::types::opt_str_view(value)),
{
    match value {
        Some(v) => match ReasoningStrength::parse(v) {
            Some(s) => s,
            None => ReasoningStrength::Off,
        },
        None => ReasoningStrength::Off,
    }
}

pub fn provider_choices() -> (r: [&'static str; 3])
    ensures
        r@[0]@ == "openrouter"@,
        r@[1]@ == "openai"@,
        r@[2]@ == "custom"@,
{
    ["openrouter", "openai", "custom"]
}

/// Whether `name` can name an environment variable: `_` or uppercase ASCII
/// first, then `_`, uppercase ASCII or digits.
pub open spec fn environment_name(name: Seq<char>) -> bool {
    name.len() > 0 && forall|k: int| 0 <= k < name.len() ==> crate::config::is_name_char(#[trigger] name[k], k == 0)
}

pub fn valid_environment_name(name: &str) -> (b: bool)
    ensures
        b == environment_name(name@),
{
    let chars = crate::text::chars_of(name);
    if chars.len() == 0 {
        return false;
    }
    let mut k: usize = 0;
    while k < chars.len()
        invariant
            k <= chars@.len(),
            chars@ == name@,
            forall|j: int| 0 <= j < k ==> crate::config::is_name_char(#[trigger] chars@[j], j == 0),
        decreases chars@.len() - k,
    {
        let c = chars[k];
        let first = k == 0;
        if !(c == '_' || ('A' <= c && c <= 'Z') || (!first && '0' <= c && c <= '9')) {
            return false;
        }
        k += 1;
    }
    true
}

/// The strengths a model offers: its supported efforts once each, in order,
/// with off first when off is supported and reasoning is optional; every
/// strength for a model without a policy; off when nothing else is offered.
pub open spec fn offered_strengths(policy: Option<crate::models::list::ReasoningView>) -> Seq<ReasoningStrength> {
    match policy {
        None => seq![
            ReasoningStrength::Off,
            ReasoningStrength::Low,
            ReasoningStrength::Minimal,
            ReasoningStrength::Medium,
            ReasoningStrength::High,
        ],
        Some(m) => {
            let named = distinct_strengths(m.supported_efforts);
            let with_off = if !m.mandatory && m.supported_efforts.contains("off"@) && !named.contains(
                ReasoningStrength::Off,
            ) {
                seq![ReasoningStrength::Off] + named
            } else {
                named
            };
            if with_off.len() == 0 {
                seq![ReasoningStrength::Off]
            } else {
                with_off
            }
        },
    }
}

/// The strengths named by `efforts`, first occurrences in order.
pub open spec fn distinct_strengths(efforts: Seq<Seq<char>>) -> Seq<ReasoningStrength>
    decreases efforts.len(),
{
    if efforts.len() == 0 {
        seq![]
    } else {
        let front = distinct_strengths(efforts.drop_last());
        match strength_of(efforts.last()) {
            Some(s) => if front.contains(s) {
                front
            } else {
                front.push(s)
            },
            None => front,
        }
    }
}

pub(crate) fn contains_strength(v: &Vec<ReasoningStrength>, s: ReasoningStrength) -> (b: bool)
    ensures
        b == v@.contains(s),
{
    let mut k: usize = 0;
    while k < v.len()
        invariant
            k <= v@.len(),
            forall|j: int| 0 <= j < k ==> v@[j] != s,
        decreases v@.len() - k,
    {
        if v[k] == s {
            assert(v@[k as int] == s);
            return true;
        }
        k += 1;
    }
    false
}

pub fn reasoning_options(policy: Option<&ModelReasoning>) -> (r: Vec<ReasoningStrength>)
    ensures
        r@ == offered_strengths(
            match policy {
                Some(m) => Some(m@),
                None => None,
            },
        ),
        r@.len() > 0,
{
    let metadata = match policy {
        Some(m) => m,
        None => {
            return ReasoningStrength::all();
        },
    };
    let ghost efforts = metadata@.supported_efforts;
    let mut options: Vec<ReasoningStrength> = Vec::new();
    let mut has_off = false;
    let mut k: usize = 0;
    assert(efforts.take(0) =~= Seq::<Seq<char>>::empty());
    while k < metadata.supported_efforts.len()
        invariant
            k <= metadata.supported_efforts@.len(),
            efforts == metadata@.supported_efforts,
            options@ == distinct_strengths(efforts.take(k as int)),
            has_off == exists|j: int| 0 <= j < k && #[trigger] efforts[j] == "off"@,
        decreases metadata.supported_efforts@.len() - k,
    {
        let ghost prefix = efforts.take(k as int);
        assert(efforts.take(k + 1).drop_last() =~= prefix);
        assert(efforts.take(k + 1).last() == metadata.supported_efforts@[k as int]@);
        let effort = metadata.supported_efforts[k].as_str();
        if crate::text::str_eq(effort, "off") {
            has_off = true;
            assert(efforts[k as int] == "off"@);
        }
        match ReasoningStrength::parse(effort) {
            Some(value) => {
                if !contains_strength(&options, value) {
                    options.push(value);
                }
            },
            None => {},
        }
        k += 1;
    }
    assert(efforts.take(efforts.len() as int) =~= efforts);
    assert(has_off == efforts.contains("off"@)) by {
        if has_off {
            let j = choose|j: int| 0 <= j < efforts.len() && #[trigger] efforts[j] == "off"@;
            assert(efforts.contains("off"@));
        }
    }
    if !metadata.mandatory && has_off && !contains_strength(&options, ReasoningStrength::Off) {
        options.insert(0, ReasoningStrength::Off);
        assert(options@ =~= seq![ReasoningStrength::Off] + distinct_strengths(efforts));
    }
    if options.len() == 0 {
        options.push(ReasoningStrength::Off);
    }
    options
}

} // verus!
