//! Reasoning strengths and the default strength a model's policy implies.
use vstd::prelude::*;

use crate::error::Error;
use crate::models::list::{ModelReasoning, ReasoningView};
use crate::text::str_eq;

verus! {

/// Reasoning strengths persisted for each model tier.
#[derive(Debug, Clone, Copy, PartialEq, Eq, PartialOrd, Ord, Structural)]
pub enum ReasoningStrength {
    Off,
    Low,
    Minimal,
    Medium,
    High,
}

pub open spec fn strength_name(s: ReasoningStrength) -> Seq<char> {
    match s {
        ReasoningStrength::Off => "off"@,
        ReasoningStrength::Low => "low"@,
        ReasoningStrength::Minimal => "minimal"@,
        ReasoningStrength::Medium => "medium"@,
        ReasoningStrength::High => "high"@,
    }
}

/// The strength named `v`, if any.
pub open spec fn strength_of(v: Seq<char>) -> Option<ReasoningStrength> {
    if v == "off"@ {
        Some(ReasoningStrength::Off)
    } else if v == "low"@ {
        Some(ReasoningStrength::Low)
    } else if v == "minimal"@ {
        Some(ReasoningStrength::Minimal)
    } else if v == "medium"@ {
        Some(ReasoningStrength::Medium)
    } else if v == "high"@ {
        Some(ReasoningStrength::High)
    } else {
        None
    }
}

impl ReasoningStrength {
    /// Every strength, weakest first.
    pub fn all() -> (v: Vec<ReasoningStrength>)
        ensures
            v@ == seq![
                ReasoningStrength::Off,
                ReasoningStrength::Low,
                ReasoningStrength::Minimal,
                ReasoningStrength::Medium,
                ReasoningStrength::High,
            ],
    {
        let mut v: Vec<ReasoningStrength> = Vec::new();
        v.push(ReasoningStrength::Off);
        v.push(ReasoningStrength::Low);
        v.push(ReasoningStrength::Minimal);
        v.push(ReasoningStrength::Medium);
        v.push(ReasoningStrength::High);
        assert(v@ =~= seq![
            ReasoningStrength::Off,
            ReasoningStrength::Low,
            ReasoningStrength::Minimal,
            ReasoningStrength::Medium,
            ReasoningStrength::High,
        ]);
        v
    }

    pub fn as_str(&self) -> (s: &'static str)
        ensures
            s@ == strength_name(*self),
    {
        match self {
            ReasoningStrength::Off => "off",
            ReasoningStrength::Low => "low",
            ReasoningStrength::Minimal => "minimal",
            ReasoningStrength::Medium => "medium",
            ReasoningStrength::High => "high",
        }
    }

    pub fn parse(value: &str) -> (r: Option<Self>)
        ensures
            r == strength_of(value@),
    {
        if str_eq(value, "off") {
            Some(ReasoningStrength::Off)
        } else if str_eq(value, "low") {
            Some(ReasoningStrength::Low)
        } else if str_eq(value, "minimal") {
            Some(ReasoningStrength::Minimal)
        } else if str_eq(value, "medium") {
            Some(ReasoningStrength::Medium)
        } else if str_eq(value, "high") {
            Some(ReasoningStrength::High)
        } else {
            None
        }
    }
}

/// A strength allowed by the policy: anything but off when reasoning is
/// mandatory.
pub open spec fn allowed(mandatory: bool, s: ReasoningStrength) -> bool {
    !mandatory || s != ReasoningStrength::Off
}

/// The supported strengths of a policy, in its order, unknown names and
/// (when mandatory) off left out.
pub open spec fn supported_strengths(efforts: Seq<Seq<char>>, mandatory: bool) -> Seq<ReasoningStrength>
    decreases efforts.len(),
{
    if efforts.len() == 0 {
        seq![]
    } else {
        let front = supported_strengths(efforts.drop_last(), mandatory);
        match strength_of(efforts.last()) {
            Some(s) => if allowed(mandatory, s) {
                front.push(s)
            } else {
                front
            },
            None => front,
        }
    }
}

/// The strength a tier starts with for a model's reasoning policy, or why
/// there is none.
pub open spec fn default_strength(m: ReasoningView, existing: Option<ReasoningStrength>) -> Option<
    ReasoningStrength,
> {
    if !m.mandatory && !m.default_enabled {
        Some(ReasoningStrength::Off)
    } else {
        let supported = supported_strengths(m.supported_efforts, m.mandatory);
        let default = match m.default_effort {
            Some(e) => strength_of(e),
            None => None,
        };
        if default is Some && allowed(m.mandatory, default->0) && supported.contains(default->0) {
            default
        } else if supported.len() > 0 {
            Some(supported[0])
        } else if m.mandatory {
            match existing {
                Some(e) => if e != ReasoningStrength::Off {
                    Some(e)
                } else {
                    None
                },
                None => None,
            }
        } else {
            match existing {
                Some(e) => Some(e),
                None => Some(ReasoningStrength::Off),
            }
        }
    }
}

pub fn resolve_reasoning_default(metadata: &ModelReasoning, existing: Option<ReasoningStrength>) -> (r: Result<ReasoningStrength, Error>)
    ensures
        match r {
            Ok(s) => default_strength(metadata@, existing) == Some(s),
            Err(e) => default_strength(metadata@, existing) is None && (e matches Error::ConfigError(
                m,
            ) && m@ == "reasoning policy has no usable effort"@),
        },
{
    if !metadata.mandatory && !metadata.default_enabled {
        return Ok(ReasoningStrength::Off);
    }
    let ghost efforts = metadata@.supported_efforts;
    let mut supported: Vec<ReasoningStrength> = Vec::new();
    let mut k: usize = 0;
    assert(efforts.take(0) =~= Seq::<Seq<char>>::empty());
    while k < metadata.supported_efforts.len()
        invariant
            k <= metadata.supported_efforts@.len(),
            efforts == metadata@.supported_efforts,
            supported@ == supported_strengths(efforts.take(k as int), metadata.mandatory),
        decreases metadata.supported_efforts@.len() - k,
    {
        assert(efforts.take(k + 1).drop_last() =~= efforts.take(k as int));
        assert(efforts.take(k + 1).last() == metadata.supported_efforts@[k as int]@);
        match ReasoningStrength::parse(metadata.supported_efforts[k].as_str()) {
            Some(s) => {
                if !metadata.mandatory || s != ReasoningStrength::Off {
                    supported.push(s);
                }
            },
            None => {},
        }
        k += 1;
    }
    assert(efforts.take(efforts.len() as int) =~= efforts);
    let default = match &metadata.default_effort {
        Some(e) => ReasoningStrength::parse(e.as_str()),
        None => None,
    };
    if let Some(d) = default {
        if !metadata.mandatory || d != ReasoningStrength::Off {
            let mut j: usize = 0;
            while j < supported.len()
                invariant
                    j <= supported@.len(),
                    forall|i: int| 0 <= i < j ==> supported@[i] != d,
                    efforts == metadata@.supported_efforts,
                    supported@ == supported_strengths(efforts, metadata.mandatory),
                    metadata.mandatory || metadata.default_enabled,
                    match metadata@.default_effort {
                        Some(e) => strength_of(e) == Some(d),
                        None => false,
                    },
                    allowed(metadata.mandatory, d),
                decreases supported@.len() - j,
            {
                if supported[j] == d {
                    assert(supported@.contains(d)) by {
                        assert(supported@[j as int] == d);
                    }
                    return Ok(d);
                }
                j += 1;
            }
        }
    }
    if supported.len() > 0 {
        return Ok(supported[0]);
    }
    if metadata.mandatory {
        if let Some(e) = existing {
            if e != ReasoningStrength::Off {
                return Ok(e);
            }
        }
        return Err(Error::ConfigError(String::from_str("reasoning policy has no usable effort")));
    }
    match existing {
        Some(e) => Ok(e),
        None => Ok(ReasoningStrength::Off),
    }
}

} // verus!
