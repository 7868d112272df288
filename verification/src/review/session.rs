//! A review session's bookkeeping around the provider call: the tiers that
//! can be chosen, the candidate read from a finished stream, and the model
//! catalog that the chooser offers.
use vstd::prelude::*;

use crate::config::Config;
use crate::error::Error;
use crate::models::list::{entries_view, ModelEntry};
use crate::review::buffer::ReviewBuffer;
use crate::review::response::{
    apply_explanation_outcome, candidate_from_provider_response, candidate_opt_view, explanation,
    provider_candidate, ExplanationOutcome, ReviewCandidate,
};
use crate::text::{all_ws, is_blank, views_of};

verus! {

/// A configured model tier that the chooser offers.
#[derive(Debug, PartialEq, Eq)]
pub struct TierChoice {
    pub tier: String,
    pub label: String,
    pub model: String,
}

pub open spec fn choice_view(c: TierChoice) -> (Seq<char>, Seq<char>, Seq<char>) {
    (c.tier@, c.label@, c.model@)
}

/// The configured tiers, each with its key and label, in small, normal,
/// thinking order; an unconfigured tier is left out.
pub open spec fn configured_tiers(small: Option<Seq<char>>, normal: Option<Seq<char>>, thinking: Option<Seq<char>>) -> Seq<(Seq<char>, Seq<char>, Seq<char>)> {
    let a = match small {
        Some(m) => seq![("1"@, "small"@, m)],
        None => seq![],
    };
    let b = match normal {
        Some(m) => a.push(("2"@, "normal"@, m)),
        None => a,
    };
    match thinking {
        Some(m) => b.push(("3"@, "thinking"@, m)),
        None => b,
    }
}

fn push_tier(out: &mut Vec<TierChoice>, tier: &str, label: &str, model: &Option<String>)
    ensures
        final(out)@.map_values(|c: TierChoice| choice_view(c)) == match model {
            Some(m) => old(out)@.map_values(|c: TierChoice| choice_view(c)).push((tier@, label@, m@)),
            None => old(out)@.map_values(|c: TierChoice| choice_view(c)),
        },
{
    match model {
        Some(m) => {
            let ghost before = out@;
            out.push(TierChoice { tier: tier.to_string(), label: label.to_string(), model: m.clone() });
            assert(out@.map_values(|c: TierChoice| choice_view(c)) =~= before.map_values(
                |c: TierChoice| choice_view(c),
            ).push((tier@, label@, m@)));
        },
        None => {},
    }
}

/// The configured model tiers in small/normal/thinking order.
pub fn chooser_tiers(config: &Config) -> (r: Vec<TierChoice>)
    ensures
        r@.map_values(|c: TierChoice| choice_view(c)) == configured_tiers(
            crate::review::response::opt_view(config.tiers.small),
            crate::review::response::opt_view(config.tiers.normal),
            crate::review::response::opt_view(config.tiers.thinking),
        ),
{
    let mut out: Vec<TierChoice> = Vec::new();
    assert(out@.map_values(|c: TierChoice| choice_view(c)) =~= Seq::<(Seq<char>, Seq<char>, Seq<char>)>::empty());
    push_tier(&mut out, "1", "small", &config.tiers.small);
    push_tier(&mut out, "2", "normal", &config.tiers.normal);
    push_tier(&mut out, "3", "thinking", &config.tiers.thinking);
    proof {
        let e = Seq::<(Seq<char>, Seq<char>, Seq<char>)>::empty();
        if config.tiers.small is Some {
            let m = config.tiers.small->0;
            assert(e.push(("1"@, "small"@, m@)) =~= seq![("1"@, "small"@, m@)]);
        }
    }
    out
}

/// The text that a finished stream left in `buffer`, once it is complete;
/// blank text is no candidate.
pub open spec fn finished_text(buffer: ReviewBuffer) -> Option<Seq<char>> {
    if all_ws(buffer.content()) {
        None
    } else {
        Some(buffer.content())
    }
}

/// Parse the buffered provider payload of a finished stream into a
/// reviewable candidate.
pub fn parse_generated_candidate(buffer: &ReviewBuffer) -> (r: Option<ReviewCandidate>)
    ensures
        candidate_opt_view(r) == match finished_text(*buffer) {
            Some(t) => provider_candidate(t),
            None => None,
        },
{
    let text = buffer.text();
    if is_blank(text) {
        None
    } else {
        candidate_from_provider_response(text)
    }
}

/// The explanation of a developer's command read from the buffered payload
/// of a finished stream (an empty answer when it left only blanks).
pub fn explain_command_candidate(command: &str, buffer: &ReviewBuffer) -> (r: ExplanationOutcome)
    ensures
        r@ == explanation(
            command@,
            match finished_text(*buffer) {
                Some(t) => t,
                None => seq![],
            },
        ),
{
    let text = buffer.text();
    if is_blank(text) {
        proof {
            reveal_strlit("");
        }
        assert(""@ =~= Seq::<char>::empty());
        apply_explanation_outcome(command, "")
    } else {
        apply_explanation_outcome(command, text)
    }
}

/// The endpoint whose catalog is read: the provider's own catalog endpoint
/// when it names one, else its endpoint.
pub fn catalog_source<'a>(endpoint: &'a str, catalog_endpoint: Option<&'a str>) -> (r: &'a str)
    ensures
        r@ == match catalog_endpoint {
            Some(c) if c@.len() > 0 => c@,
            _ => endpoint@,
        },
{
    match catalog_endpoint {
        Some(c) => {
            if c.unicode_len() > 0 {
                c
            } else {
                endpoint
            }
        },
        None => endpoint,
    }
}

/// The model ids of a fetched catalog; an unavailable catalog reads as
/// empty.
pub fn catalog_ids(fetched: Result<Vec<ModelEntry>, Error>) -> (r: Vec<String>)
    ensures
        views_of(r@) == match fetched {
            Ok(models) => entries_view(models@).map_values(|m: crate::models::list::ModelEntryView| m.id),
            Err(_) => seq![],
        },
{
    match fetched {
        Ok(models) => {
            let mut ids: Vec<String> = Vec::new();
            let mut k: usize = 0;
            while k < models.len()
                invariant
                    k <= models@.len(),
                    views_of(ids@) == entries_view(models@).map_values(
                        |m: crate::models::list::ModelEntryView| m.id,
                    ).take(k as int),
                decreases models@.len() - k,
            {
                let ghost before = ids@;
                ids.push(models[k].id.clone());
                assert(views_of(ids@) =~= views_of(before).push(models@[k as int].id@));
                assert(entries_view(models@).map_values(|m: crate::models::list::ModelEntryView| m.id).take(
                    k + 1,
                ) =~= entries_view(models@).map_values(|m: crate::models::list::ModelEntryView| m.id).take(
                    k as int,
                ).push(models@[k as int].id@));
                k += 1;
            }
            assert(entries_view(models@).map_values(|m: crate::models::list::ModelEntryView| m.id).take(
                models@.len() as int,
            ) =~= entries_view(models@).map_values(|m: crate::models::list::ModelEntryView| m.id));
            ids
        },
        Err(_) => {
            let v: Vec<String> = Vec::new();
            assert(views_of(v@) =~= Seq::<Seq<char>>::empty());
            v
        },
    }
}

} // verus!
