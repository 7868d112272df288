//! Searching the catalog: the provider's search when it has one, the
//! local word filter when it does not.
use vstd::prelude::*;

use crate::error::Error;
use crate::exec::lowercase;
use crate::models::list::{
    entries_view, models_from_body, word_matches, words_match, ModelEntry, ModelEntryView,
    catalog_of, catalog_result,
};

verus! {

/// The entries whose id matches `query` word by word, in order.
pub open spec fn matching(models: Seq<ModelEntryView>, query: Seq<char>) -> Seq<ModelEntryView>
    decreases models.len(),
{
    if models.len() == 0 {
        seq![]
    } else if words_match(lowercase(models.last().id), lowercase(query)) {
        matching(models.drop_last(), query).push(models.last())
    } else {
        matching(models.drop_last(), query)
    }
}

/// The models whose id matches `query` (see [`word_matches`]), in order.
pub fn local_filter(models: &[ModelEntry], query: &str) -> (r: Vec<ModelEntry>)
    ensures
        entries_view(r@) == matching(entries_view(models@), query@),
{
    let mut out: Vec<ModelEntry> = Vec::new();
    let mut k: usize = 0;
    while k < models.len()
        invariant
            k <= models@.len(),
            entries_view(out@) == matching(entries_view(models@).take(k as int), query@),
        decreases models@.len() - k,
    {
        let ghost prefix = entries_view(models@).take(k + 1);
        assert(prefix.drop_last() =~= entries_view(models@).take(k as int));
        assert(prefix.last() == models@[k as int]@);
        if word_matches(models[k].id.as_str(), query) {
            let ghost before = out@;
            out.push(models[k].clone());
            assert(entries_view(out@) =~= entries_view(before).push(models@[k as int]@));
        }
        k += 1;
    }
    assert(entries_view(models@).take(models@.len() as int) =~= entries_view(models@));
    out
}


/// What a search response body yields: the catalog it holds, narrowed to
/// the models that match `query`.
pub fn search_results(text: &str, query: &str) -> (r: Result<Vec<ModelEntry>, Error>)
    ensures
        !(r matches Err(e) && !(e is ApiError)),
        catalog_result(r) == match catalog_of(text@) {
            Ok(found) => Ok(matching(found, query@)),
            Err(e) => Err(e),
        },
{
    match models_from_body(text) {
        Ok(models) => Ok(local_filter(models.as_slice(), query)),
        Err(e) => Err(e),
    }
}

/// The provider does not search: it answered 400 or 501.
pub open spec fn search_unsupported(e: Error) -> bool {
    e matches Error::ApiError { status, .. } && (status == 501 || status == 400)
}

pub open spec fn notice_view(o: Option<String>) -> Option<Seq<char>> {
    match o {
        Some(s) => Some(s@),
        None => None,
    }
}

/// Decide what a model search shows, given the provider's `reply` and
/// whether the search is still the `current` one when it lands: a stale
/// search shows nothing; found models are shown (an empty answer is
/// reported as such); a provider without search falls back to filtering
/// `all_models` locally with a notice; any other error is returned.
pub fn execute_search(
    reply: Result<Vec<ModelEntry>, Error>,
    query: &str,
    all_models: &[ModelEntry],
    current: bool,
) -> (r: Result<(Vec<ModelEntry>, Option<String>, bool), Error>)
    ensures
        match reply {
            Ok(found) => r matches Ok((shown, notice, no_results)) && notice is None && if !current {
                shown@.len() == 0 && !no_results
            } else {
                entries_view(shown@) == entries_view(found@) && no_results == (found@.len() == 0)
            },
            Err(e) => if search_unsupported(e) {
                r matches Ok((shown, notice, no_results)) && if !current {
                    shown@.len() == 0 && notice is None && !no_results
                } else {
                    &&& entries_view(shown@) == matching(entries_view(all_models@), query@)
                    &&& notice_view(notice) == Some("model search is not supported by this provider"@)
                    &&& no_results == (shown@.len() == 0)
                }
            } else {
                r == Err::<(Vec<ModelEntry>, Option<String>, bool), Error>(e)
            },
        },
{
    match reply {
        Ok(results) => {
            if !current {
                return Ok((Vec::new(), None, false));
            }
            if results.len() == 0 {
                Ok((Vec::new(), None, true))
            } else {
                Ok((results, None, false))
            }
        },
        Err(Error::ApiError { status, message }) if status == 501 || status == 400 => {
            if !current {
                return Ok((Vec::new(), None, false));
            }
            let filtered = local_filter(all_models, query);
            let is_empty = filtered.len() == 0;
            Ok((filtered, Some(String::from_str("model search is not supported by this provider")), is_empty))
        },
        Err(e) => Err(e),
    }
}

} // verus!
