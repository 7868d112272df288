//! The provider's model catalog: its URLs, the search filter and the
//! reasoning policy that a catalog entry declares.
use vstd::prelude::*;

use crate::exec::lowercase;
use crate::error::Error;
use crate::json::{json_get, JsonValue};
use crate::provider::openai_compat::{join_endpoint, without_trailing_slashes};
use crate::review::card::{split_words, words};
use crate::review::response::opt_view;
use crate::text::{chars_of, find_at_or_after, find_from, push_str};

verus! {

/// The reasoning policy that a catalog entry declares.
#[derive(Debug, PartialEq, Eq)]
pub struct ModelReasoning {
    pub default_effort: Option<String>,
    pub default_enabled: bool,
    pub mandatory: bool,
    pub supported_efforts: Vec<String>,
}

pub fn models_url(endpoint: &str) -> (r: String)
    ensures
        r@ == without_trailing_slashes(endpoint@) + "/models"@,
{
    let endpoint = crate::provider::transport::endpoint(endpoint);
    join_endpoint(endpoint.as_str(), "/models")
}

pub fn models_search_url(endpoint: &str, query: &str) -> (r: String)
    ensures
        r@ == without_trailing_slashes(endpoint@) + "/models?search="@ + query@,
{
    let endpoint = crate::provider::transport::endpoint(endpoint);
    let mut r = join_endpoint(endpoint.as_str(), "/models?search=");
    push_str(&mut r, query);
    r
}

pub fn models_page_url(endpoint: &str, page: u32, limit: u32) -> (r: String)
    ensures
        r@ == without_trailing_slashes(endpoint@) + "/models?page="@ + crate::text::decimal_text(
            page as nat,
        ) + "&limit="@ + crate::text::decimal_text(limit as nat),
{
    let endpoint = crate::provider::transport::endpoint(endpoint);
    let mut r = join_endpoint(endpoint.as_str(), "/models?page=");
    push_str(&mut r, crate::text::decimal(page as u64).as_str());
    push_str(&mut r, "&limit=");
    push_str(&mut r, crate::text::decimal(limit as u64).as_str());
    r
}

/// Every word of the lowercased query occurs in the lowercased id.
pub open spec fn words_match(id_lower: Seq<char>, query_lower: Seq<char>) -> bool {
    forall|k: int|
        0 <= k < words(query_lower).len() ==> find_from(id_lower, 0, #[trigger] words(query_lower)[k]) is Some
}

/// Per-word, order-independent match against a model id, over text that is
/// already lowercased.
pub fn words_occur(id_lower: &str, query_lower: &str) -> (b: bool)
    ensures
        b == words_match(id_lower@, query_lower@),
{
    let id = chars_of(id_lower);
    let ws = split_words(query_lower);
    let mut k: usize = 0;
    while k < ws.len()
        invariant
            k <= ws@.len(),
            id@ == id_lower@,
            crate::text::views_of(ws@) == words(query_lower@),
            forall|j: int| 0 <= j < k ==> find_from(id@, 0, #[trigger] words(query_lower@)[j]) is Some,
        decreases ws@.len() - k,
    {
        let w = chars_of(ws[k].as_str());
        assert(w@ == words(query_lower@)[k as int]);
        if find_at_or_after(id.as_slice(), 0, w.as_slice()).is_none() {
            return false;
        }
        k += 1;
    }
    true
}

/// Per-word, order-independent match against a model id: split the query on
/// whitespace and require every word to be contained (case-insensitive)
/// anywhere in the id, in any order. "dee flash" matches "DeepSeek V4 Flash"
/// because each word is matched separately anywhere in the identifier.
pub fn word_matches(id: &str, query: &str) -> (b: bool)
    ensures
        b == words_match(lowercase(id@), lowercase(query@)),
{
    let id_lower = crate::exec::to_lowercase(id);
    let query_lower = crate::exec::to_lowercase(query);
    words_occur(id_lower.as_str(), query_lower.as_str())
}

pub open spec fn str_items(items: Seq<JsonValue>) -> Seq<Seq<char>>
    decreases items.len(),
{
    if items.len() == 0 {
        seq![]
    } else {
        let front = str_items(items.drop_last());
        match items.last() {
            JsonValue::Str(s) => front.push(s@),
            _ => front,
        }
    }
}

pub struct ReasoningView {
    pub default_effort: Option<Seq<char>>,
    pub default_enabled: bool,
    pub mandatory: bool,
    pub supported_efforts: Seq<Seq<char>>,
}

impl View for ModelReasoning {
    type V = ReasoningView;

    open spec fn view(&self) -> ReasoningView {
        ReasoningView {
            default_effort: opt_view(self.default_effort),
            default_enabled: self.default_enabled,
            mandatory: self.mandatory,
            supported_efforts: crate::text::views_of(self.supported_efforts@),
        }
    }
}

/// The reasoning policy of a catalog entry's `reasoning` member: absent
/// unless it is an object; strings of `supported_efforts` in order; missing
/// flags are off.
pub open spec fn reasoning_of(v: Option<JsonValue>) -> Option<ReasoningView> {
    match v {
        Some(JsonValue::Object(members)) => {
            let o = JsonValue::Object(members);
            Some(
                ReasoningView {
                    default_effort: match json_get(o, "default_effort"@) {
                        Some(JsonValue::Str(s)) => Some(s@),
                        _ => None,
                    },
                    default_enabled: match json_get(o, "default_enabled"@) {
                        Some(JsonValue::Bool(b)) => b,
                        _ => false,
                    },
                    mandatory: match json_get(o, "mandatory"@) {
                        Some(JsonValue::Bool(b)) => b,
                        _ => false,
                    },
                    supported_efforts: match json_get(o, "supported_efforts"@) {
                        Some(JsonValue::Array(items)) => str_items(items@),
                        _ => seq![],
                    },
                },
            )
        },
        _ => None,
    }
}

/// A catalog entry's `reasoning` member gives a policy exactly when it is an
/// object. The policy is switched on by default, or mandatory, exactly when
/// the object's member of that name is the boolean `true`; its default
/// effort is the object's string member `default_effort`.
pub proof fn reasoning_members_are_read(v: JsonValue)
    ensures
        reasoning_of(None) is None,
        reasoning_of(Some(v)) is Some <==> v is Object,
        reasoning_of(Some(v)) matches Some(p) ==> {
            &&& p.default_enabled == (json_get(v, "default_enabled"@) == Some(JsonValue::Bool(true)))
            &&& p.mandatory == (json_get(v, "mandatory"@) == Some(JsonValue::Bool(true)))
            &&& (json_get(v, "default_effort"@) matches Some(JsonValue::Str(e)) ==> p.default_effort == Some(e@))
            &&& (!(json_get(v, "default_effort"@) matches Some(JsonValue::Str(_))) ==> p.default_effort is None)
        },
{
}

fn string_items(items: &Vec<JsonValue>) -> (r: Vec<String>)
    ensures
        crate::text::views_of(r@) == str_items(items@),
{
    let mut out: Vec<String> = Vec::new();
    let mut k: usize = 0;
    assert(items@.take(0) =~= Seq::<JsonValue>::empty());
    assert(crate::text::views_of(out@) =~= Seq::<Seq<char>>::empty());
    while k < items.len()
        invariant
            k <= items@.len(),
            crate::text::views_of(out@) == str_items(items@.take(k as int)),
        decreases items@.len() - k,
    {
        assert(items@.take(k + 1).drop_last() =~= items@.take(k as int));
        assert(items@.take(k + 1).last() == items@[k as int]);
        match &items[k] {
            JsonValue::Str(s) => {
                let ghost before = out@;
                out.push(s.clone());
                assert(crate::text::views_of(out@) =~= crate::text::views_of(before).push(s@));
            },
            _ => {},
        }
        k += 1;
    }
    assert(items@.take(items@.len() as int) =~= items@);
    out
}

/// Read the reasoning policy of a catalog entry.
pub fn parse_reasoning(value: Option<&JsonValue>) -> (r: Option<ModelReasoning>)
    ensures
        match r {
            Some(m) => reasoning_of(
                match value {
                    Some(x) => Some(*x),
                    None => None,
                },
            ) == Some(m@),
            None => reasoning_of(
                match value {
                    Some(x) => Some(*x),
                    None => None,
                },
            ) is None,
        },
{
    let object = match value {
        Some(v) => v,
        None => return None,
    };
    if !object.is_object() {
        return None;
    }
    let supported_efforts = match object.get("supported_efforts") {
        Some(JsonValue::Array(items)) => string_items(items),
        _ => {
            let v: Vec<String> = Vec::new();
            assert(crate::text::views_of(v@) =~= Seq::<Seq<char>>::empty());
            v
        },
    };
    let default_effort = match object.get("default_effort") {
        Some(JsonValue::Str(s)) => Some(s.clone()),
        _ => None,
    };
    let default_enabled = match object.get("default_enabled") {
        Some(JsonValue::Bool(b)) => *b,
        _ => false,
    };
    let mandatory = match object.get("mandatory") {
        Some(JsonValue::Bool(b)) => *b,
        _ => false,
    };
    Some(ModelReasoning { default_effort, default_enabled, mandatory, supported_efforts })
}


impl Clone for ModelReasoning {
    fn clone(&self) -> (r: Self)
        ensures
            r@ == self@,
    {
        ModelReasoning {
            default_effort: crate::review::response::clone_opt(&self.default_effort),
            default_enabled: self.default_enabled,
            mandatory: self.mandatory,
            supported_efforts: crate::text::clone_strings(&self.supported_efforts),
        }
    }
}

/// A model of the provider's catalog. Its price, a floating-point figure,
/// is kept beside it by the program and not here.
#[derive(Debug)]
pub struct ModelEntry {
    pub id: String,
    pub name: Option<String>,
    pub context_length: Option<u64>,
    pub supported_features: Vec<String>,
    pub reasoning: Option<ModelReasoning>,
}

pub struct ModelEntryView {
    pub id: Seq<char>,
    pub name: Option<Seq<char>>,
    pub context_length: Option<u64>,
    pub supported_features: Seq<Seq<char>>,
    pub reasoning: Option<ReasoningView>,
}

impl View for ModelEntry {
    type V = ModelEntryView;

    open spec fn view(&self) -> ModelEntryView {
        ModelEntryView {
            id: self.id@,
            name: opt_view(self.name),
            context_length: self.context_length,
            supported_features: crate::text::views_of(self.supported_features@),
            reasoning: match self.reasoning {
                Some(r) => Some(r@),
                None => None,
            },
        }
    }
}

impl Clone for ModelEntry {
    fn clone(&self) -> (r: Self)
        ensures
            r@ == self@,
    {
        ModelEntry {
            id: self.id.clone(),
            name: crate::review::response::clone_opt(&self.name),
            context_length: self.context_length,
            supported_features: crate::text::clone_strings(&self.supported_features),
            reasoning: match &self.reasoning {
                Some(r) => Some(r.clone()),
                None => None,
            },
        }
    }
}

pub open spec fn entries_view(v: Seq<ModelEntry>) -> Seq<ModelEntryView> {
    v.map_values(|m: ModelEntry| m@)
}

/// The string value of member `key`, if it is a string.
pub open spec fn str_member(item: JsonValue, key: Seq<char>) -> Option<Seq<char>> {
    match json_get(item, key) {
        Some(JsonValue::Str(s)) => Some(s@),
        _ => None,
    }
}

/// A catalog entry read from its JSON object: a missing or non-string `id`
/// reads as empty; `context_length` is an unsigned number or a decimal
/// string; `supported_features` keeps its strings in order.
pub open spec fn model_of(item: JsonValue) -> ModelEntryView {
    ModelEntryView {
        id: match str_member(item, "id"@) {
            Some(s) => s,
            None => seq![],
        },
        name: str_member(item, "name"@),
        context_length: match json_get(item, "context_length"@) {
            Some(JsonValue::Number(Some(n))) => Some(n),
            Some(JsonValue::Str(s)) => crate::text::u64_text(s@),
            _ => None,
        },
        supported_features: match json_get(item, "supported_features"@) {
            Some(JsonValue::Array(items)) => str_items(items@),
            _ => seq![],
        },
        reasoning: reasoning_of(json_get(item, "reasoning"@)),
    }
}

/// Read one catalog entry.
pub fn parse_model(item: &JsonValue) -> (m: ModelEntry)
    ensures
        m@ == model_of(*item),
{
    let id = match item.get("id") {
        Some(JsonValue::Str(s)) => s.clone(),
        _ => String::new(),
    };
    let name = match item.get("name") {
        Some(JsonValue::Str(s)) => Some(s.clone()),
        _ => None,
    };
    let context_length = match item.get("context_length") {
        Some(JsonValue::Number(Some(n))) => Some(*n),
        Some(JsonValue::Str(s)) => crate::text::parse_u64(s.as_str()),
        _ => None,
    };
    let supported_features = match item.get("supported_features") {
        Some(JsonValue::Array(items)) => string_items(items),
        _ => {
            let v: Vec<String> = Vec::new();
            assert(crate::text::views_of(v@) =~= Seq::<Seq<char>>::empty());
            v
        },
    };
    let reasoning = parse_reasoning(item.get("reasoning"));
    ModelEntry { id, name, context_length, supported_features, reasoning }
}

/// Read the entries of a catalog's `data` array, in order.
pub fn parse_model_data(data: &Vec<JsonValue>) -> (r: Vec<ModelEntry>)
    ensures
        entries_view(r@) == data@.map_values(|v: JsonValue| model_of(v)),
{
    let mut out: Vec<ModelEntry> = Vec::new();
    let mut k: usize = 0;
    while k < data.len()
        invariant
            k <= data@.len(),
            entries_view(out@) == data@.map_values(|v: JsonValue| model_of(v)).take(k as int),
        decreases data@.len() - k,
    {
        let ghost before = out@;
        out.push(parse_model(&data[k]));
        assert(entries_view(out@) =~= entries_view(before).push(model_of(data@[k as int])));
        assert(data@.map_values(|v: JsonValue| model_of(v)).take(k + 1) =~= data@.map_values(
            |v: JsonValue| model_of(v),
        ).take(k as int).push(model_of(data@[k as int])));
        k += 1;
    }
    assert(data@.map_values(|v: JsonValue| model_of(v)).take(data@.len() as int) =~= data@.map_values(
        |v: JsonValue| model_of(v),
    ));
    out
}

/// What a catalog response body yields: its entries, or the status and
/// message of the error reported for it.
pub open spec fn catalog_of(text: Seq<char>) -> Result<Seq<ModelEntryView>, (u16, Seq<char>)> {
    match crate::json::json_text_value(text) {
        Err(e) => Err((0u16, "failed to parse response: "@ + e)),
        Ok(body) => match json_get(body, "data"@) {
            Some(JsonValue::Array(items)) => Ok(items@.map_values(|v: JsonValue| model_of(v))),
            _ => Err((0u16, "response missing 'data' array"@)),
        },
    }
}

pub open spec fn catalog_result(r: Result<Vec<ModelEntry>, Error>) -> Result<Seq<ModelEntryView>, (u16, Seq<char>)> {
    match r {
        Ok(v) => Ok(entries_view(v@)),
        Err(Error::ApiError { status, message }) => Err((status, message@)),
        Err(_) => Err((1u16, seq![])),
    }
}

/// Read the models of a catalog response body: the members of its `data`
/// array.
pub fn models_from_body(text: &str) -> (r: Result<Vec<ModelEntry>, Error>)
    ensures
        !(r matches Err(e) && !(e is ApiError)),
        catalog_result(r) == catalog_of(text@),
{
    match crate::json::parse_json(text) {
        Err(e) => {
            let mut message = String::from_str("failed to parse response: ");
            push_str(&mut message, e.as_str());
            Err(Error::ApiError { status: 0, message })
        },
        Ok(body) => match body.get("data") {
            Some(JsonValue::Array(items)) => Ok(parse_model_data(items)),
            _ => Err(
                Error::ApiError {
                    status: 0,
                    message: String::from_str("response missing 'data' array"),
                },
            ),
        },
    }
}


} // verus!
