//! A JSON document as plain values. `serde_json` parses the text; the
//! library reads the resulting tree.
use vstd::prelude::*;

verus! {

/// A JSON value. A number keeps only its value as an unsigned 64-bit
/// integer, when it is one (`serde_json::Number::as_u64`). An object keeps
/// its members in the order that `serde_json` yields them, each key once.
pub enum JsonValue {
    Null,
    Bool(bool),
    Number(Option<u64>),
    Str(String),
    Array(Vec<JsonValue>),
    Object(Vec<(String, JsonValue)>),
}

/// What `serde_json::from_str::<serde_json::Value>` makes of `text`: the
/// value, or the text of the error it reports.
pub uninterp spec fn json_text_value(text: Seq<char>) -> Result<JsonValue, Seq<char>>;

pub open spec fn json_result_view(r: Result<JsonValue, String>) -> Result<JsonValue, Seq<char>> {
    match r {
        Ok(v) => Ok(v),
        Err(e) => Err(e@),
    }
}

#[verifier::external_type_specification]
#[verifier::external_body]
pub struct ExSerdeJsonValue(serde_json::Value);

/// Rebuilds a `serde_json::Value` as a [`JsonValue`], variant by variant.
#[verifier::external_body]
fn json_from_serde(value: serde_json::Value) -> JsonValue {
    match value {
        serde_json::Value::Null => JsonValue::Null,
        serde_json::Value::Bool(b) => JsonValue::Bool(b),
        serde_json::Value::Number(n) => JsonValue::Number(n.as_u64()),
        serde_json::Value::String(s) => JsonValue::Str(s),
        serde_json::Value::Array(items) => JsonValue::Array(items.into_iter().map(json_from_serde).collect()),
        serde_json::Value::Object(members) => JsonValue::Object(
            members.into_iter().map(|(k, v)| (k, json_from_serde(v))).collect(),
        ),
    }
}

/// Parses `text` with `serde_json::from_str::<serde_json::Value>`. The
/// contract names the result: the value that `serde_json` builds, or the
/// `Display` text of its error. Nothing else is claimed of it.
#[verifier::external_body]
pub fn parse_json(text: &str) -> (r: Result<JsonValue, String>)
    ensures
        json_result_view(r) == json_text_value(text@),
{
    match serde_json::from_str::<serde_json::Value>(text) {
        Ok(value) => Ok(json_from_serde(value)),
        Err(error) => Err(error.to_string()),
    }
}

/// The value of the first member of `members` named `key`.
pub open spec fn member(members: Seq<(String, JsonValue)>, key: Seq<char>) -> Option<JsonValue>
    decreases members.len(),
{
    if members.len() == 0 {
        None
    } else if members[0].0@ == key {
        Some(members[0].1)
    } else {
        member(members.drop_first(), key)
    }
}

/// The member `key` of an object; `None` for a missing member or a value
/// that is no object (`serde_json::Value::get`).
pub open spec fn json_get(v: JsonValue, key: Seq<char>) -> Option<JsonValue> {
    match v {
        JsonValue::Object(members) => member(members@, key),
        _ => None,
    }
}

impl JsonValue {
    /// `serde_json::Value::get` with a string key.
    pub fn get(&self, key: &str) -> (r: Option<&JsonValue>)
        ensures
            match r {
                Some(x) => json_get(*self, key@) == Some(*x),
                None => json_get(*self, key@) is None,
            },
    {
        match self {
            JsonValue::Object(members) => {
                let mut k: usize = 0;
                assert(members@.subrange(0, members@.len() as int) =~= members@);
                while k < members.len()
                    invariant
                        k <= members@.len(),
                        *self == JsonValue::Object(*members),
                        member(members@, key@) == member(members@.subrange(k as int, members@.len() as int), key@),
                    decreases members@.len() - k,
                {
                    let ghost rest = members@.subrange(k as int, members@.len() as int);
                    assert(rest[0] == members@[k as int]);
                    assert(rest.len() > 0);
                    if crate::text::str_eq(members[k].0.as_str(), key) {
                        assert(member(rest, key@) == Some(rest[0].1));
                        return Some(&members[k].1);
                    }
                    assert(rest.drop_first() =~= members@.subrange(k + 1, members@.len() as int));
                    k += 1;
                }
                assert(members@.subrange(k as int, members@.len() as int).len() == 0);
                None
            },
            _ => None,
        }
    }

    pub fn as_str(&self) -> (r: Option<&str>)
        ensures
            match r {
                Some(s) => *self matches JsonValue::Str(t) && t@ == s@,
                None => !(*self is Str),
            },
    {
        match self {
            JsonValue::Str(s) => Some(s.as_str()),
            _ => None,
        }
    }

    pub fn as_bool(&self) -> (r: Option<bool>)
        ensures
            match r {
                Some(b) => *self == JsonValue::Bool(b),
                None => !(*self is Bool),
            },
    {
        match self {
            JsonValue::Bool(b) => Some(*b),
            _ => None,
        }
    }

    pub fn as_u64(&self) -> (r: Option<u64>)
        ensures
            match *self {
                JsonValue::Number(n) => r == n,
                _ => r is None,
            },
    {
        match self {
            JsonValue::Number(n) => *n,
            _ => None,
        }
    }

    pub fn as_array(&self) -> (r: Option<&Vec<JsonValue>>)
        ensures
            match r {
                Some(items) => *self == JsonValue::Array(*items),
                None => !(*self is Array),
            },
    {
        match self {
            JsonValue::Array(items) => Some(items),
            _ => None,
        }
    }

    pub fn is_object(&self) -> (b: bool)
        ensures
            b == (*self is Object),
    {
        matches!(self, JsonValue::Object(_))
    }
}

} // verus!
