//! Reading a review response out of a provider payload: finding the JSON
//! object inside fences or prose, and decoding it field by field with the
//! rules of the response schema (required fields, optional fields that may be
//! absent or `null`, unknown fields ignored).
use vstd::prelude::*;

use crate::json::{json_get, JsonValue};
use crate::review::response::{
    purpose_label, review_stages_view, PurposeStatus, ReviewResponse, ReviewResponseView,
    ReviewStage, ReviewStageView,
};
use crate::text::{
    find_at_or_after, find_from, lemma_find_from, lemma_trim_range, rfind_char, rfind_char_in,
    string_from, trim, trim_bounds, trim_range, trimmed_chars,
};

verus! {

// ---------------------------------------------------------------------------
// Locating the payload
// ---------------------------------------------------------------------------

pub open spec fn fence_mark() -> Seq<char> {
    seq!['`', '`', '`']
}

/// The JSON object inside a provider payload, as the characters of the
/// trimmed payload: the trimmed body of the first complete markdown fence when
/// that body is not empty, else the trimmed text from the first `{` to the
/// last `}`.
pub open spec fn locate_payload(raw: Seq<char>) -> Option<Seq<char>> {
    let t = trim(raw);
    match fenced_body(t) {
        Some(body) => Some(body),
        None => braced_body(t),
    }
}

pub open spec fn fenced_body(t: Seq<char>) -> Option<Seq<char>> {
    match find_from(t, 0, fence_mark()) {
        Some(fs) => match find_from(t, fs + 3, seq!['\n']) {
            Some(le) => match find_from(t, le + 1, fence_mark()) {
                Some(fe) => {
                    let body = trim(t.subrange(le + 1, fe));
                    if body.len() > 0 {
                        Some(body)
                    } else {
                        None
                    }
                },
                None => None,
            },
            None => None,
        },
        None => None,
    }
}

pub open spec fn braced_body(t: Seq<char>) -> Option<Seq<char>> {
    match find_from(t, 0, seq!['{']) {
        Some(start) => match rfind_char(t, '}') {
            Some(end) => if end > start {
                Some(trim(t.subrange(start, end + 1)))
            } else {
                None
            },
            None => None,
        },
        None => None,
    }
}

fn chars_fence() -> (v: Vec<char>)
    ensures
        v@ == fence_mark(),
{
    let mut v: Vec<char> = Vec::new();
    v.push('`');
    v.push('`');
    v.push('`');
    assert(v@ =~= fence_mark());
    v
}

fn single(c: char) -> (v: Vec<char>)
    ensures
        v@ == seq![c],
{
    let mut v: Vec<char> = Vec::new();
    v.push(c);
    assert(v@ =~= seq![c]);
    v
}

/// The trimmed characters `s[from..to]` as a string.
fn trimmed_piece(s: &[char], from: usize, to: usize) -> (r: Vec<char>)
    requires
        from <= to <= s@.len(),
    ensures
        r@ == trim(s@.subrange(from as int, to as int)),
{
    let piece = string_from(s, from, to);
    trimmed_chars(piece.as_str())
}

fn fenced_payload(t: &[char]) -> (r: Option<String>)
    ensures
        match r {
            Some(p) => fenced_body(t@) == Some(p@),
            None => fenced_body(t@) is None,
        },
{
    let tl = t.len();
    let fence = chars_fence();
    let newline = single('\n');
    proof {
        lemma_find_from(t@, 0, fence@);
    }
    match find_at_or_after(t, 0, fence.as_slice()) {
        None => None,
        Some(fs) => {
            let after = fs + 3;
            proof {
                lemma_find_from(t@, after as int, newline@);
            }
            match find_at_or_after(t, after, newline.as_slice()) {
                None => None,
                Some(le) => {
                    let body = le + 1;
                    proof {
                        lemma_find_from(t@, body as int, fence@);
                    }
                    match find_at_or_after(t, body, fence.as_slice()) {
                        None => None,
                        Some(fe) => {
                            let fenced = trimmed_piece(t, body, fe);
                            if fenced.len() > 0 {
                                Some(crate::text::string_of(fenced.as_slice()))
                            } else {
                                None
                            }
                        },
                    }
                },
            }
        },
    }
}

fn braced_payload(t: &[char]) -> (r: Option<String>)
    ensures
        match r {
            Some(p) => braced_body(t@) == Some(p@),
            None => braced_body(t@) is None,
        },
{
    let tl = t.len();
    let open = single('{');
    proof {
        lemma_find_from(t@, 0, open@);
    }
    match find_at_or_after(t, 0, open.as_slice()) {
        None => None,
        Some(start) => match rfind_char_in(t, '}') {
            None => None,
            Some(end) => {
                if end > start {
                    let piece = trimmed_piece(t, start, end + 1);
                    Some(crate::text::string_of(piece.as_slice()))
                } else {
                    None
                }
            },
        },
    }
}

/// Locate the structured JSON object inside a provider payload. Providers may
/// wrap the object in a markdown code fence, possibly with surrounding prose.
pub fn locate_json_payload(raw: &str) -> (r: Option<String>)
    ensures
        match r {
            Some(p) => locate_payload(raw@) == Some(p@),
            None => locate_payload(raw@) is None,
        },
{
    let t = trimmed_chars(raw);
    match fenced_payload(t.as_slice()) {
        Some(p) => Some(p),
        None => braced_payload(t.as_slice()),
    }
}

// ---------------------------------------------------------------------------
// Decoding the response object
// ---------------------------------------------------------------------------

/// An unsigned 32-bit field.
pub open spec fn dec_u32(v: JsonValue) -> Option<u32> {
    match v {
        JsonValue::Number(Some(n)) => if n <= u32::MAX {
            Some(n as u32)
        } else {
            None
        },
        _ => None,
    }
}

/// A purpose status, by its wire name.
pub open spec fn dec_status(v: JsonValue) -> Option<PurposeStatus> {
    match v {
        JsonValue::Str(s) => if s@ == purpose_label(PurposeStatus::Ready) {
            Some(PurposeStatus::Ready)
        } else if s@ == purpose_label(PurposeStatus::Loading) {
            Some(PurposeStatus::Loading)
        } else if s@ == purpose_label(PurposeStatus::Unavailable) {
            Some(PurposeStatus::Unavailable)
        } else {
            None
        },
        _ => None,
    }
}

/// An optional string field: absent or `null` is `None`; anything but a
/// string is an error (outer `None`).
pub open spec fn dec_opt_str(v: Option<JsonValue>) -> Option<Option<Seq<char>>> {
    match v {
        None => Some(None),
        Some(JsonValue::Null) => Some(None),
        Some(JsonValue::Str(s)) => Some(Some(s@)),
        _ => None,
    }
}

pub open spec fn dec_stage(v: JsonValue) -> Option<ReviewStageView> {
    match json_get(v, "stage_text"@) {
        Some(JsonValue::Str(text)) => match dec_opt_str(json_get(v, "purpose"@)) {
            Some(purpose) => Some(ReviewStageView { text: text@, purpose }),
            None => None,
        },
        _ => None,
    }
}

pub open spec fn dec_stages(items: Seq<JsonValue>) -> Option<Seq<ReviewStageView>>
    decreases items.len(),
{
    if items.len() == 0 {
        Some(seq![])
    } else {
        match (dec_stages(items.drop_last()), dec_stage(items.last())) {
            (Some(front), Some(last)) => Some(front.push(last)),
            _ => None,
        }
    }
}

/// The `stages` field: absent is empty.
pub open spec fn dec_stages_field(v: Option<JsonValue>) -> Option<Seq<ReviewStageView>> {
    match v {
        None => Some(seq![]),
        Some(JsonValue::Array(items)) => dec_stages(items@),
        _ => None,
    }
}

/// A review response object: `review_version`, `command` and
/// `purpose_status` are required; `stages` and `purpose_request` may be
/// absent; other members are ignored.
pub open spec fn dec_review(v: JsonValue) -> Option<ReviewResponseView> {
    match (json_get(v, "review_version"@), json_get(v, "command"@), json_get(v, "purpose_status"@)) {
        (Some(version), Some(JsonValue::Str(command)), Some(status)) => {
            match (
                dec_u32(version),
                dec_status(status),
                dec_stages_field(json_get(v, "stages"@)),
                dec_opt_str(json_get(v, "purpose_request"@)),
            ) {
                (Some(n), Some(st), Some(stages), Some(request)) => Some(
                    ReviewResponseView {
                        review_version: n,
                        command: command@,
                        stages,
                        purpose_status: st,
                        purpose_request: request,
                    },
                ),
                _ => None,
            }
        },
        _ => None,
    }
}

fn decode_u32(v: &JsonValue) -> (r: Option<u32>)
    ensures
        r == dec_u32(*v),
{
    match v {
        JsonValue::Number(Some(n)) => {
            if *n <= 4294967295u64 {
                Some(*n as u32)
            } else {
                None
            }
        },
        _ => None,
    }
}

fn decode_status(v: &JsonValue) -> (r: Option<PurposeStatus>)
    ensures
        r == dec_status(*v),
{
    match v {
        JsonValue::Str(s) => {
            if crate::text::str_eq(s.as_str(), PurposeStatus::Ready.label()) {
                Some(PurposeStatus::Ready)
            } else if crate::text::str_eq(s.as_str(), PurposeStatus::Loading.label()) {
                Some(PurposeStatus::Loading)
            } else if crate::text::str_eq(s.as_str(), PurposeStatus::Unavailable.label()) {
                Some(PurposeStatus::Unavailable)
            } else {
                None
            }
        },
        _ => None,
    }
}

pub open spec fn opt_opt_view(r: Option<Option<String>>) -> Option<Option<Seq<char>>> {
    match r {
        Some(Some(s)) => Some(Some(s@)),
        Some(None) => Some(None),
        None => None,
    }
}

fn decode_opt_str(v: Option<&JsonValue>) -> (r: Option<Option<String>>)
    ensures
        opt_opt_view(r) == dec_opt_str(
            match v {
                Some(x) => Some(*x),
                None => None,
            },
        ),
{
    match v {
        None => Some(None),
        Some(JsonValue::Null) => Some(None),
        Some(JsonValue::Str(s)) => Some(Some(s.clone())),
        _ => None,
    }
}

fn decode_stage(v: &JsonValue) -> (r: Option<ReviewStage>)
    ensures
        match r {
            Some(s) => dec_stage(*v) == Some(s@),
            None => dec_stage(*v) is None,
        },
{
    match v.get("stage_text") {
        Some(JsonValue::Str(text)) => match decode_opt_str(v.get("purpose")) {
            Some(purpose) => Some(ReviewStage { stage_text: text.clone(), purpose }),
            None => None,
        },
        _ => None,
    }
}

fn decode_stages(items: &Vec<JsonValue>) -> (r: Option<Vec<ReviewStage>>)
    ensures
        match r {
            Some(s) => dec_stages(items@) == Some(review_stages_view(s@)),
            None => dec_stages(items@) is None,
        },
{
    let mut out: Vec<ReviewStage> = Vec::new();
    let mut k: usize = 0;
    assert(items@.take(0) =~= seq![]);
    assert(review_stages_view(out@) =~= seq![]);
    while k < items.len()
        invariant
            k <= items@.len(),
            dec_stages(items@.take(k as int)) == Some(review_stages_view(out@)),
        decreases items@.len() - k,
    {
        let ghost front = items@.take(k as int);
        let ghost next = items@.take(k + 1);
        assert(next.drop_last() =~= front);
        assert(next.last() == items@[k as int]);
        match decode_stage(&items[k]) {
            None => {
                assert(dec_stages(next) is None);
                let mut j: usize = k + 1;
                while j < items.len()
                    invariant
                        k < j <= items@.len(),
                        dec_stages(items@.take(j as int)) is None,
                    decreases items@.len() - j,
                {
                    assert(items@.take(j + 1).drop_last() =~= items@.take(j as int));
                    j += 1;
                }
                assert(items@.take(items@.len() as int) =~= items@);
                return None;
            },
            Some(stage) => {
                let ghost before = out@;
                out.push(stage);
                assert(review_stages_view(out@) =~= review_stages_view(before).push(stage@));
            },
        }
        k += 1;
    }
    assert(items@.take(items@.len() as int) =~= items@);
    Some(out)
}

fn decode_stages_field(v: Option<&JsonValue>) -> (r: Option<Vec<ReviewStage>>)
    ensures
        match r {
            Some(s) => dec_stages_field(
                match v {
                    Some(x) => Some(*x),
                    None => None,
                },
            ) == Some(review_stages_view(s@)),
            None => dec_stages_field(
                match v {
                    Some(x) => Some(*x),
                    None => None,
                },
            ) is None,
        },
{
    match v {
        None => {
            let out: Vec<ReviewStage> = Vec::new();
            assert(review_stages_view(out@) =~= seq![]);
            Some(out)
        },
        Some(JsonValue::Array(items)) => decode_stages(items),
        _ => None,
    }
}

/// Decode a review response object; `None` where a field is missing or has
/// the wrong shape.
pub fn decode_review(v: &JsonValue) -> (r: Option<ReviewResponse>)
    ensures
        match r {
            Some(x) => dec_review(*v) == Some(x@),
            None => dec_review(*v) is None,
        },
{
    let version = match v.get("review_version") {
        Some(x) => x,
        None => return None,
    };
    let command = match v.get("command") {
        Some(JsonValue::Str(c)) => c,
        _ => return None,
    };
    let status = match v.get("purpose_status") {
        Some(x) => x,
        None => return None,
    };
    let n = match decode_u32(version) {
        Some(n) => n,
        None => return None,
    };
    let st = match decode_status(status) {
        Some(st) => st,
        None => return None,
    };
    let stages = match decode_stages_field(v.get("stages")) {
        Some(s) => s,
        None => return None,
    };
    let request = match decode_opt_str(v.get("purpose_request")) {
        Some(r) => r,
        None => return None,
    };
    Some(
        ReviewResponse {
            review_version: n,
            command: command.clone(),
            stages,
            purpose_status: st,
            purpose_request: request,
        },
    )
}

} // verus!
