//! Provider review responses: the structured JSON object that carries a
//! command with a purpose for each of its stages, and the candidate that the
//! review surface shows.
use vstd::prelude::*;

use crate::json::{json_get, json_text_value, parse_json, JsonValue};
use crate::review::decode::{dec_review, decode_review, locate_json_payload, locate_payload};
use crate::review::flow::{
    derive_command_flow, flow_view, stage_at, stage_view_at, stages_view, CommandFlow, CommandStage,
    StageView,
};
use crate::text::{
    all_whitespace, all_ws, char_byte_offsets, chars_of, find_at_or_after, is_blank,
    is_whitespace, is_ws, lemma_find_from, find_from, str_eq, string_from, string_of, trim,
    trim_bounds, trimmed_chars,
};

verus! {

pub const REVIEW_VERSION: u32 = 1;

#[derive(Debug, Clone, Copy, PartialEq, Eq)]
pub enum PurposeStatus {
    Ready,
    Loading,
    Unavailable,
}

impl PurposeStatus {
    pub fn label(self) -> (s: &'static str)
        ensures
            s@ == purpose_label(self),
    {
        match self {
            PurposeStatus::Ready => "ready",
            PurposeStatus::Loading => "loading",
            PurposeStatus::Unavailable => "purpose-unavailable",
        }
    }
}

/// The wire name of a purpose status.
pub open spec fn purpose_label(s: PurposeStatus) -> Seq<char> {
    match s {
        PurposeStatus::Ready => "ready"@,
        PurposeStatus::Loading => "loading"@,
        PurposeStatus::Unavailable => "purpose-unavailable"@,
    }
}

#[derive(Debug, PartialEq, Eq)]
pub struct ReviewStage {
    pub stage_text: String,
    pub purpose: Option<String>,
}

pub struct ReviewStageView {
    pub text: Seq<char>,
    pub purpose: Option<Seq<char>>,
}

pub open spec fn opt_view(o: Option<String>) -> Option<Seq<char>> {
    match o {
        Some(s) => Some(s@),
        None => None,
    }
}

impl View for ReviewStage {
    type V = ReviewStageView;

    open spec fn view(&self) -> ReviewStageView {
        ReviewStageView { text: self.stage_text@, purpose: opt_view(self.purpose) }
    }
}

pub fn clone_opt(o: &Option<String>) -> (r: Option<String>)
    ensures
        opt_view(r) == opt_view(*o),
{
    match o {
        Some(s) => Some(s.clone()),
        None => None,
    }
}

impl Clone for ReviewStage {
    fn clone(&self) -> (r: Self)
        ensures
            r@ == self@,
    {
        ReviewStage { stage_text: self.stage_text.clone(), purpose: clone_opt(&self.purpose) }
    }
}

pub open spec fn review_stages_view(v: Seq<ReviewStage>) -> Seq<ReviewStageView> {
    v.map_values(|x: ReviewStage| x@)
}

#[derive(Debug, PartialEq, Eq)]
pub struct ReviewResponse {
    pub review_version: u32,
    pub command: String,
    pub stages: Vec<ReviewStage>,
    pub purpose_status: PurposeStatus,
    pub purpose_request: Option<String>,
}

pub struct ReviewResponseView {
    pub review_version: u32,
    pub command: Seq<char>,
    pub stages: Seq<ReviewStageView>,
    pub purpose_status: PurposeStatus,
    pub purpose_request: Option<Seq<char>>,
}

impl View for ReviewResponse {
    type V = ReviewResponseView;

    open spec fn view(&self) -> ReviewResponseView {
        ReviewResponseView {
            review_version: self.review_version,
            command: self.command@,
            stages: review_stages_view(self.stages@),
            purpose_status: self.purpose_status,
            purpose_request: opt_view(self.purpose_request),
        }
    }
}

#[derive(Debug, PartialEq, Eq)]
pub enum ReviewResponseError {
    InvalidJson(String),
    UnsupportedVersion(u32),
    EmptyCommand,
    CommandMismatch,
    StageMismatch,
    MissingPurpose,
    InvalidLoadingResponse,
}

/// An error by its kind, ignoring the text of an invalid-JSON report.
pub open spec fn error_kind(e: ReviewResponseError) -> ReviewResponseError {
    match e {
        ReviewResponseError::InvalidJson(_) => ReviewResponseError::InvalidJson(arbitrary()),
        other => other,
    }
}

impl Clone for ReviewResponseError {
    fn clone(&self) -> (r: Self)
        ensures
            r == *self,
    {
        match self {
            ReviewResponseError::InvalidJson(m) => {
                let c = m.clone();
                ReviewResponseError::InvalidJson(c)
            },
            ReviewResponseError::UnsupportedVersion(v) => ReviewResponseError::UnsupportedVersion(*v),
            ReviewResponseError::EmptyCommand => ReviewResponseError::EmptyCommand,
            ReviewResponseError::CommandMismatch => ReviewResponseError::CommandMismatch,
            ReviewResponseError::StageMismatch => ReviewResponseError::StageMismatch,
            ReviewResponseError::MissingPurpose => ReviewResponseError::MissingPurpose,
            ReviewResponseError::InvalidLoadingResponse => ReviewResponseError::InvalidLoadingResponse,
        }
    }
}

impl ReviewResponseError {
    /// The message that describes the error.
    pub fn message(&self) -> (s: String)
        ensures
            s@ == error_message(*self),
    {
        match self {
            ReviewResponseError::InvalidJson(error) => {
                let mut s = String::from_str("invalid review JSON: ");
                s.append(error.as_str());
                s
            },
            ReviewResponseError::UnsupportedVersion(version) => {
                let mut s = String::from_str("unsupported review response version: ");
                let digits = crate::text::decimal(*version as u64);
                s.append(digits.as_str());
                s
            },
            ReviewResponseError::EmptyCommand => String::from_str("review response command is empty"),
            ReviewResponseError::CommandMismatch => String::from_str(
                "review response command does not match candidate",
            ),
            ReviewResponseError::StageMismatch => String::from_str(
                "review response stage text does not match command flow",
            ),
            ReviewResponseError::MissingPurpose => String::from_str(
                "review response is missing a stage purpose",
            ),
            ReviewResponseError::InvalidLoadingResponse => String::from_str(
                "loading review response has no delayed-purpose request",
            ),
        }
    }
}

pub open spec fn error_message(e: ReviewResponseError) -> Seq<char> {
    match e {
        ReviewResponseError::InvalidJson(error) => "invalid review JSON: "@ + error@,
        ReviewResponseError::UnsupportedVersion(version) => "unsupported review response version: "@
            + crate::text::decimal_text(version as nat),
        ReviewResponseError::EmptyCommand => "review response command is empty"@,
        ReviewResponseError::CommandMismatch => "review response command does not match candidate"@,
        ReviewResponseError::StageMismatch => "review response stage text does not match command flow"@,
        ReviewResponseError::MissingPurpose => "review response is missing a stage purpose"@,
        ReviewResponseError::InvalidLoadingResponse => "loading review response has no delayed-purpose request"@,
    }
}

/// A response error with its text as characters.
pub enum ResponseErrorView {
    InvalidJson(Seq<char>),
    UnsupportedVersion(u32),
    EmptyCommand,
    CommandMismatch,
    StageMismatch,
    MissingPurpose,
    InvalidLoadingResponse,
}

impl View for ReviewResponseError {
    type V = ResponseErrorView;

    open spec fn view(&self) -> ResponseErrorView {
        match self {
            ReviewResponseError::InvalidJson(m) => ResponseErrorView::InvalidJson(m@),
            ReviewResponseError::UnsupportedVersion(v) => ResponseErrorView::UnsupportedVersion(*v),
            ReviewResponseError::EmptyCommand => ResponseErrorView::EmptyCommand,
            ReviewResponseError::CommandMismatch => ResponseErrorView::CommandMismatch,
            ReviewResponseError::StageMismatch => ResponseErrorView::StageMismatch,
            ReviewResponseError::MissingPurpose => ResponseErrorView::MissingPurpose,
            ReviewResponseError::InvalidLoadingResponse => ResponseErrorView::InvalidLoadingResponse,
        }
    }
}

/// The error text for a JSON document that is not a review response object.
pub open spec fn shape_message() -> Seq<char> {
    "review response does not match the expected fields"@
}

/// What a provider payload holds as a review response: the response, or the
/// text of the reason it is none.
pub open spec fn structured_review(raw: Seq<char>) -> Result<ReviewResponseView, Seq<char>> {
    let payload = match locate_payload(raw) {
        Some(p) => p,
        None => trim(raw),
    };
    match json_text_value(payload) {
        Err(m) => Err(m),
        Ok(v) => match dec_review(v) {
            Some(r) => Ok(r),
            None => Err(shape_message()),
        },
    }
}

/// Parse the structured response object. Markdown fences and surrounding prose
/// are tolerated; command-only provider output is deliberately not a parseable
/// review response.
pub fn parse_structured_review_response(raw: &str) -> (r: Result<ReviewResponse, ReviewResponseError>)
    ensures
        match r {
            Ok(x) => structured_review(raw@) == Ok::<ReviewResponseView, Seq<char>>(x@),
            Err(e) => e is InvalidJson && structured_review(raw@) == Err::<ReviewResponseView, Seq<char>>(
                e->InvalidJson_0@,
            ),
        },
{
    let payload = match locate_json_payload(raw) {
        Some(p) => p,
        None => {
            let t = trimmed_chars(raw);
            string_of(t.as_slice())
        },
    };
    match parse_json(payload.as_str()) {
        Err(m) => Err(ReviewResponseError::InvalidJson(m)),
        Ok(v) => match decode_review(&v) {
            Some(x) => Ok(x),
            None => Err(
                ReviewResponseError::InvalidJson(
                    String::from_str("review response does not match the expected fields"),
                ),
            ),
        },
    }
}

/// A line break or tab becomes a space.
pub open spec fn single_line_char(c: char) -> char {
    if c == '\n' || c == '\r' || c == '\t' {
        ' '
    } else {
        c
    }
}

/// A provider-written command on a single line, trimmed.
pub open spec fn normalized(s: Seq<char>) -> Seq<char> {
    trim(s.map_values(|c: char| single_line_char(c)))
}

/// Normalize a provider-written command to a single line. Line breaks and tabs
/// become spaces; no other character changes.
pub fn normalize_command(command: &str) -> (r: String)
    ensures
        r@ == normalized(command@),
{
    let v = chars_of(command);
    let mut mapped: Vec<char> = Vec::new();
    let mut k: usize = 0;
    while k < v.len()
        invariant
            k <= v@.len(),
            mapped@ == v@.subrange(0, k as int).map_values(|c: char| single_line_char(c)),
        decreases v@.len() - k,
    {
        let c = v[k];
        let m = if c == '\n' || c == '\r' || c == '\t' {
            ' '
        } else {
            c
        };
        mapped.push(m);
        assert(v@.subrange(0, k + 1).map_values(|c: char| single_line_char(c)) =~= v@.subrange(
            0,
            k as int,
        ).map_values(|c: char| single_line_char(c)).push(m));
        k += 1;
    }
    assert(v@.subrange(0, v@.len() as int) =~= v@);
    let (a, b) = trim_bounds(mapped.as_slice(), 0, mapped.len());
    string_from(mapped.as_slice(), a, b)
}

#[derive(Debug, Clone, Copy, PartialEq, Eq)]
pub struct CandidateIdentity {
    pub generation: u64,
    pub review_version: u32,
}

#[derive(Debug, PartialEq, Eq)]
pub enum ReviewParseResult {
    Ready,
    Loading,
    PurposeUnavailable(ReviewResponseError),
}

pub enum ParseResultView {
    Ready,
    Loading,
    PurposeUnavailable(ResponseErrorView),
}

impl View for ReviewParseResult {
    type V = ParseResultView;

    open spec fn view(&self) -> ParseResultView {
        match self {
            ReviewParseResult::Ready => ParseResultView::Ready,
            ReviewParseResult::Loading => ParseResultView::Loading,
            ReviewParseResult::PurposeUnavailable(e) => ParseResultView::PurposeUnavailable(e@),
        }
    }
}

impl Clone for ReviewParseResult {
    fn clone(&self) -> (r: Self)
        ensures
            r@ == self@,
    {
        match self {
            ReviewParseResult::Ready => ReviewParseResult::Ready,
            ReviewParseResult::Loading => ReviewParseResult::Loading,
            ReviewParseResult::PurposeUnavailable(e) => ReviewParseResult::PurposeUnavailable(e.clone()),
        }
    }
}

#[derive(Debug, PartialEq, Eq)]
pub struct ReviewCandidate {
    pub command: String,
    pub flow: CommandFlow,
    pub stages: Vec<ReviewStage>,
    pub purpose_status: PurposeStatus,
    pub generation: u64,
    pub review_version: Option<u32>,
}

pub struct CandidateView {
    pub command: Seq<char>,
    pub flow: Seq<StageView>,
    pub stages: Seq<ReviewStageView>,
    pub purpose_status: PurposeStatus,
    pub generation: u64,
    pub review_version: Option<u32>,
}

impl View for ReviewCandidate {
    type V = CandidateView;

    open spec fn view(&self) -> CandidateView {
        CandidateView {
            command: self.command@,
            flow: self.flow@,
            stages: review_stages_view(self.stages@),
            purpose_status: self.purpose_status,
            generation: self.generation,
            review_version: self.review_version,
        }
    }
}

impl Clone for ReviewCandidate {
    fn clone(&self) -> (r: Self)
        ensures
            r@ == self@,
    {
        let stages = self.stages.clone();
        assert(review_stages_view(stages@) =~= review_stages_view(self.stages@));
        ReviewCandidate {
            command: self.command.clone(),
            flow: self.flow.clone(),
            stages,
            purpose_status: self.purpose_status,
            generation: self.generation,
            review_version: self.review_version,
        }
    }
}

/// One purpose slot per flow stage, with the stage's text and no purpose.
pub open spec fn unavailable_view(flow: Seq<StageView>) -> Seq<ReviewStageView> {
    Seq::new(flow.len(), |k: int| ReviewStageView { text: flow[k].text, purpose: None })
}

/// The candidate for `command` at `generation`, before any response.
pub open spec fn fresh(command: Seq<char>, generation: u64) -> CandidateView {
    CandidateView {
        command,
        flow: flow_view(command),
        stages: unavailable_view(flow_view(command)),
        purpose_status: PurposeStatus::Unavailable,
        generation,
        review_version: None,
    }
}

/// `c` with its purposes withdrawn.
pub open spec fn marked_unavailable(c: CandidateView) -> CandidateView {
    CandidateView {
        purpose_status: PurposeStatus::Unavailable,
        stages: unavailable_view(c.flow),
        ..c
    }
}

/// The generation after an edit: one more, saturating.
pub open spec fn next_generation(g: u64) -> u64 {
    if g == u64::MAX {
        g
    } else {
        (g + 1) as u64
    }
}

/// Every slot of `stages` carries the text of the flow stage at its index.
pub open spec fn texts_match(flow: Seq<StageView>, stages: Seq<ReviewStageView>) -> bool {
    &&& flow.len() == stages.len()
    &&& forall|k: int| 0 <= k < flow.len() ==> #[trigger] stages[k].text == flow[k].text
}

/// The candidate keeps one purpose slot per flow stage.
pub open spec fn aligned(c: CandidateView) -> bool {
    texts_match(c.flow, c.stages)
}

pub open spec fn purpose_missing(s: ReviewStageView) -> bool {
    match s.purpose {
        None => true,
        Some(p) => all_ws(p),
    }
}

pub open spec fn request_missing(r: Option<Seq<char>>) -> bool {
    match r {
        None => true,
        Some(p) => all_ws(p),
    }
}

/// Why the response `r` cannot be applied to `c`, or `None` when it can.
pub open spec fn review_check(c: CandidateView, r: ReviewResponseView) -> Option<ResponseErrorView> {
    if r.review_version != REVIEW_VERSION {
        Some(ResponseErrorView::UnsupportedVersion(r.review_version))
    } else if all_ws(r.command) {
        Some(ResponseErrorView::EmptyCommand)
    } else if r.command != c.command {
        Some(ResponseErrorView::CommandMismatch)
    } else if !texts_match(c.flow, r.stages) {
        Some(ResponseErrorView::StageMismatch)
    } else {
        match r.purpose_status {
            PurposeStatus::Ready => if exists|k: int|
                0 <= k < r.stages.len() && #[trigger] purpose_missing(r.stages[k]) {
                Some(ResponseErrorView::MissingPurpose)
            } else {
                None
            },
            PurposeStatus::Loading => if request_missing(r.purpose_request) {
                Some(ResponseErrorView::InvalidLoadingResponse)
            } else {
                None
            },
            PurposeStatus::Unavailable => None,
        }
    }
}

pub open spec fn status_result(s: PurposeStatus) -> ParseResultView {
    match s {
        PurposeStatus::Ready => ParseResultView::Ready,
        PurposeStatus::Loading => ParseResultView::Loading,
        PurposeStatus::Unavailable => ParseResultView::PurposeUnavailable(
            ResponseErrorView::InvalidLoadingResponse,
        ),
    }
}

/// The candidate after the provider response `raw`, and the result reported.
pub open spec fn applied(c: CandidateView, raw: Seq<char>) -> (CandidateView, ParseResultView) {
    match structured_review(raw) {
        Err(m) => (
            marked_unavailable(c),
            ParseResultView::PurposeUnavailable(ResponseErrorView::InvalidJson(m)),
        ),
        Ok(r) => match review_check(c, r) {
            Some(e) => (marked_unavailable(c), ParseResultView::PurposeUnavailable(e)),
            None => (
                CandidateView {
                    review_version: Some(r.review_version),
                    stages: r.stages,
                    purpose_status: r.purpose_status,
                    ..c
                },
                status_result(r.purpose_status),
            ),
        },
    }
}

/// A response requested by generation `g`, applied to `c`: ignored unless `g`
/// is the candidate's current generation.
pub open spec fn apply_for(c: CandidateView, g: u64, raw: Seq<char>) -> (
    CandidateView,
    Option<ParseResultView>,
) {
    if g != c.generation {
        (c, None)
    } else {
        (applied(c, raw).0, Some(applied(c, raw).1))
    }
}

pub open spec fn result_opt_view(r: Option<ReviewParseResult>) -> Option<ParseResultView> {
    match r {
        Some(p) => Some(p@),
        None => None,
    }
}

fn unavailable_stages(flow: &CommandFlow) -> (r: Vec<ReviewStage>)
    ensures
        review_stages_view(r@) == unavailable_view(flow@),
{
    let texts = flow.stage_texts();
    let mut out: Vec<ReviewStage> = Vec::new();
    let mut k: usize = 0;
    while k < texts.len()
        invariant
            k <= texts@.len(),
            texts@.len() == flow.stages@.len(),
            forall|j: int| 0 <= j < texts@.len() ==> (#[trigger] texts@[j])@ == flow.stages@[j].stage_text@,
            out@.len() == k,
            forall|j: int|
                0 <= j < k ==> (#[trigger] out@[j])@ == (ReviewStageView {
                    text: flow@[j].text,
                    purpose: None,
                }),
        decreases texts@.len() - k,
    {
        out.push(ReviewStage { stage_text: texts[k].clone(), purpose: None });
        k += 1;
    }
    assert(review_stages_view(out@) =~= unavailable_view(flow@));
    out
}

impl ReviewCandidate {
    pub fn from_command(command: &str) -> (r: Self)
        ensures
            r@ == fresh(command@, 0),
    {
        let flow = derive_command_flow(command);
        let stages = unavailable_stages(&flow);
        ReviewCandidate {
            command: String::from_str(command),
            flow,
            stages,
            purpose_status: PurposeStatus::Unavailable,
            generation: 0,
            review_version: None,
        }
    }

    pub fn identity(&self) -> (r: CandidateIdentity)
        ensures
            r.generation == self.generation,
            r.review_version == match self.review_version {
                Some(v) => v,
                None => REVIEW_VERSION,
            },
    {
        CandidateIdentity {
            generation: self.generation,
            review_version: match self.review_version {
                Some(v) => v,
                None => REVIEW_VERSION,
            },
        }
    }

    /// The purpose of each stage, in order.
    pub fn stage_purposes(&self) -> (r: Vec<Option<String>>)
        ensures
            r@.len() == self.stages@.len(),
            forall|k: int| 0 <= k < r@.len() ==> opt_view(#[trigger] r@[k]) == self.stages@[k]@.purpose,
    {
        let mut out: Vec<Option<String>> = Vec::new();
        let mut k: usize = 0;
        while k < self.stages.len()
            invariant
                k <= self.stages@.len(),
                out@.len() == k,
                forall|j: int| 0 <= j < k ==> opt_view(#[trigger] out@[j]) == self.stages@[j]@.purpose,
            decreases self.stages@.len() - k,
        {
            out.push(clone_opt(&self.stages[k].purpose));
            k += 1;
        }
        out
    }

    fn mark_unavailable(&mut self)
        ensures
            final(self)@ == marked_unavailable(old(self)@),
    {
        self.purpose_status = PurposeStatus::Unavailable;
        self.stages = unavailable_stages(&self.flow);
    }

    fn validate(&self, response: &ReviewResponse) -> (r: Result<(), ReviewResponseError>)
        ensures
            r is Ok <==> review_check(self@, response@) is None,
            r matches Err(e) ==> review_check(self@, response@) == Some(e@),
    {
        if response.review_version != REVIEW_VERSION {
            return Err(ReviewResponseError::UnsupportedVersion(response.review_version));
        }
        if is_blank(response.command.as_str()) {
            return Err(ReviewResponseError::EmptyCommand);
        }
        if !str_eq(response.command.as_str(), self.command.as_str()) {
            return Err(ReviewResponseError::CommandMismatch);
        }
        let expected = self.flow.stage_texts();
        assert(self@.flow.len() == expected@.len());
        assert(response@.stages.len() == response.stages@.len());
        if expected.len() != response.stages.len() {
            assert(!texts_match(self@.flow, response@.stages));
            return Err(ReviewResponseError::StageMismatch);
        }
        let mut k: usize = 0;
        while k < expected.len()
            invariant
                k <= expected@.len(),
                expected@.len() == response.stages@.len(),
                expected@.len() == self.flow.stages@.len(),
                forall|j: int| 0 <= j < expected@.len() ==> (#[trigger] expected@[j])@ == self.flow.stages@[j].stage_text@,
                forall|j: int| 0 <= j < k ==> response.stages@[j].stage_text@ == self.flow.stages@[j].stage_text@,
                response@.review_version == REVIEW_VERSION,
                !all_ws(response@.command),
                response@.command == self@.command,
            decreases expected@.len() - k,
        {
            if !str_eq(response.stages[k].stage_text.as_str(), expected[k].as_str()) {
                assert(response@.stages[k as int].text != self@.flow[k as int].text);
                return Err(ReviewResponseError::StageMismatch);
            }
            k += 1;
        }
        assert(texts_match(self@.flow, response@.stages));
        match response.purpose_status {
            PurposeStatus::Ready => {
                let mut j: usize = 0;
                while j < response.stages.len()
                    invariant
                        j <= response.stages@.len(),
                        forall|i: int| 0 <= i < j ==> !purpose_missing(#[trigger] response@.stages[i]),
                        response@.review_version == REVIEW_VERSION,
                        !all_ws(response@.command),
                        response@.command == self@.command,
                        texts_match(self@.flow, response@.stages),
                        response.purpose_status == PurposeStatus::Ready,
                    decreases response.stages@.len() - j,
                {
                    let missing = match &response.stages[j].purpose {
                        None => true,
                        Some(p) => is_blank(p.as_str()),
                    };
                    if missing {
                        assert(purpose_missing(response@.stages[j as int]));
                        return Err(ReviewResponseError::MissingPurpose);
                    }
                    j += 1;
                }
                Ok(())
            },
            PurposeStatus::Loading => {
                let missing = match &response.purpose_request {
                    None => true,
                    Some(p) => is_blank(p.as_str()),
                };
                if missing {
                    Err(ReviewResponseError::InvalidLoadingResponse)
                } else {
                    Ok(())
                }
            },
            PurposeStatus::Unavailable => Ok(()),
        }
    }

    pub fn apply_response(&mut self, raw: &str) -> (r: ReviewParseResult)
        ensures
            (final(self)@, r@) == applied(old(self)@, raw@),
    {
        let g = self.generation;
        match self.apply_response_for(g, raw) {
            Some(r) => r,
            None => ReviewParseResult::PurposeUnavailable(ReviewResponseError::InvalidLoadingResponse),
        }
    }

    /// Apply a response only to the candidate generation that requested it.
    /// A stale response is ignored and cannot replace newer purposes.
    pub fn apply_response_for(&mut self, generation: u64, raw: &str) -> (r: Option<ReviewParseResult>)
        ensures
            (final(self)@, result_opt_view(r)) == apply_for(old(self)@, generation, raw@),
    {
        if generation != self.generation {
            return None;
        }
        let response = match parse_structured_review_response(raw) {
            Ok(response) => response,
            Err(error) => {
                self.mark_unavailable();
                return Some(ReviewParseResult::PurposeUnavailable(error));
            },
        };
        match self.validate(&response) {
            Err(error) => {
                self.mark_unavailable();
                return Some(ReviewParseResult::PurposeUnavailable(error));
            },
            Ok(()) => {},
        }
        let ReviewResponse { review_version, command: _, stages, purpose_status, purpose_request: _ } =
            response;
        self.review_version = Some(review_version);
        self.stages = stages;
        self.purpose_status = purpose_status;
        Some(
            match purpose_status {
                PurposeStatus::Ready => ReviewParseResult::Ready,
                PurposeStatus::Loading => ReviewParseResult::Loading,
                PurposeStatus::Unavailable => ReviewParseResult::PurposeUnavailable(
                    ReviewResponseError::InvalidLoadingResponse,
                ),
            },
        )
    }

    pub fn edit_command(&mut self, command: &str)
        ensures
            final(self)@ == fresh(command@, next_generation(old(self)@.generation)),
    {
        self.command = String::from_str(command);
        self.flow = derive_command_flow(command);
        self.stages = unavailable_stages(&self.flow);
        self.purpose_status = PurposeStatus::Unavailable;
        self.review_version = None;
        if self.generation < u64::MAX {
            self.generation = self.generation + 1;
        }
    }
}


// ---------------------------------------------------------------------------
// Provider stage splits
// ---------------------------------------------------------------------------

/// A character that may stand between two provider stages.
pub open spec fn gap_char(c: char) -> bool {
    is_ws(c) || c == '|' || c == '&' || c == ';'
}

pub open spec fn gap_ok(g: Seq<char>) -> bool {
    forall|k: int| 0 <= k < g.len() ==> #[trigger] gap_char(g[k])
}

/// One provider stage read against the command from `cursor`: its range in
/// the command, its trimmed text and its trimmed purpose.
pub open spec fn split_item(cmd: Seq<char>, item: JsonValue, cursor: int) -> Option<
    (int, int, Seq<char>, Seq<char>),
> {
    match (json_get(item, "stage_text"@), json_get(item, "purpose"@)) {
        (Some(JsonValue::Str(x)), Some(JsonValue::Str(y))) => {
            let text = trim(x@);
            let purpose = trim(y@);
            if text.len() == 0 || purpose.len() == 0 {
                None
            } else {
                match find_from(cmd, cursor, text) {
                    Some(start) => if gap_ok(cmd.subrange(cursor, start)) {
                        Some((start, start + text.len(), text, purpose))
                    } else {
                        None
                    },
                    None => None,
                }
            }
        },
        _ => None,
    }
}

/// The provider stages `items[k..]` laid over `cmd[cursor..]`.
pub open spec fn split_from(cmd: Seq<char>, items: Seq<JsonValue>, k: int, cursor: int) -> Option<
    (Seq<StageView>, Seq<ReviewStageView>),
>
    decreases items.len() - k,
{
    if k < 0 || k >= items.len() {
        if all_ws(cmd.subrange(cursor, cmd.len() as int)) {
            Some((seq![], seq![]))
        } else {
            None
        }
    } else {
        match split_item(cmd, items[k], cursor) {
            Some((start, end, text, purpose)) => match split_from(cmd, items, k + 1, end) {
                Some((f, s)) => Some(
                    (
                        seq![stage_view_at(cmd, (start, end))] + f,
                        seq![ReviewStageView { text, purpose: Some(purpose) }] + s,
                    ),
                ),
                None => None,
            },
            None => None,
        }
    }
}

/// A provider stage split that provably covers the command: every stage text
/// appears verbatim, in order, without overlap; gaps hold only whitespace or
/// `|`, `&`, `;`; the rest after the last stage is whitespace; every stage has
/// a non-empty purpose.
pub open spec fn stage_split(cmd: Seq<char>, v: JsonValue) -> Option<
    (Seq<StageView>, Seq<ReviewStageView>),
> {
    match json_get(v, "stages"@) {
        Some(JsonValue::Array(items)) => if items@.len() == 0 {
            None
        } else {
            split_from(cmd, items@, 0, 0)
        },
        _ => None,
    }
}

pub open spec fn prepend(
    fa: Seq<StageView>,
    sa: Seq<ReviewStageView>,
    r: Option<(Seq<StageView>, Seq<ReviewStageView>)>,
) -> Option<(Seq<StageView>, Seq<ReviewStageView>)> {
    match r {
        Some((f, s)) => Some((fa + f, sa + s)),
        None => None,
    }
}

proof fn lemma_prepend_empty(r: Option<(Seq<StageView>, Seq<ReviewStageView>)>)
    ensures
        prepend(seq![], seq![], r) == r,
{
    match r {
        Some((f, s)) => {
            assert(Seq::<StageView>::empty() + f =~= f);
            assert(Seq::<ReviewStageView>::empty() + s =~= s);
        },
        None => {},
    }
}

proof fn lemma_prepend_step(
    fa: Seq<StageView>,
    sa: Seq<ReviewStageView>,
    x: StageView,
    y: ReviewStageView,
    r: Option<(Seq<StageView>, Seq<ReviewStageView>)>,
)
    ensures
        prepend(fa, sa, prepend(seq![x], seq![y], r)) == prepend(fa.push(x), sa.push(y), r),
{
    match r {
        Some((f, s)) => {
            assert(fa + (seq![x] + f) =~= fa.push(x) + f);
            assert(sa + (seq![y] + s) =~= sa.push(y) + s);
        },
        None => {},
    }
}

fn gap_is_separators(s: &[char], from: usize, to: usize) -> (b: bool)
    requires
        from <= to <= s@.len(),
    ensures
        b == gap_ok(s@.subrange(from as int, to as int)),
{
    let mut k: usize = from;
    while k < to
        invariant
            from <= k <= to <= s@.len(),
            forall|j: int| from <= j < k ==> #[trigger] gap_char(s@[j]),
        decreases to - k,
    {
        let c = s[k];
        if !(is_whitespace(c) || c == '|' || c == '&' || c == ';') {
            assert(!gap_char(s@.subrange(from as int, to as int)[k - from]));
            return false;
        }
        k += 1;
    }
    assert forall|j: int| 0 <= j < to - from implies #[trigger] gap_char(
        s@.subrange(from as int, to as int)[j],
    ) by {
        assert(s@.subrange(from as int, to as int)[j] == s@[from + j]);
    }
    true
}

/// Recover a provider stage split that provably covers the command.
fn provider_stage_split(command: &str, value: &JsonValue) -> (r: Option<(CommandFlow, Vec<ReviewStage>)>)
    ensures
        match r {
            Some((flow, stages)) => stage_split(command@, *value) == Some(
                (flow@, review_stages_view(stages@)),
            ),
            None => stage_split(command@, *value) is None,
        },
{
    let items = match value.get("stages") {
        Some(JsonValue::Array(items)) => items,
        _ => return None,
    };
    if items.len() == 0 {
        return None;
    }
    let cmd = chars_of(command);
    let offsets = char_byte_offsets(command);
    let mut flow_stages: Vec<CommandStage> = Vec::new();
    let mut review_stages: Vec<ReviewStage> = Vec::new();
    let mut cursor: usize = 0;
    let mut k: usize = 0;
    proof {
        lemma_prepend_empty(split_from(cmd@, items@, 0, 0));
    }
    while k < items.len()
        invariant
            k <= items@.len(),
            cursor <= cmd@.len(),
            cmd@ == command@,
            crate::review::flow::offsets_of(offsets@, cmd@),
            stage_split(command@, *value) == split_from(cmd@, items@, 0, 0),
            split_from(cmd@, items@, 0, 0) == prepend(
                stages_view(flow_stages@),
                review_stages_view(review_stages@),
                split_from(cmd@, items@, k as int, cursor as int),
            ),
        decreases items@.len() - k,
    {
        let item = &items[k];
        let x = match item.get("stage_text") {
            Some(JsonValue::Str(x)) => x,
            _ => return None,
        };
        let y = match item.get("purpose") {
            Some(JsonValue::Str(y)) => y,
            _ => return None,
        };
        let text = trimmed_chars(x.as_str());
        if text.len() == 0 {
            return None;
        }
        let purpose = trimmed_chars(y.as_str());
        if purpose.len() == 0 {
            return None;
        }
        proof {
            lemma_find_from(cmd@, cursor as int, text@);
        }
        let start = match find_at_or_after(cmd.as_slice(), cursor, text.as_slice()) {
            Some(start) => start,
            None => return None,
        };
        if !gap_is_separators(cmd.as_slice(), cursor, start) {
            return None;
        }
        let cmd_len = cmd.len();
        assert(start + text@.len() <= cmd@.len());
        let end = start + text.len();
        let stage = stage_at(cmd.as_slice(), offsets.as_slice(), start, end);
        let rs = ReviewStage {
            stage_text: string_of(text.as_slice()),
            purpose: Some(string_of(purpose.as_slice())),
        };
        proof {
            lemma_prepend_step(
                stages_view(flow_stages@),
                review_stages_view(review_stages@),
                stage@,
                rs@,
                split_from(cmd@, items@, k + 1, end as int),
            );
        }
        let ghost fa = flow_stages@;
        let ghost sa = review_stages@;
        flow_stages.push(stage);
        review_stages.push(rs);
        assert(stages_view(flow_stages@) =~= stages_view(fa).push(stage@));
        assert(review_stages_view(review_stages@) =~= review_stages_view(sa).push(rs@));
        cursor = end;
        k += 1;
    }
    if !all_whitespace(cmd.as_slice(), cursor, cmd.len()) {
        return None;
    }
    let flow = CommandFlow { stages: flow_stages };
    assert(stages_view(flow.stages@) + Seq::<StageView>::empty() =~= flow@);
    assert(review_stages_view(review_stages@) + Seq::<ReviewStageView>::empty() =~= review_stages_view(review_stages@));
    Some((flow, review_stages))
}


// ---------------------------------------------------------------------------
// Candidates from provider payloads
// ---------------------------------------------------------------------------

/// `c` with the provider's stage split and purposes.
pub open spec fn with_split(c: CandidateView, f: Seq<StageView>, s: Seq<ReviewStageView>) -> CandidateView {
    CandidateView { flow: f, stages: s, purpose_status: PurposeStatus::Ready, ..c }
}

/// A JSON value that names any of the response's own fields.
pub open spec fn names_review_field(v: JsonValue) -> bool {
    json_get(v, "review_version"@) is Some || json_get(v, "command"@) is Some || json_get(
        v,
        "purpose_status"@,
    ) is Some
}

/// The candidate made of a JSON-shaped payload that failed strict
/// validation: its command, with the provider's split where it covers it.
pub open spec fn fallback_candidate(v: JsonValue) -> Option<CandidateView> {
    match json_get(v, "command"@) {
        Some(JsonValue::Str(c)) => {
            let n = normalized(c@);
            if n.len() == 0 {
                None
            } else {
                match stage_split(n, v) {
                    Some((f, s)) => Some(with_split(fresh(n, 0), f, s)),
                    None => Some(fresh(n, 0)),
                }
            }
        },
        _ => None,
    }
}

/// The candidate of a structured response that validates, applied to its own
/// normalized command.
pub open spec fn structured_candidate(t: Seq<char>) -> Option<CandidateView> {
    match structured_review(t) {
        Ok(r) => {
            let a = applied(fresh(normalized(r.command), 0), t);
            match a.1 {
                ParseResultView::Ready => Some(a.0),
                ParseResultView::Loading => Some(a.0),
                _ => None,
            }
        },
        Err(_) => None,
    }
}

/// The candidate that a provider payload yields.
pub open spec fn provider_candidate(raw: Seq<char>) -> Option<CandidateView> {
    let t = trim(raw);
    if t.len() == 0 {
        None
    } else {
        match structured_candidate(t) {
            Some(c) => Some(c),
            None => match locate_payload(t) {
                Some(p) => match json_text_value(p) {
                    Ok(v) => if names_review_field(v) {
                        fallback_candidate(v)
                    } else {
                        Some(fresh(t, 0))
                    },
                    Err(_) => Some(fresh(t, 0)),
                },
                None => Some(fresh(t, 0)),
            },
        }
    }
}

pub open spec fn candidate_opt_view(r: Option<ReviewCandidate>) -> Option<CandidateView> {
    match r {
        Some(c) => Some(c@),
        None => None,
    }
}

fn fallback_from_value(value: &JsonValue) -> (r: Option<ReviewCandidate>)
    ensures
        candidate_opt_view(r) == fallback_candidate(*value),
{
    let command = match value.get("command") {
        Some(JsonValue::Str(c)) => normalize_command(c.as_str()),
        _ => return None,
    };
    let cv = chars_of(command.as_str());
    if cv.len() == 0 {
        return None;
    }
    match provider_stage_split(command.as_str(), value) {
        Some((flow, stages)) => {
            let mut candidate = ReviewCandidate::from_command(command.as_str());
            candidate.flow = flow;
            candidate.stages = stages;
            candidate.purpose_status = PurposeStatus::Ready;
            Some(candidate)
        },
        None => Some(ReviewCandidate::from_command(command.as_str())),
    }
}

/// Build a reviewable candidate from a provider payload.
///
/// - A valid structured response keeps its command and model-written purposes.
/// - A non-canonical response keeps model-written purposes when their stage
///   text matches the command and every purpose is non-empty.
/// - A JSON-shaped payload that fails strict validation contributes only its
///   provider-written command; purposes stay unavailable.
/// - A non-JSON payload is treated as command text.
/// - `None` means no usable command exists: the review is `Unavailable`.
pub fn candidate_from_provider_response(raw: &str) -> (r: Option<ReviewCandidate>)
    ensures
        candidate_opt_view(r) == provider_candidate(raw@),
{
    let tv = trimmed_chars(raw);
    if tv.len() == 0 {
        return None;
    }
    let trimmed = string_of(tv.as_slice());
    if let Ok(parsed) = parse_structured_review_response(trimmed.as_str()) {
        let command = normalize_command(parsed.command.as_str());
        let mut candidate = ReviewCandidate::from_command(command.as_str());
        let result = candidate.apply_response(trimmed.as_str());
        match result {
            ReviewParseResult::Ready => return Some(candidate),
            ReviewParseResult::Loading => return Some(candidate),
            _ => {},
        }
    }
    if let Some(payload) = locate_json_payload(trimmed.as_str()) {
        if let Ok(value) = parse_json(payload.as_str()) {
            if value.get("review_version").is_some() || value.get("command").is_some()
                || value.get("purpose_status").is_some() {
                return fallback_from_value(&value);
            }
        }
    }
    Some(ReviewCandidate::from_command(trimmed.as_str()))
}

/// The result of applying a provider explanation to a developer-supplied
/// command. `Ready` carries the command with model-written purposes;
/// `Unusable` carries the command with local stages and the reason the
/// provider response could not be trusted.
#[derive(Debug, PartialEq, Eq)]
pub enum ExplanationOutcome {
    Ready(ReviewCandidate),
    Unusable { candidate: ReviewCandidate, reason: ReviewResponseError },
}

pub enum OutcomeView {
    Ready(CandidateView),
    Unusable(CandidateView, ResponseErrorView),
}

impl View for ExplanationOutcome {
    type V = OutcomeView;

    open spec fn view(&self) -> OutcomeView {
        match self {
            ExplanationOutcome::Ready(c) => OutcomeView::Ready(c@),
            ExplanationOutcome::Unusable { candidate, reason } => OutcomeView::Unusable(
                candidate@,
                reason@,
            ),
        }
    }
}

/// The outcome of the explanation `raw` for the developer's `command`.
pub open spec fn explanation(command: Seq<char>, raw: Seq<char>) -> OutcomeView {
    let a = applied(fresh(command, 0), raw);
    match a.1 {
        ParseResultView::Ready => OutcomeView::Ready(a.0),
        _ => {
            let reason = match a.1 {
                ParseResultView::PurposeUnavailable(e) => e,
                _ => ResponseErrorView::InvalidLoadingResponse,
            };
            let c = marked_unavailable(a.0);
            match locate_payload(raw) {
                Some(p) => match json_text_value(p) {
                    Ok(v) => match stage_split(c.command, v) {
                        Some((f, s)) => OutcomeView::Ready(with_split(c, f, s)),
                        None => OutcomeView::Unusable(c, reason),
                    },
                    Err(_) => OutcomeView::Unusable(c, reason),
                },
                None => OutcomeView::Unusable(c, reason),
            }
        },
    }
}

pub open spec fn outcome_candidate(o: OutcomeView) -> CandidateView {
    match o {
        OutcomeView::Ready(c) => c,
        OutcomeView::Unusable(c, _) => c,
    }
}

/// Apply a provider explanation to a developer-supplied command and report
/// whether the response was usable. The developer's command is authoritative
/// and is never replaced. Model purposes are adopted only when the response
/// echoes the command with the locally derived stages, or when its stage
/// split provably covers the command.
pub fn apply_explanation_outcome(command: &str, raw: &str) -> (r: ExplanationOutcome)
    ensures
        r@ == explanation(command@, raw@),
{
    let mut candidate = ReviewCandidate::from_command(command);
    let reason = match candidate.apply_response(raw) {
        ReviewParseResult::Ready => return ExplanationOutcome::Ready(candidate),
        ReviewParseResult::PurposeUnavailable(error) => error,
        ReviewParseResult::Loading => ReviewResponseError::InvalidLoadingResponse,
    };
    candidate.mark_unavailable();
    if let Some(payload) = locate_json_payload(raw) {
        if let Ok(value) = parse_json(payload.as_str()) {
            if let Some((flow, stages)) = provider_stage_split(candidate.command.as_str(), &value) {
                candidate.flow = flow;
                candidate.stages = stages;
                candidate.purpose_status = PurposeStatus::Ready;
                return ExplanationOutcome::Ready(candidate);
            }
        }
    }
    ExplanationOutcome::Unusable { candidate, reason }
}

/// Apply a provider explanation to a developer-supplied command. The
/// developer's command is authoritative and is never replaced.
pub fn apply_explanation(command: &str, raw: &str) -> (r: ReviewCandidate)
    ensures
        r@ == outcome_candidate(explanation(command@, raw@)),
{
    match apply_explanation_outcome(command, raw) {
        ExplanationOutcome::Ready(candidate) => candidate,
        ExplanationOutcome::Unusable { candidate, .. } => candidate,
    }
}


// ---------------------------------------------------------------------------
// Laws
// ---------------------------------------------------------------------------

/// A response requested for a generation that an edit has since replaced is
/// ignored: the candidate stays as it is and no result is reported. (The
/// generation saturates, so this holds below the largest generation.)
pub proof fn stale_response_is_ignored(before: CandidateView, after: CandidateView, raw: Seq<char>)
    requires
        after.generation == next_generation(before.generation),
        before.generation < u64::MAX,
    ensures
        apply_for(after, before.generation, raw) == (after, None::<ParseResultView>),
{
}

/// Applying a response never changes the command, its flow or the
/// candidate's generation.
pub proof fn response_keeps_command_and_flow(c: CandidateView, raw: Seq<char>)
    ensures
        applied(c, raw).0.command == c.command,
        applied(c, raw).0.flow == c.flow,
        applied(c, raw).0.generation == c.generation,
{
}

/// A response that is reported ready has a non-blank purpose for every stage.
pub proof fn ready_response_has_every_purpose(c: CandidateView, raw: Seq<char>)
    ensures
        applied(c, raw).1 == ParseResultView::Ready ==> forall|k: int|
            0 <= k < applied(c, raw).0.stages.len() ==> !#[trigger] purpose_missing(
                applied(c, raw).0.stages[k],
            ),
{
}

/// A fresh candidate holds one purpose slot per flow stage.
pub proof fn fresh_is_aligned(command: Seq<char>, generation: u64)
    ensures
        aligned(fresh(command, generation)),
{
}

/// Applying a response keeps one purpose slot per flow stage, each with its
/// stage's text.
pub proof fn response_keeps_alignment(c: CandidateView, raw: Seq<char>)
    requires
        aligned(c),
    ensures
        aligned(applied(c, raw).0),
{
}

proof fn lemma_split_from_aligned(cmd: Seq<char>, items: Seq<JsonValue>, k: int, cursor: int)
    requires
        0 <= cursor,
    ensures
        split_from(cmd, items, k, cursor) matches Some((f, s)) ==> texts_match(f, s) && forall|
            j: int,
        | 0 <= j < s.len() ==> !#[trigger] purpose_missing(s[j]),
    decreases items.len() - k,
{
    if 0 <= k < items.len() {
        match split_item(cmd, items[k], cursor) {
            Some((start, end, text, purpose)) => {
                lemma_find_from(cmd, cursor, text);
                lemma_split_from_aligned(cmd, items, k + 1, end);
                match split_from(cmd, items, k + 1, end) {
                    Some((f, s)) => {
                        let ff = seq![stage_view_at(cmd, (start, end))] + f;
                        let ss = seq![ReviewStageView { text, purpose: Some(purpose) }] + s;
                        assert forall|j: int| 0 <= j < ff.len() implies #[trigger] ss[j].text
                            == ff[j].text by {
                            if j > 0 {
                                assert(ss[j] == s[j - 1]);
                                assert(ff[j] == f[j - 1]);
                            }
                        }
                        assert forall|j: int| 0 <= j < ss.len() implies !#[trigger] purpose_missing(
                            ss[j],
                        ) by {
                            if j > 0 {
                                assert(ss[j] == s[j - 1]);
                            } else {
                                match json_get(items[k], "purpose"@) {
                                    Some(JsonValue::Str(y)) => {
                                        crate::text::lemma_trim_nonblank(y@);
                                    },
                                    _ => {},
                                }
                            }
                        }
                    },
                    None => {},
                }
            },
            None => {},
        }
    }
}

/// A provider stage split pairs every flow stage with a slot of the same
/// text and a non-blank purpose.
pub proof fn split_is_aligned(cmd: Seq<char>, v: JsonValue)
    ensures
        stage_split(cmd, v) matches Some((f, s)) ==> texts_match(f, s) && forall|j: int|
            0 <= j < s.len() ==> !#[trigger] purpose_missing(s[j]),
{
    match json_get(v, "stages"@) {
        Some(JsonValue::Array(items)) => {
            lemma_split_from_aligned(cmd, items@, 0, 0);
        },
        _ => {},
    }
}

/// Every candidate built from a provider payload keeps one purpose slot per
/// flow stage.
pub proof fn provider_candidate_is_aligned(raw: Seq<char>)
    ensures
        provider_candidate(raw) matches Some(c) ==> aligned(c),
{
    let t = trim(raw);
    match structured_review(t) {
        Ok(r) => {
            response_keeps_alignment(fresh(normalized(r.command), 0), t);
        },
        Err(_) => {},
    }
    match locate_payload(t) {
        Some(p) => match json_text_value(p) {
            Ok(v) => match json_get(v, "command"@) {
                Some(JsonValue::Str(c)) => {
                    split_is_aligned(normalized(c@), v);
                },
                _ => {},
            },
            Err(_) => {},
        },
        None => {},
    }
}

/// An explanation never replaces the developer's command, and its candidate
/// keeps one purpose slot per flow stage.
pub proof fn explanation_keeps_command(command: Seq<char>, raw: Seq<char>)
    ensures
        outcome_candidate(explanation(command, raw)).command == command,
        aligned(outcome_candidate(explanation(command, raw))),
{
    response_keeps_alignment(fresh(command, 0), raw);
    match locate_payload(raw) {
        Some(p) => match json_text_value(p) {
            Ok(v) => {
                split_is_aligned(command, v);
            },
            Err(_) => {},
        },
        None => {},
    }
}

} // verus!
