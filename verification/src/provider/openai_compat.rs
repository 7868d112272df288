//! The OpenAI-compatible chat completions endpoint: its URL, and the reading
//! of its server-sent event stream, one line at a time.
use vstd::prelude::*;

use crate::error::Error;
use crate::json::{json_get, json_text_value, parse_json, JsonValue};
use crate::provider::TokenUsage;
use crate::text::{chars_of, has_at, push_str, string_from, trim, trim_bounds};

verus! {

/// `s` without trailing slashes (`trim_end_matches('/')`).
pub open spec fn without_trailing_slashes(s: Seq<char>) -> Seq<char>
    decreases s.len(),
{
    if s.len() > 0 && s.last() == '/' {
        without_trailing_slashes(s.drop_last())
    } else {
        s
    }
}

/// `s` with the trailing slashes removed, then `suffix`.
pub fn join_endpoint(endpoint: &str, suffix: &str) -> (r: String)
    ensures
        r@ == without_trailing_slashes(endpoint@) + suffix@,
{
    let chars = chars_of(endpoint);
    let mut end: usize = chars.len();
    assert(chars@.subrange(0, end as int) =~= chars@);
    while end > 0 && chars[end - 1] == '/'
        invariant
            end <= chars@.len(),
            chars@ == endpoint@,
            without_trailing_slashes(chars@.subrange(0, end as int)) == without_trailing_slashes(endpoint@),
        decreases end,
    {
        assert(chars@.subrange(0, end as int).drop_last() =~= chars@.subrange(0, end - 1));
        end -= 1;
    }
    let mut s = string_from(chars.as_slice(), 0, end);
    push_str(&mut s, suffix);
    s
}

pub fn chat_completions_url(endpoint: &str) -> (r: String)
    ensures
        r@ == without_trailing_slashes(endpoint@) + "/chat/completions"@,
{
    let endpoint = crate::provider::transport::endpoint(endpoint);
    join_endpoint(endpoint.as_str(), "/chat/completions")
}

/// What the stream has delivered so far.
pub struct SseView {
    pub content: Seq<char>,
    pub reasoning: Seq<char>,
    pub usage: Option<TokenUsage>,
    pub model: Seq<char>,
    pub completed: bool,
    pub started: bool,
}

/// A line without its trailing carriage returns and line feeds.
pub open spec fn line_body(l: Seq<char>) -> Seq<char>
    decreases l.len(),
{
    if l.len() > 0 && (l.last() == '\r' || l.last() == '\n') {
        line_body(l.drop_last())
    } else {
        l
    }
}

/// The data of an event line: after `data:` and one optional space, trimmed.
pub open spec fn event_data(l: Seq<char>) -> Option<Seq<char>> {
    let body = line_body(l);
    if body.len() >= 5 && body.take(5) == "data:"@ {
        let rest = body.skip(5);
        let rest = if rest.len() > 0 && rest[0] == ' ' {
            rest.skip(1)
        } else {
            rest
        };
        Some(trim(rest))
    } else {
        None
    }
}

pub open spec fn field(o: Option<JsonValue>, key: Seq<char>) -> Option<JsonValue> {
    match o {
        Some(v) => json_get(v, key),
        None => None,
    }
}

pub open spec fn str_field(o: Option<JsonValue>) -> Option<Seq<char>> {
    match o {
        Some(JsonValue::Str(s)) => Some(s@),
        _ => None,
    }
}

/// A token count: the number truncated to 32 bits, zero when absent.
pub open spec fn count_field(o: Option<JsonValue>) -> u32 {
    match o {
        Some(JsonValue::Number(Some(n))) => n as u32,
        _ => 0,
    }
}

/// The content and reasoning text of one choice's delta.
pub open spec fn delta_content(choice: JsonValue) -> Option<Seq<char>> {
    match str_field(field(json_get(choice, "delta"@), "content"@)) {
        Some(c) => if c.len() > 0 {
            Some(c)
        } else {
            None
        },
        None => None,
    }
}

pub open spec fn delta_reasoning(choice: JsonValue) -> Option<Seq<char>> {
    let delta = json_get(choice, "delta"@);
    match str_field(field(delta, "reasoning"@)) {
        Some(r) => Some(r),
        None => str_field(field(delta, "reasoning_content"@)),
    }
}

/// The choices in order: content appended, reasoning appended, content
/// events emitted.
pub open spec fn choices_run(items: Seq<JsonValue>) -> (Seq<char>, Seq<char>, Seq<Seq<char>>)
    decreases items.len(),
{
    if items.len() == 0 {
        (seq![], seq![], seq![])
    } else {
        let (c, r, e) = choices_run(items.drop_last());
        let choice = items.last();
        let (c2, e2) = match delta_content(choice) {
            Some(x) => (c + x, e.push(x)),
            None => (c, e),
        };
        let r2 = match delta_reasoning(choice) {
            Some(x) => r + x,
            None => r,
        };
        (c2, r2, e2)
    }
}

/// The stream after one JSON chunk, and the content events it emits.
pub open spec fn chunk_step(st: SseView, v: JsonValue) -> (SseView, Seq<Seq<char>>) {
    let model = match json_get(v, "model"@) {
        Some(JsonValue::Str(m)) => m@,
        _ => st.model,
    };
    let usage = match json_get(v, "usage"@) {
        Some(JsonValue::Object(members)) => {
            let u = JsonValue::Object(members);
            Some(
                TokenUsage {
                    prompt_tokens: count_field(json_get(u, "prompt_tokens"@)),
                    completion_tokens: count_field(json_get(u, "completion_tokens"@)),
                },
            )
        },
        _ => st.usage,
    };
    let items = match json_get(v, "choices"@) {
        Some(JsonValue::Array(items)) => items@,
        _ => Seq::empty(),
    };
    let (c, r, e) = choices_run(items);
    (
        SseView {
            content: st.content + c,
            reasoning: st.reasoning + r,
            usage,
            model,
            completed: st.completed,
            started: st.started,
        },
        e,
    )
}

/// The stream after one line, and the content events it emits. Lines after
/// `[DONE]` change nothing.
pub open spec fn sse_line(st: SseView, line: Seq<char>) -> (SseView, Seq<Seq<char>>) {
    if st.completed {
        (st, seq![])
    } else {
        match event_data(line) {
            None => (st, seq![]),
            Some(data) => if data == "[DONE]"@ {
                (SseView { completed: true, ..st }, seq![])
            } else {
                let st1 = SseView { started: true, ..st };
                match json_text_value(data) {
                    Err(_) => (st1, seq![]),
                    Ok(v) => chunk_step(st1, v),
                }
            },
        }
    }
}


/// The pieces of `e` one after another.
pub open spec fn concat(e: Seq<Seq<char>>) -> Seq<char>
    decreases e.len(),
{
    if e.len() == 0 {
        seq![]
    } else {
        concat(e.drop_last()) + e.last()
    }
}

proof fn lemma_choices_concat(items: Seq<JsonValue>)
    ensures
        choices_run(items).0 == concat(choices_run(items).2),
        forall|k: int| 0 <= k < choices_run(items).2.len() ==> (#[trigger] choices_run(items).2[k]).len() > 0,
    decreases items.len(),
{
    if items.len() > 0 {
        lemma_choices_concat(items.drop_last());
        let (c, r, e) = choices_run(items.drop_last());
        match delta_content(items.last()) {
            Some(x) => {
                assert(e.push(x).drop_last() =~= e);
                assert forall|k: int| 0 <= k < e.push(x).len() implies (#[trigger] e.push(x)[k]).len() > 0 by {
                    if k < e.len() {
                        assert(e.push(x)[k] == e[k]);
                    }
                }
            },
            None => {},
        }
    }
}

/// Reading a line never takes back content already read: the content after
/// the line is the content before it followed by every piece of content the
/// line delivers, in order, and each piece delivered is non-empty. The
/// reasoning read before the line stays at the start of the reasoning.
pub proof fn content_accumulates(st: SseView, line: Seq<char>)
    ensures
        sse_line(st, line).0.content == st.content + concat(sse_line(st, line).1),
        forall|k: int| 0 <= k < sse_line(st, line).1.len() ==> (#[trigger] sse_line(st, line).1[k]).len() > 0,
        st.reasoning.len() <= sse_line(st, line).0.reasoning.len(),
        sse_line(st, line).0.reasoning.subrange(0, st.reasoning.len() as int) == st.reasoning,
{
    let (after, events) = sse_line(st, line);
    assert(after.reasoning.subrange(0, st.reasoning.len() as int) =~= st.reasoning);
    if events.len() == 0 {
        assert(concat(events) =~= Seq::<char>::empty());
        assert(st.content + concat(events) =~= st.content);
    }
    if !st.completed {
        match event_data(line) {
            Some(data) => if data != "[DONE]"@ {
                match json_text_value(data) {
                    Ok(v) => {
                        let items = match json_get(v, "choices"@) {
                            Some(JsonValue::Array(items)) => items@,
                            _ => Seq::empty(),
                        };
                        lemma_choices_concat(items);
                    },
                    Err(_) => {},
                }
            },
            None => {},
        }
    }
}

/// Over a whole stream the content read is every piece of content delivered,
/// in order, after the content before the first line.
pub open spec fn lines_run(st: SseView, lines: Seq<Seq<char>>) -> (SseView, Seq<Seq<char>>)
    decreases lines.len(),
{
    if lines.len() == 0 {
        (st, seq![])
    } else {
        let (mid, e) = lines_run(st, lines.drop_last());
        let (after, e2) = sse_line(mid, lines.last());
        (after, e + e2)
    }
}

proof fn lemma_concat_add(a: Seq<Seq<char>>, b: Seq<Seq<char>>)
    ensures
        concat(a + b) == concat(a) + concat(b),
    decreases b.len(),
{
    if b.len() == 0 {
        assert(a + b =~= a);
        assert(concat(a) + concat(b) =~= concat(a));
    } else {
        lemma_concat_add(a, b.drop_last());
        assert((a + b).drop_last() =~= a + b.drop_last());
        assert((a + b).last() == b.last());
        assert(concat(a) + concat(b.drop_last()) + b.last() =~= concat(a) + (concat(b.drop_last()) + b.last()));
    }
}

/// After any stream of lines, the content is the content at the start
/// followed by everything delivered, in order.
pub proof fn stream_content_is_what_was_delivered(st: SseView, lines: Seq<Seq<char>>)
    ensures
        lines_run(st, lines).0.content == st.content + concat(lines_run(st, lines).1),
    decreases lines.len(),
{
    if lines.len() == 0 {
        assert(st.content + concat(Seq::<Seq<char>>::empty()) =~= st.content);
    } else {
        stream_content_is_what_was_delivered(st, lines.drop_last());
        let (mid, e) = lines_run(st, lines.drop_last());
        let (after, e2) = sse_line(mid, lines.last());
        content_accumulates(mid, lines.last());
        lemma_concat_add(e, e2);
        assert(st.content + concat(e) + concat(e2) =~= st.content + (concat(e) + concat(e2)));
    }
}

/// What the reader of an event stream has just seen.
pub enum ReaderEvent {
    /// The reader is about to read a line; `interrupted` tells whether the
    /// user has interrupted.
    Ready { interrupted: bool },
    /// A line was read.
    Line(String),
    /// The stream ended.
    End,
    /// Reading failed: `interrupted_read` when the read itself was
    /// interrupted, `interrupted` when the user has interrupted, and the
    /// failure's text.
    Failed { interrupted_read: bool, interrupted: bool, message: String },
}

/// What the reader does next.
pub enum ReaderAction {
    /// Read the next line.
    Read,
    /// Hand `contents` to the caller; stop reading when `finished`.
    Deliver { contents: Vec<String>, finished: bool },
    /// Stop reading.
    Finish,
    /// Give up with this error.
    Abort(Error),
}

/// The state of a chat completion stream while it is read.
pub struct SseState {
    pub content: String,
    pub reasoning: String,
    pub usage: Option<TokenUsage>,
    pub model: String,
    pub completed: bool,
    pub started: bool,
}

impl View for SseState {
    type V = SseView;

    open spec fn view(&self) -> SseView {
        SseView {
            content: self.content@,
            reasoning: self.reasoning@,
            usage: self.usage,
            model: self.model@,
            completed: self.completed,
            started: self.started,
        }
    }
}

fn str_of(v: Option<&JsonValue>) -> (r: Option<&str>)
    ensures
        match r {
            Some(s) => str_field(
                match v {
                    Some(x) => Some(*x),
                    None => None,
                },
            ) == Some(s@),
            None => str_field(
                match v {
                    Some(x) => Some(*x),
                    None => None,
                },
            ) is None,
        },
{
    match v {
        Some(JsonValue::Str(s)) => Some(s.as_str()),
        _ => None,
    }
}

fn count_of(v: Option<&JsonValue>) -> (r: u32)
    ensures
        r == count_field(
            match v {
                Some(x) => Some(*x),
                None => None,
            },
        ),
{
    match v {
        Some(JsonValue::Number(Some(n))) => *n as u32,
        _ => 0,
    }
}

pub open spec fn events_view(v: Seq<String>) -> Seq<Seq<char>> {
    v.map_values(|s: String| s@)
}

impl SseState {
    /// A stream for the requested model, before any line.
    pub fn new(requested_model: &str) -> (s: Self)
        ensures
            s@ == (SseView {
                content: Seq::empty(),
                reasoning: Seq::empty(),
                usage: None,
                model: requested_model@,
                completed: false,
                started: false,
            }),
    {
        SseState {
            content: String::new(),
            reasoning: String::new(),
            usage: None,
            model: String::from_str(requested_model),
            completed: false,
            started: false,
        }
    }

    fn apply_choices(&mut self, items: &Vec<JsonValue>, events: &mut Vec<String>)
        ensures
            final(self).content@ == old(self).content@ + choices_run(items@).0,
            final(self).reasoning@ == old(self).reasoning@ + choices_run(items@).1,
            events_view(final(events)@) == events_view(old(events)@) + choices_run(items@).2,
            final(self).usage == old(self).usage,
            final(self).model@ == old(self).model@,
            final(self).completed == old(self).completed,
            final(self).started == old(self).started,
    {
        let ghost c0 = self.content@;
        let ghost r0 = self.reasoning@;
        let ghost e0 = events_view(events@);
        let mut k: usize = 0;
        assert(items@.take(0) =~= Seq::<JsonValue>::empty());
        assert(c0 + Seq::<char>::empty() =~= c0);
        assert(r0 + Seq::<char>::empty() =~= r0);
        assert(e0 + Seq::<Seq<char>>::empty() =~= e0);
        while k < items.len()
            invariant
                k <= items@.len(),
                self.content@ == c0 + choices_run(items@.take(k as int)).0,
                self.reasoning@ == r0 + choices_run(items@.take(k as int)).1,
                events_view(events@) == e0 + choices_run(items@.take(k as int)).2,
                self.usage == old(self).usage,
                self.model@ == old(self).model@,
                self.completed == old(self).completed,
                self.started == old(self).started,
            decreases items@.len() - k,
        {
            let ghost prefix = items@.take(k as int);
            assert(items@.take(k + 1).drop_last() =~= prefix);
            assert(items@.take(k + 1).last() == items@[k as int]);
            let choice = &items[k];
            let delta = choice.get("delta");
            let content = match delta {
                Some(d) => str_of(d.get("content")),
                None => None,
            };
            match content {
                Some(c) => {
                    if chars_of(c).len() > 0 {
                        let ghost before = self.content@;
                        push_str(&mut self.content, c);
                        let ghost ev = events@;
                        events.push(String::from_str(c));
                        assert(events_view(events@) =~= events_view(ev).push(c@));
                    }
                },
                None => {},
            }
            let reasoning = match delta {
                Some(d) => match str_of(d.get("reasoning")) {
                    Some(r) => Some(r),
                    None => str_of(d.get("reasoning_content")),
                },
                None => None,
            };
            match reasoning {
                Some(r) => {
                    push_str(&mut self.reasoning, r);
                },
                None => {},
            }
            let ghost run = choices_run(items@.take(k + 1));
            assert(self.content@ =~= c0 + run.0);
            assert(self.reasoning@ =~= r0 + run.1);
            assert(events_view(events@) =~= e0 + run.2);
            k += 1;
        }
        assert(items@.take(items@.len() as int) =~= items@);
    }

    /// Read one line of the stream; the result is the content it delivers,
    /// in order.
    pub fn feed_line(&mut self, line: &str) -> (events: Vec<String>)
        ensures
            (final(self)@, events_view(events@)) == sse_line(old(self)@, line@),
    {
        let mut events: Vec<String> = Vec::new();
        assert(events_view(events@) =~= Seq::<Seq<char>>::empty());
        if self.completed {
            return events;
        }
        let chars = chars_of(line);
        let mut end: usize = chars.len();
        assert(chars@.subrange(0, end as int) =~= chars@);
        while end > 0 && (chars[end - 1] == '\r' || chars[end - 1] == '\n')
            invariant
                end <= chars@.len(),
                chars@ == line@,
                line_body(chars@.subrange(0, end as int)) == line_body(line@),
            decreases end,
        {
            assert(chars@.subrange(0, end as int).drop_last() =~= chars@.subrange(0, end - 1));
            end -= 1;
        }
        let ghost body = chars@.subrange(0, end as int);
        let prefix = chars_of("data:");
        proof {
            reveal_strlit("data:");
        }
        let body_vec = {
            let s = string_from(chars.as_slice(), 0, end);
            chars_of(s.as_str())
        };
        assert(body_vec@ == body);
        if !has_at(body_vec.as_slice(), 0, prefix.as_slice()) {
            assert(!(body.len() >= 5 && body.take(5) == "data:"@)) by {
                if body.len() >= 5 && body.take(5) == "data:"@ {
                    assert(body.subrange(0, 5) =~= body.take(5));
                }
            }
            return events;
        }
        assert(body.take(5) =~= body.subrange(0, 5));
        let start: usize = if end > 5 && body_vec[5] == ' ' {
            6
        } else {
            5
        };
        let ghost rest0 = body.skip(5);
        assert(body.skip(start as int) =~= (if rest0.len() > 0 && rest0[0] == ' ' {
            rest0.skip(1)
        } else {
            rest0
        }));
        let (a, b) = trim_bounds(body_vec.as_slice(), start, end);
        proof {
            crate::text::lemma_trim_range_shift(body, start as int);
        }
        let data = string_from(body_vec.as_slice(), a, b);
        if crate::text::str_eq(data.as_str(), "[DONE]") {
            self.completed = true;
            return events;
        }
        self.started = true;
        match parse_json(data.as_str()) {
            Err(_) => events,
            Ok(v) => {
                match v.get("model") {
                    Some(JsonValue::Str(m)) => {
                        self.model = m.clone();
                    },
                    _ => {},
                }
                match v.get("usage") {
                    Some(u) => {
                        if u.is_object() {
                            self.usage = Some(
                                TokenUsage {
                                    prompt_tokens: count_of(u.get("prompt_tokens")),
                                    completion_tokens: count_of(u.get("completion_tokens")),
                                },
                            );
                        }
                    },
                    None => {},
                }
                match v.get("choices") {
                    Some(JsonValue::Array(items)) => {
                        self.apply_choices(items, &mut events);
                    },
                    _ => {
                        let empty: Vec<JsonValue> = Vec::new();
                        self.apply_choices(&empty, &mut events);
                    },
                }
                events
            },
        }
    }

    /// The reader's next move after `event`: read a line, hand the content
    /// of a line to the caller, stop reading, or abort. An interruption by
    /// the user aborts before the next read; a failed read aborts as an
    /// interruption when the read or the user was interrupted, else as a
    /// network error with the failure's text.
    pub fn on_reader_event(&mut self, event: ReaderEvent) -> (r: ReaderAction)
        ensures
            match event {
                ReaderEvent::Ready { interrupted } => final(self)@ == old(self)@ && if interrupted {
                    r matches ReaderAction::Abort(Error::Interrupted)
                } else {
                    r is Read
                },
                ReaderEvent::Line(line) => r matches ReaderAction::Deliver { contents, finished } && (
                final(self)@,
                events_view(contents@),
            ) == sse_line(old(self)@, line@) && finished == final(self)@.completed,
                ReaderEvent::End => final(self)@ == old(self)@ && r is Finish,
                ReaderEvent::Failed { interrupted_read, interrupted, message } => final(self)@ == old(self)@ && if interrupted_read
                    || interrupted {
                    r matches ReaderAction::Abort(Error::Interrupted)
                } else {
                    r matches ReaderAction::Abort(Error::NetworkError(m)) && m@ == message@
                },
            },
    {
        match event {
            ReaderEvent::Ready { interrupted } => if interrupted {
                ReaderAction::Abort(Error::Interrupted)
            } else {
                ReaderAction::Read
            },
            ReaderEvent::Line(line) => {
                let contents = self.feed_line(line.as_str());
                let finished = self.completed;
                ReaderAction::Deliver { contents, finished }
            },
            ReaderEvent::End => ReaderAction::Finish,
            ReaderEvent::Failed { interrupted_read, interrupted, message } => if interrupted_read || interrupted {
                ReaderAction::Abort(Error::Interrupted)
            } else {
                ReaderAction::Abort(Error::NetworkError(message))
            },
        }
    }

    /// Whether `[DONE]` was read.
    pub fn is_complete(&self) -> (b: bool)
        ensures
            b == self.completed,
    {
        self.completed
    }

    /// The reasoning text, when there is any.
    pub fn reasoning_content(&self) -> (r: Option<String>)
        ensures
            match r {
                Some(s) => self.reasoning@.len() > 0 && s@ == self.reasoning@,
                None => self.reasoning@.len() == 0,
            },
    {
        if chars_of(self.reasoning.as_str()).len() == 0 {
            None
        } else {
            Some(self.reasoning.clone())
        }
    }

    /// The error for a stream that ended without `[DONE]`, if it did.
    pub fn end_error(&self) -> (r: Option<Error>)
        ensures
            match r {
                Some(e) => !self.completed && (e matches Error::NetworkError(m) && m@
                    == "stream ended before [DONE]"@),
                None => self.completed,
            },
    {
        if self.completed {
            None
        } else {
            Some(Error::NetworkError(String::from_str("stream ended before [DONE]")))
        }
    }
}

} // verus!
