//! Command flow: the stages of a shell command whose boundaries can be found
//! without evaluating shell grammar. The command text is never rewritten:
//! every stage is a verbatim range of it.
use std::ops::Range;
use vstd::prelude::*;

use crate::text::{
    char_byte_offsets, chars_of, has_at, is_ascii_whitespace, is_ascii_ws, lemma_skip_ws,
    lemma_trim_end_at, skip_whitespace, skip_ws, starts_at, string_from, trim_end_at,
    trim_end_index, utf8_offset,
};

verus! {

#[derive(Debug, Clone, Copy, PartialEq, Eq)]
pub enum StageSupport {
    Supported,
    Unsupported,
}

/// Shell syntax that the flow view does not decompose. `range` holds byte
/// offsets into the command; `text` is the marked text.
#[derive(Debug, PartialEq, Eq)]
pub struct UnsupportedSpan {
    pub range: Range<usize>,
    pub text: String,
}

/// A span as byte offsets and text.
pub struct SpanView {
    pub start: int,
    pub end: int,
    pub text: Seq<char>,
}

impl View for UnsupportedSpan {
    type V = SpanView;

    open spec fn view(&self) -> SpanView {
        SpanView { start: self.range.start as int, end: self.range.end as int, text: self.text@ }
    }
}

impl Clone for UnsupportedSpan {
    fn clone(&self) -> (res: Self)
        ensures
            res@ == self@,
    {
        UnsupportedSpan {
            range: Range { start: self.range.start, end: self.range.end },
            text: self.text.clone(),
        }
    }
}

pub open spec fn spans_view(v: Seq<UnsupportedSpan>) -> Seq<SpanView> {
    v.map_values(|x: UnsupportedSpan| x@)
}

#[derive(Debug, PartialEq, Eq)]
pub struct CommandStage {
    pub stage_text: String,
    pub support: StageSupport,
    pub unsupported_spans: Vec<UnsupportedSpan>,
    pub separator: Option<String>,
}

pub struct StageView {
    pub text: Seq<char>,
    pub support: StageSupport,
    pub spans: Seq<SpanView>,
    pub separator: Option<Seq<char>>,
}

pub open spec fn opt_str_view(o: Option<String>) -> Option<Seq<char>> {
    match o {
        Some(s) => Some(s@),
        None => None,
    }
}

impl View for CommandStage {
    type V = StageView;

    open spec fn view(&self) -> StageView {
        StageView {
            text: self.stage_text@,
            support: self.support,
            spans: spans_view(self.unsupported_spans@),
            separator: opt_str_view(self.separator),
        }
    }
}

pub fn clone_opt_string(o: &Option<String>) -> (res: Option<String>)
    ensures
        opt_str_view(res) == opt_str_view(*o),
{
    match o {
        Some(s) => Some(s.clone()),
        None => None,
    }
}

impl Clone for CommandStage {
    fn clone(&self) -> (res: Self)
        ensures
            res@ == self@,
    {
        let spans = self.unsupported_spans.clone();
        assert(spans_view(spans@) =~= spans_view(self.unsupported_spans@));
        CommandStage {
            stage_text: self.stage_text.clone(),
            support: self.support,
            unsupported_spans: spans,
            separator: clone_opt_string(&self.separator),
        }
    }
}

pub open spec fn stages_view(v: Seq<CommandStage>) -> Seq<StageView> {
    v.map_values(|x: CommandStage| x@)
}

#[derive(Debug, PartialEq, Eq)]
pub struct CommandFlow {
    pub stages: Vec<CommandStage>,
}

impl View for CommandFlow {
    type V = Seq<StageView>;

    open spec fn view(&self) -> Seq<StageView> {
        stages_view(self.stages@)
    }
}

impl Clone for CommandFlow {
    fn clone(&self) -> (res: Self)
        ensures
            res@ == self@,
    {
        let stages = self.stages.clone();
        assert(stages_view(stages@) =~= stages_view(self.stages@));
        CommandFlow { stages }
    }
}

/// Quote and escape state of the scanner.
#[derive(Clone, Copy)]
pub struct LexState {
    pub quote: Option<char>,
    pub escaped: bool,
}

pub open spec fn lex_start() -> LexState {
    LexState { quote: None, escaped: false }
}

/// Whether `c` starts an escape in state `st`.
pub open spec fn starts_escape(st: LexState, c: char) -> bool {
    !st.escaped && c == '\\' && st.quote != Some('\'')
}

/// The scanner state after reading `c` in state `st`.
pub open spec fn lex_step(st: LexState, c: char) -> LexState {
    if st.escaped {
        LexState { quote: st.quote, escaped: false }
    } else if c == '\\' && st.quote != Some('\'') {
        LexState { quote: st.quote, escaped: true }
    } else if c == '\'' || c == '"' {
        if st.quote == Some(c) {
            LexState { quote: None, escaped: false }
        } else if st.quote is None {
            LexState { quote: Some(c), escaped: false }
        } else {
            st
        }
    } else {
        st
    }
}

/// Whether `c`, read in state `st`, is outside quotes and escapes and is no
/// quote or escape itself: only such characters can be operators.
pub open spec fn is_plain(st: LexState, c: char) -> bool {
    !st.escaped && !(c == '\\' && st.quote != Some('\'')) && c != '\'' && c != '"'
        && st.quote is None
}

fn lex_advance(st: LexState, c: char) -> (r: LexState)
    ensures
        r == lex_step(st, c),
{
    if st.escaped {
        LexState { quote: st.quote, escaped: false }
    } else if c == '\\' && !matches!(st.quote, Some('\'')) {
        LexState { quote: st.quote, escaped: true }
    } else if c == '\'' || c == '"' {
        match st.quote {
            Some(q) => {
                if q == c {
                    LexState { quote: None, escaped: false }
                } else {
                    st
                }
            },
            None => LexState { quote: Some(c), escaped: false },
        }
    } else {
        st
    }
}

fn plain(st: LexState, c: char) -> (b: bool)
    ensures
        b == is_plain(st, c),
{
    !st.escaped && !(c == '\\' && !matches!(st.quote, Some('\''))) && c != '\'' && c != '"'
        && st.quote.is_none()
}

/// Length of the top-level separator (`||`, `&&`, `|`, `;`, newline) that
/// starts at `i`, or 0.
pub open spec fn sep_len(s: Seq<char>, i: int) -> int {
    if s[i] == '|' && i + 1 < s.len() && s[i + 1] == '|' {
        2
    } else if s[i] == '&' && i + 1 < s.len() && s[i + 1] == '&' {
        2
    } else if s[i] == '|' || s[i] == ';' || s[i] == '\n' {
        1
    } else {
        0
    }
}

/// Segments between top-level separators, scanning from `i` with the current
/// segment starting at `start`.
pub open spec fn segments_from(s: Seq<char>, i: int, start: int, st: LexState) -> Seq<(int, int)>
    decreases s.len() - i,
{
    if i >= s.len() || i < 0 {
        seq![(start, s.len() as int)]
    } else if is_plain(st, s[i]) && sep_len(s, i) != 0 {
        seq![(start, i)] + segments_from(s, i + sep_len(s, i), i + sep_len(s, i), st)
    } else {
        segments_from(s, i + 1, start, lex_step(st, s[i]))
    }
}

pub open spec fn segments(s: Seq<char>) -> Seq<(int, int)> {
    segments_from(s, 0, 0, lex_start())
}

/// `c` opens or closes a quote, or starts an escape.
pub open spec fn quoting_char(c: char) -> bool {
    c == '\'' || c == '"' || c == '\\'
}

proof fn lemma_first_segment(s: Seq<char>, i: int, start: int, st: LexState)
    requires
        0 <= i <= s.len(),
    ensures
        segments_from(s, i, start, st).len() > 0,
        segments_from(s, i, start, st)[0].0 == start,
        segments_from(s, i, start, st)[0].1 >= i,
    decreases s.len() - i,
{
    if i < s.len() && !(is_plain(st, s[i]) && sep_len(s, i) != 0) {
        lemma_first_segment(s, i + 1, start, lex_step(st, s[i]));
    }
}

proof fn lemma_inside_quotes(s: Seq<char>, i: int, start: int, q: char, close: int)
    requires
        q == '\'' || q == '"',
        0 <= i <= close < s.len(),
        s[close] == q,
        forall|k: int| i <= k < close ==> s[k] != q && (q == '"' ==> s[k] != '\\'),
    ensures
        segments_from(s, i, start, LexState { quote: Some(q), escaped: false }).len() > 0,
        segments_from(s, i, start, LexState { quote: Some(q), escaped: false })[0].0 == start,
        segments_from(s, i, start, LexState { quote: Some(q), escaped: false })[0].1 > close,
    decreases close - i,
{
    let st = LexState { quote: Some(q), escaped: false };
    if i < close {
        assert(lex_step(st, s[i]) == st);
        lemma_inside_quotes(s, i + 1, start, q, close);
    } else {
        lemma_first_segment(s, close + 1, start, lex_step(st, s[close]));
    }
}

proof fn lemma_quoted_in_one_segment(s: Seq<char>, i: int, start: int, open: int, close: int)
    requires
        0 <= start <= i <= open < close < s.len(),
        s[open] == s[close],
        s[open] == '\'' || s[open] == '"',
        forall|k: int| i <= k < open ==> !quoting_char(#[trigger] s[k]),
        forall|k: int| open < k < close ==> s[k] != s[open] && (s[open] == '"' ==> s[k] != '\\'),
    ensures
        exists|k: int|
            0 <= k < segments_from(s, i, start, lex_start()).len() && (#[trigger] segments_from(
                s,
                i,
                start,
                lex_start(),
            )[k]).0 <= open && close < segments_from(s, i, start, lex_start())[k].1,
    decreases open - i,
{
    let all = segments_from(s, i, start, lex_start());
    if i == open {
        let q = s[open];
        assert(lex_step(lex_start(), q) == LexState { quote: Some(q), escaped: false });
        lemma_inside_quotes(s, open + 1, start, q, close);
        assert(all[0].0 <= open && close < all[0].1);
    } else if is_plain(lex_start(), s[i]) && sep_len(s, i) != 0 {
        let n = sep_len(s, i);
        assert(i + n <= open);
        lemma_quoted_in_one_segment(s, i + n, i + n, open, close);
        let rest = segments_from(s, i + n, i + n, lex_start());
        let k = choose|k: int| 0 <= k < rest.len() && (#[trigger] rest[k]).0 <= open && close < rest[k].1;
        assert(all == seq![(start, i)] + rest);
        assert(all[k + 1] == rest[k]);
    } else {
        assert(lex_step(lex_start(), s[i]) == lex_start());
        lemma_quoted_in_one_segment(s, i + 1, start, open, close);
    }
}

/// A quoted stretch that the command reaches outside any quote or escape is
/// never split into stages: from the opening quote (single or double) to
/// its closing quote, with no escape inside double quotes, the characters
/// lie in one segment, whatever separators stand between them.
pub proof fn quotes_protect_separators(s: Seq<char>, open: int, close: int)
    requires
        0 <= open < close < s.len(),
        s[open] == s[close],
        s[open] == '\'' || s[open] == '"',
        forall|k: int| 0 <= k < open ==> !quoting_char(#[trigger] s[k]),
        forall|k: int| open < k < close ==> s[k] != s[open] && (s[open] == '"' ==> s[k] != '\\'),
    ensures
        exists|k: int|
            0 <= k < segments(s).len() && (#[trigger] segments(s)[k]).0 <= open && close < segments(s)[k].1,
{
    lemma_quoted_in_one_segment(s, 0, 0, open, close);
    let all = segments_from(s, 0, 0, lex_start());
    let k = choose|k: int| 0 <= k < all.len() && (#[trigger] all[k]).0 <= open && close < all[k].1;
    assert(segments(s) == all);
    assert(segments(s)[k] == all[k]);
}

proof fn lemma_escape_in_one_segment(s: Seq<char>, i: int, start: int, p: int)
    requires
        0 <= start <= i <= p,
        p + 1 < s.len(),
        s[p] == '\\',
        forall|k: int| i <= k < p ==> !quoting_char(#[trigger] s[k]),
    ensures
        exists|k: int|
            0 <= k < segments_from(s, i, start, lex_start()).len() && (#[trigger] segments_from(
                s,
                i,
                start,
                lex_start(),
            )[k]).0 <= p && p + 1 < segments_from(s, i, start, lex_start())[k].1,
    decreases p - i,
{
    let all = segments_from(s, i, start, lex_start());
    if i == p {
        let esc = LexState { quote: None, escaped: true };
        assert(lex_step(lex_start(), s[p]) == esc);
        assert(!is_plain(lex_start(), s[p]));
        assert(all == segments_from(s, p + 1, start, esc));
        assert(!is_plain(esc, s[p + 1]));
        assert(segments_from(s, p + 1, start, esc) == segments_from(s, p + 2, start, lex_step(esc, s[p + 1])));
        lemma_first_segment(s, p + 2, start, lex_step(esc, s[p + 1]));
        assert(all[0].0 <= p && p + 1 < all[0].1);
    } else if is_plain(lex_start(), s[i]) && sep_len(s, i) != 0 {
        let n = sep_len(s, i);
        assert(i + n <= p);
        lemma_escape_in_one_segment(s, i + n, i + n, p);
        let rest = segments_from(s, i + n, i + n, lex_start());
        let k = choose|k: int| 0 <= k < rest.len() && (#[trigger] rest[k]).0 <= p && p + 1 < rest[k].1;
        assert(all == seq![(start, i)] + rest);
        assert(all[k + 1] == rest[k]);
    } else {
        assert(lex_step(lex_start(), s[i]) == lex_start());
        lemma_escape_in_one_segment(s, i + 1, start, p);
    }
}

/// A backslash outside quotes escapes the character after it: the two lie
/// in one segment, so an escaped separator never splits a stage.
pub proof fn escapes_protect_separators(s: Seq<char>, p: int)
    requires
        0 <= p,
        p + 1 < s.len(),
        s[p] == '\\',
        forall|k: int| 0 <= k < p ==> !quoting_char(#[trigger] s[k]),
    ensures
        exists|k: int| 0 <= k < segments(s).len() && (#[trigger] segments(s)[k]).0 <= p && p + 1 < segments(s)[k].1,
{
    lemma_escape_in_one_segment(s, 0, 0, p);
    let all = segments_from(s, 0, 0, lex_start());
    let k = choose|k: int| 0 <= k < all.len() && (#[trigger] all[k]).0 <= p && p + 1 < all[k].1;
    assert(segments(s) == all);
    assert(segments(s)[k] == all[k]);
}

proof fn lemma_separator_splits(s: Seq<char>, i: int, start: int, p: int)
    requires
        0 <= start <= i <= p < s.len(),
        sep_len(s, p) != 0,
        forall|k: int| i <= k < p ==> !quoting_char(#[trigger] s[k]) && sep_len(s, k) == 0,
    ensures
        exists|k: int|
            0 <= k < segments_from(s, i, start, lex_start()).len() - 1 && (#[trigger] segments_from(
                s,
                i,
                start,
                lex_start(),
            )[k]).1 == p && segments_from(s, i, start, lex_start())[k + 1].0 == p + sep_len(s, p),
    decreases p - i,
{
    let all = segments_from(s, i, start, lex_start());
    if i == p {
        let n = sep_len(s, p);
        assert(is_plain(lex_start(), s[p]));
        let rest = segments_from(s, p + n, p + n, lex_start());
        lemma_first_segment(s, p + n, p + n, lex_start());
        assert(all == seq![(start, p)] + rest);
        assert(all[0].1 == p);
        assert(all[1] == rest[0]);
    } else {
        assert(!(is_plain(lex_start(), s[i]) && sep_len(s, i) != 0));
        assert(lex_step(lex_start(), s[i]) == lex_start());
        lemma_separator_splits(s, i + 1, start, p);
    }
}

/// The first separator (`|`, `||`, `&&`, `;` or a newline) of a command,
/// with no quote or escape before it, ends a segment there, and the next
/// segment starts right after it.
pub proof fn plain_separators_split(s: Seq<char>, p: int)
    requires
        0 <= p < s.len(),
        sep_len(s, p) != 0,
        forall|k: int| 0 <= k < p ==> !quoting_char(#[trigger] s[k]) && sep_len(s, k) == 0,
    ensures
        exists|k: int|
            0 <= k < segments(s).len() - 1 && (#[trigger] segments(s)[k]).1 == p && segments(s)[k + 1].0 == p
                + sep_len(s, p),
{
    lemma_separator_splits(s, 0, 0, p);
    let all = segments_from(s, 0, 0, lex_start());
    let k = choose|k: int|
        0 <= k < all.len() - 1 && (#[trigger] all[k]).1 == p && all[k + 1].0 == p + sep_len(s, p);
    assert(segments(s) == all);
    assert(segments(s)[k] == all[k]);
}

fn separator_length(s: &[char], i: usize) -> (n: usize)
    requires
        i < s@.len(),
    ensures
        n as int == sep_len(s@, i as int),
{
    let c = s[i];
    if c == '|' && i + 1 < s.len() && s[i + 1] == '|' {
        2
    } else if c == '&' && i + 1 < s.len() && s[i + 1] == '&' {
        2
    } else if c == '|' || c == ';' || c == '\n' {
        1
    } else {
        0
    }
}

pub open spec fn pairs_view(v: Seq<(usize, usize)>) -> Seq<(int, int)> {
    v.map_values(|p: (usize, usize)| (p.0 as int, p.1 as int))
}

proof fn lemma_segments_bounds(s: Seq<char>, i: int, start: int, st: LexState)
    requires
        0 <= start <= i <= s.len(),
    ensures
        forall|k: int|
            0 <= k < segments_from(s, i, start, st).len() ==> 0 <= (#[trigger] segments_from(
                s,
                i,
                start,
                st,
            )[k]).0 <= segments_from(s, i, start, st)[k].1 <= s.len(),
    decreases s.len() - i,
{
    let all = segments_from(s, i, start, st);
    if i < s.len() {
        if is_plain(st, s[i]) && sep_len(s, i) != 0 {
            let n = sep_len(s, i);
            lemma_segments_bounds(s, i + n, i + n, st);
            let rest = segments_from(s, i + n, i + n, st);
            assert(all == seq![(start, i)] + rest);
            assert forall|k: int| 0 <= k < all.len() implies 0 <= (#[trigger] all[k]).0 <= all[k].1
                <= s.len() by {
                if k > 0 {
                    assert(all[k] == rest[k - 1]);
                }
            }
        } else {
            lemma_segments_bounds(s, i + 1, start, lex_step(st, s[i]));
            assert(all == segments_from(s, i + 1, start, lex_step(st, s[i])));
        }
    }
}

fn split_segments(s: &[char]) -> (segs: Vec<(usize, usize)>)
    ensures
        pairs_view(segs@) == segments(s@),
        forall|k: int| 0 <= k < segs@.len() ==> (#[trigger] segs@[k]).0 <= segs@[k].1 <= s@.len(),
{
    proof {
        lemma_segments_bounds(s@, 0, 0, lex_start());
    }
    let mut segs: Vec<(usize, usize)> = Vec::new();
    let mut start: usize = 0;
    let mut st = LexState { quote: None, escaped: false };
    let mut i: usize = 0;
    while i < s.len()
        invariant
            i <= s@.len(),
            start <= s@.len(),
            pairs_view(segs@) + segments_from(s@, i as int, start as int, st) == segments(s@),
        decreases s@.len() - i,
    {
        let c = s[i];
        let n = if plain(st, c) {
            separator_length(s, i)
        } else {
            0
        };
        if n != 0 {
            let ghost before = pairs_view(segs@);
            segs.push((start, i));
            assert(pairs_view(segs@) == before.push((start as int, i as int)));
            assert(pairs_view(segs@) + segments_from(s@, i + n, i + n, st) == before + (seq![
                (start as int, i as int),
            ] + segments_from(s@, i + n, i + n, st)));
            i = i + n;
            start = i;
        } else {
            st = lex_advance(st, c);
            i = i + 1;
        }
    }
    let ghost before = pairs_view(segs@);
    segs.push((start, s.len()));
    assert(pairs_view(segs@) == before.push((start as int, s@.len() as int)));
    proof {
        assert forall|k: int| 0 <= k < segs@.len() implies (#[trigger] segs@[k]).0 <= segs@[k].1
            <= s@.len() by {
            assert(pairs_view(segs@)[k] == (segs@[k].0 as int, segs@[k].1 as int));
            assert(segments_from(s@, 0, 0, lex_start())[k] == pairs_view(segs@)[k]);
        }
    }
    segs
}

/// Tokens of `s[i..end]` split at unquoted ASCII whitespace; `open` is the
/// start of the token being read.
pub open spec fn tokens_from(s: Seq<char>, i: int, end: int, open: Option<int>, st: LexState) -> Seq<
    (int, int),
>
    decreases end - i,
{
    if i >= end || i < 0 {
        match open {
            Some(t) => seq![(t, end)],
            None => seq![],
        }
    } else {
        let c = s[i];
        if st.escaped {
            tokens_from(
                s,
                i + 1,
                end,
                if open is None {
                    Some(if i >= 1 { i - 1 } else { 0 })
                } else {
                    open
                },
                lex_step(st, c),
            )
        } else if c == '\\' && st.quote != Some('\'') || c == '\'' || c == '"' {
            tokens_from(
                s,
                i + 1,
                end,
                if open is None {
                    Some(i)
                } else {
                    open
                },
                lex_step(st, c),
            )
        } else if st.quote is None && is_ascii_ws(c) {
            match open {
                Some(t) => seq![(t, i)] + tokens_from(s, i + 1, end, None, st),
                None => tokens_from(s, i + 1, end, None, st),
            }
        } else {
            tokens_from(
                s,
                i + 1,
                end,
                if open is None {
                    Some(i)
                } else {
                    open
                },
                st,
            )
        }
    }
}

pub open spec fn tokens(s: Seq<char>, start: int, end: int) -> Seq<(int, int)> {
    tokens_from(s, start, end, None, lex_start())
}

pub open spec fn opt_view(o: Option<usize>) -> Option<int> {
    match o {
        Some(v) => Some(v as int),
        None => None,
    }
}

proof fn lemma_tokens_bounds(s: Seq<char>, i: int, end: int, open: Option<int>, st: LexState)
    requires
        0 <= i <= end,
        open matches Some(t) ==> 0 <= t <= i,
        st.escaped ==> open is Some,
    ensures
        forall|k: int|
            0 <= k < tokens_from(s, i, end, open, st).len() ==> {
                let t = #[trigger] tokens_from(s, i, end, open, st)[k];
                0 <= t.0 <= t.1 <= end && (open is None ==> i <= t.0) && (open matches Some(
                    o,
                ) ==> o <= t.0)
            },
    decreases end - i,
{
    if i < end {
        let c = s[i];
        let all = tokens_from(s, i, end, open, st);
        if st.escaped {
            lemma_tokens_bounds(s, i + 1, end, open, lex_step(st, c));
            assert(all == tokens_from(s, i + 1, end, open, lex_step(st, c)));
        } else if c == '\\' && st.quote != Some('\'') || c == '\'' || c == '"' {
            let o2 = if open is None {
                Some(i)
            } else {
                open
            };
            lemma_tokens_bounds(s, i + 1, end, o2, lex_step(st, c));
            assert(all == tokens_from(s, i + 1, end, o2, lex_step(st, c)));
        } else if st.quote is None && is_ascii_ws(c) {
            lemma_tokens_bounds(s, i + 1, end, None, st);
            let rest = tokens_from(s, i + 1, end, None, st);
            if let Some(o) = open {
                assert(all == seq![(o, i)] + rest);
                assert forall|k: int| 0 <= k < all.len() implies {
                    let t = #[trigger] all[k];
                    0 <= t.0 <= t.1 <= end && o <= t.0
                } by {
                    if k > 0 {
                        assert(all[k] == rest[k - 1]);
                    }
                }
            } else {
                assert(all == rest);
            }
        } else {
            let o2 = if open is None {
                Some(i)
            } else {
                open
            };
            lemma_tokens_bounds(s, i + 1, end, o2, st);
            assert(all == tokens_from(s, i + 1, end, o2, st));
        }
    }
}

fn shell_tokens(s: &[char], start: usize, end: usize) -> (toks: Vec<(usize, usize)>)
    requires
        start <= end <= s@.len(),
    ensures
        pairs_view(toks@) == tokens(s@, start as int, end as int),
        forall|k: int|
            0 <= k < toks@.len() ==> start <= (#[trigger] toks@[k]).0 <= toks@[k].1 <= end,
{
    let mut toks: Vec<(usize, usize)> = Vec::new();
    let mut open: Option<usize> = None;
    let mut st = LexState { quote: None, escaped: false };
    let mut i: usize = start;
    proof {
        lemma_tokens_bounds(s@, start as int, end as int, None, lex_start());
    }
    while i < end
        invariant
            start <= i <= end <= s@.len(),
            open matches Some(t) ==> start <= t <= i,
            st.escaped ==> open is Some,
            pairs_view(toks@) + tokens_from(s@, i as int, end as int, opt_view(open), st) == tokens(
                s@,
                start as int,
                end as int,
            ),
            forall|k: int|
                0 <= k < toks@.len() ==> start <= (#[trigger] toks@[k]).0 <= toks@[k].1 <= i,
        decreases end - i,
    {
        let c = s[i];
        if st.escaped {
            if open.is_none() {
                open = Some(if i >= 1 { i - 1 } else { 0 });
            }
            st = lex_advance(st, c);
        } else if c == '\\' && !matches!(st.quote, Some('\'')) || c == '\'' || c == '"' {
            if open.is_none() {
                open = Some(i);
            }
            st = lex_advance(st, c);
        } else if st.quote.is_none() && is_ascii_whitespace(c) {
            if let Some(t) = open {
                let ghost before = pairs_view(toks@);
                toks.push((t, i));
                assert(pairs_view(toks@) == before.push((t as int, i as int)));
                assert(pairs_view(toks@) + tokens_from(s@, i + 1, end as int, None, st) == before
                    + (seq![(t as int, i as int)] + tokens_from(s@, i + 1, end as int, None, st)));
            }
            open = None;
        } else {
            if open.is_none() {
                open = Some(i);
            }
        }
        i = i + 1;
    }
    if let Some(t) = open {
        let ghost before = pairs_view(toks@);
        toks.push((t, end));
        assert(pairs_view(toks@) == before.push((t as int, end as int)));
    }
    toks
}


/// Length of the operator that the flow view does not decompose at `i`
/// (redirections, backquotes, parentheses, braces, a lone `&`, `$(`), or 0.
pub open spec fn op_len(s: Seq<char>, i: int) -> int {
    let c = s[i];
    if c == '<' || c == '>' || c == '`' || c == '(' || c == ')' || c == '{' || c == '}' {
        1
    } else if c == '&' && !(i + 1 < s.len() && s[i + 1] == '&') {
        1
    } else if c == '$' && i + 1 < s.len() && s[i + 1] == '(' {
        2
    } else {
        0
    }
}

pub open spec fn min_int(a: int, b: int) -> int {
    if a <= b {
        a
    } else {
        b
    }
}

/// Character ranges of the unsupported operators of `s[i..end]`.
pub open spec fn op_spans_from(s: Seq<char>, i: int, end: int, st: LexState) -> Seq<(int, int)>
    decreases end - i,
{
    if i >= end || i < 0 {
        seq![]
    } else if is_plain(st, s[i]) && op_len(s, i) != 0 {
        let stop = min_int(i + op_len(s, i), end);
        seq![(i, stop)] + op_spans_from(s, stop, end, st)
    } else {
        op_spans_from(s, i + 1, end, lex_step(st, s[i]))
    }
}

/// Compound-command keywords that the flow view does not decompose.
pub open spec fn is_keyword(t: Seq<char>) -> bool {
    ||| t == seq!['f', 'o', 'r']
    ||| t == seq!['d', 'o']
    ||| t == seq!['d', 'o', 'n', 'e']
    ||| t == seq!['i', 'f']
    ||| t == seq!['t', 'h', 'e', 'n']
    ||| t == seq!['e', 'l', 'i', 'f']
    ||| t == seq!['e', 'l', 's', 'e']
    ||| t == seq!['f', 'i']
    ||| t == seq!['c', 'a', 's', 'e']
    ||| t == seq!['e', 's', 'a', 'c']
    ||| t == seq!['w', 'h', 'i', 'l', 'e']
    ||| t == seq!['u', 'n', 't', 'i', 'l']
    ||| t == seq!['f', 'u', 'n', 'c', 't', 'i', 'o', 'n']
}

/// `acc` extended by the keyword tokens `toks[k..]` that it does not hold yet.
pub open spec fn keyword_spans_from(
    s: Seq<char>,
    toks: Seq<(int, int)>,
    k: int,
    acc: Seq<(int, int)>,
) -> Seq<(int, int)>
    decreases toks.len() - k,
{
    if k >= toks.len() || k < 0 {
        acc
    } else if is_keyword(s.subrange(toks[k].0, toks[k].1)) && !acc.contains(toks[k]) {
        keyword_spans_from(s, toks, k + 1, acc.push(toks[k]))
    } else {
        keyword_spans_from(s, toks, k + 1, acc)
    }
}

/// Index at which a stable sort by start places `x` after `v`, itself sorted.
pub open spec fn insert_pos(v: Seq<(int, int)>, x: (int, int)) -> int
    decreases v.len(),
{
    if v.len() == 0 {
        0
    } else if v.last().0 <= x.0 {
        v.len() as int
    } else {
        insert_pos(v.drop_last(), x)
    }
}

/// Stable sort by start.
pub open spec fn sort_by_start(v: Seq<(int, int)>) -> Seq<(int, int)>
    decreases v.len(),
{
    if v.len() == 0 {
        v
    } else {
        let sorted = sort_by_start(v.drop_last());
        sorted.insert(insert_pos(sorted, v.last()), v.last())
    }
}

proof fn lemma_insert_pos(v: Seq<(int, int)>, x: (int, int))
    ensures
        0 <= insert_pos(v, x) <= v.len(),
    decreases v.len(),
{
    if v.len() > 0 && v.last().0 > x.0 {
        lemma_insert_pos(v.drop_last(), x);
    }
}

proof fn lemma_sort_len(v: Seq<(int, int)>)
    ensures
        sort_by_start(v).len() == v.len(),
    decreases v.len(),
{
    if v.len() > 0 {
        lemma_sort_len(v.drop_last());
        lemma_insert_pos(sort_by_start(v.drop_last()), v.last());
    }
}

proof fn lemma_sort_bounds(v: Seq<(int, int)>, lo: int, hi: int)
    requires
        forall|k: int| 0 <= k < v.len() ==> lo <= (#[trigger] v[k]).0 <= v[k].1 <= hi,
    ensures
        sort_by_start(v).len() == v.len(),
        forall|k: int|
            0 <= k < sort_by_start(v).len() ==> lo <= (#[trigger] sort_by_start(v)[k]).0
                <= sort_by_start(v)[k].1 <= hi,
    decreases v.len(),
{
    if v.len() > 0 {
        let d = v.drop_last();
        assert forall|k: int| 0 <= k < d.len() implies lo <= (#[trigger] d[k]).0 <= d[k].1 <= hi by {
            assert(d[k] == v[k]);
        }
        lemma_sort_bounds(d, lo, hi);
        let sorted = sort_by_start(d);
        lemma_insert_pos(sorted, v.last());
        let r = sorted.insert(insert_pos(sorted, v.last()), v.last());
        assert(r == sort_by_start(v));
        assert forall|k: int| 0 <= k < r.len() implies lo <= (#[trigger] r[k]).0 <= r[k].1 <= hi by {
            let p = insert_pos(sorted, v.last());
            if k < p {
                assert(r[k] == sorted[k]);
            } else if k == p {
                assert(r[k] == v.last());
            } else {
                assert(r[k] == sorted[k - 1]);
            }
        }
    }
}

/// Character ranges of the unsupported syntax of `s[start..end]`, by start.
pub open spec fn unsupported_ranges(s: Seq<char>, start: int, end: int) -> Seq<(int, int)> {
    sort_by_start(
        keyword_spans_from(s, tokens(s, start, end), 0, op_spans_from(s, start, end, lex_start())),
    )
}

/// `span` marks the characters `r` of `s`.
pub open spec fn span_marks(span: SpanView, s: Seq<char>, r: (int, int)) -> bool {
    &&& span.start == utf8_offset(s, r.0)
    &&& span.end == utf8_offset(s, r.1)
    &&& span.text == s.subrange(r.0, r.1)
}

pub open spec fn spans_mark(spans: Seq<SpanView>, s: Seq<char>, rs: Seq<(int, int)>) -> bool {
    &&& spans.len() == rs.len()
    &&& forall|k: int| 0 <= k < rs.len() ==> span_marks(#[trigger] spans[k], s, rs[k])
}

fn operator_length(s: &[char], i: usize) -> (n: usize)
    requires
        i < s@.len(),
    ensures
        n as int == op_len(s@, i as int),
{
    let c = s[i];
    if c == '<' || c == '>' || c == '`' || c == '(' || c == ')' || c == '{' || c == '}' {
        1
    } else if c == '&' && !(i + 1 < s.len() && s[i + 1] == '&') {
        1
    } else if c == '$' && i + 1 < s.len() && s[i + 1] == '(' {
        2
    } else {
        0
    }
}

fn operator_spans(s: &[char], start: usize, end: usize) -> (r: Vec<(usize, usize)>)
    requires
        start <= end <= s@.len(),
    ensures
        pairs_view(r@) == op_spans_from(s@, start as int, end as int, lex_start()),
        forall|k: int| 0 <= k < r@.len() ==> start <= (#[trigger] r@[k]).0 <= r@[k].1 <= end,
{
    let mut r: Vec<(usize, usize)> = Vec::new();
    let mut st = LexState { quote: None, escaped: false };
    let mut i: usize = start;
    while i < end
        invariant
            start <= i <= end <= s@.len(),
            pairs_view(r@) + op_spans_from(s@, i as int, end as int, st) == op_spans_from(
                s@,
                start as int,
                end as int,
                lex_start(),
            ),
            forall|k: int| 0 <= k < r@.len() ==> start <= (#[trigger] r@[k]).0 <= r@[k].1 <= i,
        decreases end - i,
    {
        let c = s[i];
        let n = if plain(st, c) {
            operator_length(s, i)
        } else {
            0
        };
        if n != 0 {
            let stop = if i + n <= end {
                i + n
            } else {
                end
            };
            let ghost before = pairs_view(r@);
            r.push((i, stop));
            assert(pairs_view(r@) == before.push((i as int, stop as int)));
            assert(pairs_view(r@) + op_spans_from(s@, stop as int, end as int, st) == before + (
            seq![(i as int, stop as int)] + op_spans_from(s@, stop as int, end as int, st)));
            i = stop;
        } else {
            st = lex_advance(st, c);
            i = i + 1;
        }
    }
    r
}


/// Whether the characters `s[a..b]` are exactly `p`.
fn range_is(s: &[char], a: usize, b: usize, p: &[char]) -> (r: bool)
    requires
        a <= b <= s@.len(),
    ensures
        r == (s@.subrange(a as int, b as int) == p@),
{
    if b - a != p.len() {
        assert(s@.subrange(a as int, b as int).len() != p@.len());
        return false;
    }
    let r = has_at(s, a, p);
    assert(b == a + p@.len());
    r
}

fn keyword_at(s: &[char], a: usize, b: usize) -> (r: bool)
    requires
        a <= b <= s@.len(),
    ensures
        r == is_keyword(s@.subrange(a as int, b as int)),
{
    let ghost t = s@.subrange(a as int, b as int);
    let w_for = ['f', 'o', 'r'];
    let w_do = ['d', 'o'];
    let w_done = ['d', 'o', 'n', 'e'];
    let w_if = ['i', 'f'];
    let w_then = ['t', 'h', 'e', 'n'];
    let w_elif = ['e', 'l', 'i', 'f'];
    let w_else = ['e', 'l', 's', 'e'];
    let w_fi = ['f', 'i'];
    let w_case = ['c', 'a', 's', 'e'];
    let w_esac = ['e', 's', 'a', 'c'];
    let w_while = ['w', 'h', 'i', 'l', 'e'];
    let w_until = ['u', 'n', 't', 'i', 'l'];
    let w_function = ['f', 'u', 'n', 'c', 't', 'i', 'o', 'n'];
    assert(w_for@ =~= seq!['f', 'o', 'r']);
    assert(w_do@ =~= seq!['d', 'o']);
    assert(w_done@ =~= seq!['d', 'o', 'n', 'e']);
    assert(w_if@ =~= seq!['i', 'f']);
    assert(w_then@ =~= seq!['t', 'h', 'e', 'n']);
    assert(w_elif@ =~= seq!['e', 'l', 'i', 'f']);
    assert(w_else@ =~= seq!['e', 'l', 's', 'e']);
    assert(w_fi@ =~= seq!['f', 'i']);
    assert(w_case@ =~= seq!['c', 'a', 's', 'e']);
    assert(w_esac@ =~= seq!['e', 's', 'a', 'c']);
    assert(w_while@ =~= seq!['w', 'h', 'i', 'l', 'e']);
    assert(w_until@ =~= seq!['u', 'n', 't', 'i', 'l']);
    assert(w_function@ =~= seq!['f', 'u', 'n', 'c', 't', 'i', 'o', 'n']);
    range_is(s, a, b, &w_for) || range_is(s, a, b, &w_do) || range_is(s, a, b, &w_done)
        || range_is(s, a, b, &w_if) || range_is(s, a, b, &w_then) || range_is(s, a, b, &w_elif)
        || range_is(s, a, b, &w_else) || range_is(s, a, b, &w_fi) || range_is(s, a, b, &w_case)
        || range_is(s, a, b, &w_esac) || range_is(s, a, b, &w_while) || range_is(
        s,
        a,
        b,
        &w_until,
    ) || range_is(s, a, b, &w_function)
}

fn holds_pair(v: &Vec<(usize, usize)>, x: (usize, usize)) -> (r: bool)
    ensures
        r == pairs_view(v@).contains((x.0 as int, x.1 as int)),
{
    let mut k: usize = 0;
    while k < v.len()
        invariant
            k <= v@.len(),
            forall|j: int| 0 <= j < k ==> pairs_view(v@)[j] != (x.0 as int, x.1 as int),
        decreases v@.len() - k,
    {
        if v[k].0 == x.0 && v[k].1 == x.1 {
            assert(pairs_view(v@)[k as int] == (x.0 as int, x.1 as int));
            return true;
        }
        k += 1;
    }
    false
}

fn insertion_index(v: &Vec<(usize, usize)>, x: (usize, usize)) -> (p: usize)
    ensures
        p as int == insert_pos(pairs_view(v@), (x.0 as int, x.1 as int)),
        p <= v@.len(),
{
    let ghost pv = pairs_view(v@);
    let ghost xv = (x.0 as int, x.1 as int);
    let mut j: usize = v.len();
    assert(pv.take(j as int) =~= pv);
    while j > 0
        invariant
            j <= v@.len(),
            pv == pairs_view(v@),
            xv == (x.0 as int, x.1 as int),
            insert_pos(pv.take(j as int), xv) == insert_pos(pv, xv),
        decreases j,
    {
        assert(pv[j - 1] == (v@[j - 1].0 as int, v@[j - 1].1 as int));
        assert(pv.take(j as int).last() == pv[j - 1]);
        assert(pv.take(j as int).len() == j);
        if v[j - 1].0 <= x.0 {
            assert(pv.take(j as int).last().0 <= xv.0);
            assert(insert_pos(pv.take(j as int), xv) == j as int);
            return j;
        }
        assert(pv.take(j as int).last().0 > xv.0);
        assert(pv.take(j as int).drop_last() =~= pv.take(j - 1));
        assert(insert_pos(pv.take(j as int), xv) == insert_pos(pv.take(j - 1), xv));
        j -= 1;
    }
    j
}

fn sorted_by_start(v: Vec<(usize, usize)>) -> (r: Vec<(usize, usize)>)
    ensures
        pairs_view(r@) == sort_by_start(pairs_view(v@)),
{
    let ghost pv = pairs_view(v@);
    let mut r: Vec<(usize, usize)> = Vec::new();
    let mut k: usize = 0;
    assert(pv.take(0) =~= Seq::<(int, int)>::empty());
    while k < v.len()
        invariant
            k <= v@.len(),
            pv == pairs_view(v@),
            pairs_view(r@) == sort_by_start(pv.take(k as int)),
        decreases v@.len() - k,
    {
        let x = v[k];
        let p = insertion_index(&r, x);
        let ghost before = pairs_view(r@);
        r.insert(p, x);
        assert(pairs_view(r@) =~= before.insert(p as int, (x.0 as int, x.1 as int)));
        assert(pv.take(k + 1).drop_last() =~= pv.take(k as int));
        assert(pv.take(k + 1).last() == (x.0 as int, x.1 as int));
        k += 1;
    }
    assert(pv.take(v@.len() as int) =~= pv);
    r
}

fn unsupported_range_list(s: &[char], start: usize, end: usize) -> (r: Vec<(usize, usize)>)
    requires
        start <= end <= s@.len(),
    ensures
        pairs_view(r@) == unsupported_ranges(s@, start as int, end as int),
        forall|k: int| 0 <= k < r@.len() ==> start <= (#[trigger] r@[k]).0 <= r@[k].1 <= end,
{
    let mut acc = operator_spans(s, start, end);
    let toks = shell_tokens(s, start, end);
    let ghost ptoks = pairs_view(toks@);
    let ghost acc0 = pairs_view(acc@);
    let mut k: usize = 0;
    while k < toks.len()
        invariant
            k <= toks@.len(),
            start <= end <= s@.len(),
            ptoks == pairs_view(toks@),
            ptoks == tokens(s@, start as int, end as int),
            forall|j: int| 0 <= j < toks@.len() ==> start <= (#[trigger] toks@[j]).0 <= toks@[j].1 <= end,
            keyword_spans_from(s@, ptoks, k as int, pairs_view(acc@)) == keyword_spans_from(
                s@,
                ptoks,
                0,
                acc0,
            ),
            forall|j: int| 0 <= j < acc@.len() ==> start <= (#[trigger] acc@[j]).0 <= acc@[j].1 <= end,
        decreases toks@.len() - k,
    {
        let t = toks[k];
        assert(ptoks[k as int] == (t.0 as int, t.1 as int));
        if keyword_at(s, t.0, t.1) && !holds_pair(&acc, t) {
            let ghost before = pairs_view(acc@);
            acc.push(t);
            assert(pairs_view(acc@) =~= before.push((t.0 as int, t.1 as int)));
        }
        k += 1;
    }
    let ghost pacc = pairs_view(acc@);
    proof {
        assert forall|j: int| 0 <= j < pacc.len() implies start <= (#[trigger] pacc[j]).0 <= pacc[j].1
            <= end by {
            assert(pacc[j] == (acc@[j].0 as int, acc@[j].1 as int));
        }
        lemma_sort_bounds(pacc, start as int, end as int);
    }
    let r = sorted_by_start(acc);
    proof {
        assert forall|j: int| 0 <= j < r@.len() implies start <= (#[trigger] r@[j]).0 <= r@[j].1
            <= end by {
            assert(pairs_view(r@)[j] == (r@[j].0 as int, r@[j].1 as int));
        }
    }
    r
}


/// The offsets table maps character indices of `s` to byte offsets.
pub open spec fn offsets_of(offsets: Seq<usize>, s: Seq<char>) -> bool {
    &&& offsets.len() == s.len() + 1
    &&& forall|k: int| 0 <= k <= s.len() ==> #[trigger] offsets[k] as int == utf8_offset(s, k)
}

fn unsupported_spans(s: &[char], offsets: &[usize], start: usize, end: usize) -> (spans: Vec<
    UnsupportedSpan,
>)
    requires
        start <= end <= s@.len(),
        offsets_of(offsets@, s@),
    ensures
        spans_mark(spans_view(spans@), s@, unsupported_ranges(s@, start as int, end as int)),
{
    let ranges = unsupported_range_list(s, start, end);
    let mut spans: Vec<UnsupportedSpan> = Vec::new();
    let mut k: usize = 0;
    while k < ranges.len()
        invariant
            k <= ranges@.len(),
            start <= end <= s@.len(),
            offsets_of(offsets@, s@),
            forall|j: int| 0 <= j < ranges@.len() ==> start <= (#[trigger] ranges@[j]).0 <= ranges@[j].1 <= end,
            spans@.len() == k,
            forall|j: int|
                0 <= j < k ==> span_marks(
                    #[trigger] spans@[j]@,
                    s@,
                    pairs_view(ranges@)[j],
                ),
        decreases ranges@.len() - k,
    {
        let (a, b) = ranges[k];
        assert(pairs_view(ranges@)[k as int] == (a as int, b as int));
        let span = UnsupportedSpan {
            range: Range { start: offsets[a], end: offsets[b] },
            text: string_from(s, a, b),
        };
        let ghost before = spans@;
        spans.push(span);
        proof {
            assert forall|j: int| 0 <= j < k + 1 implies span_marks(
                #[trigger] spans@[j]@,
                s@,
                pairs_view(ranges@)[j],
            ) by {
                if j < k {
                    assert(spans@[j] == before[j]);
                } else {
                    assert(spans@[j] == span);
                    assert(offsets@[a as int] as int == utf8_offset(s@, a as int));
                    assert(offsets@[b as int] as int == utf8_offset(s@, b as int));
                }
            }
        }
        k += 1;
    }
    proof {
        assert forall|j: int| 0 <= j < spans@.len() implies span_marks(
            #[trigger] spans_view(spans@)[j],
            s@,
            unsupported_ranges(s@, start as int, end as int)[j],
        ) by {
            assert(spans_view(spans@)[j] == spans@[j]@);
        }
    }
    spans
}

/// The first non-whitespace and the end of the last non-whitespace character
/// of `s[start..end]`, or `None` when it is all whitespace (`str::trim`).
pub open spec fn trimmed(s: Seq<char>, start: int, end: int) -> Option<(int, int)> {
    let a = skip_ws(s, start, end);
    if a >= end {
        None
    } else {
        Some((a, trim_end_at(s, a, end)))
    }
}

proof fn lemma_trimmed(s: Seq<char>, start: int, end: int)
    requires
        0 <= start <= end <= s.len(),
    ensures
        trimmed(s, start, end) matches Some(r) ==> start <= r.0 < r.1 <= end,
{
    lemma_skip_ws(s, start, end);
    let a = skip_ws(s, start, end);
    if a < end {
        lemma_trim_end_at(s, a, end);
        if trim_end_at(s, a, end) == a {
            lemma_trim_end_at(s, a, a + 1);
        }
        lemma_trim_nonempty(s, a, end);
    }
}

proof fn lemma_trim_nonempty(s: Seq<char>, a: int, end: int)
    requires
        0 <= a < end <= s.len(),
        !crate::text::is_ws(s[a]),
    ensures
        a < trim_end_at(s, a, end),
    decreases end - a,
{
    if end - 1 > a && crate::text::is_ws(s[end - 1]) {
        lemma_trim_nonempty(s, a, end - 1);
    }
}

fn trimmed_range(s: &[char], start: usize, end: usize) -> (r: Option<(usize, usize)>)
    requires
        start <= end <= s@.len(),
    ensures
        opt_pair_view(r) == trimmed(s@, start as int, end as int),
        r matches Some(p) ==> start <= p.0 < p.1 <= end,
{
    proof {
        lemma_trimmed(s@, start as int, end as int);
        lemma_skip_ws(s@, start as int, end as int);
    }
    let a = skip_whitespace(s, start, end);
    if a >= end {
        return None;
    }
    let b = trim_end_index(s, a, end);
    Some((a, b))
}

pub open spec fn opt_pair_view(o: Option<(usize, usize)>) -> Option<(int, int)> {
    match o {
        Some(p) => Some((p.0 as int, p.1 as int)),
        None => None,
    }
}

/// `xargs` followed by options and a command: the index at which the
/// command starts.
pub open spec fn xargs_scan(s: Seq<char>, toks: Seq<(int, int)>, k: int, terminated: bool) -> Option<
    int,
>
    decreases toks.len() - k,
{
    if k >= toks.len() || k < 0 {
        None
    } else {
        let text = s.subrange(toks[k].0, toks[k].1);
        if text == seq!['-', '-'] {
            xargs_scan(s, toks, k + 1, true)
        } else if !terminated && text.len() > 0 && text[0] == '-' {
            xargs_scan(s, toks, k + 1, terminated)
        } else {
            Some(toks[k].0)
        }
    }
}

pub open spec fn xargs_split(s: Seq<char>, start: int, end: int) -> Option<int> {
    let toks = tokens(s, start, end);
    if toks.len() < 3 || s.subrange(toks[0].0, toks[0].1) != seq!['x', 'a', 'r', 'g', 's'] {
        None
    } else {
        xargs_scan(s, toks, 1, false)
    }
}

fn xargs_command_split(s: &[char], start: usize, end: usize) -> (r: Option<usize>)
    requires
        start <= end <= s@.len(),
    ensures
        opt_view(r) == xargs_split(s@, start as int, end as int),
        r matches Some(p) ==> start <= p <= end,
{
    let toks = shell_tokens(s, start, end);
    let ghost pt = pairs_view(toks@);
    let w_xargs = ['x', 'a', 'r', 'g', 's'];
    let w_dashes = ['-', '-'];
    assert(w_xargs@ =~= seq!['x', 'a', 'r', 'g', 's']);
    assert(w_dashes@ =~= seq!['-', '-']);
    if toks.len() < 3 {
        return None;
    }
    assert(pt[0] == (toks@[0].0 as int, toks@[0].1 as int));
    if !range_is(s, toks[0].0, toks[0].1, &w_xargs) {
        return None;
    }
    assert(s@.subrange(pt[0].0, pt[0].1) == seq!['x', 'a', 'r', 'g', 's']);
    assert(xargs_split(s@, start as int, end as int) == xargs_scan(s@, pt, 1, false));
    let mut terminated = false;
    let mut k: usize = 1;
    while k < toks.len()
        invariant
            1 <= k <= toks@.len(),
            start <= end <= s@.len(),
            pt == pairs_view(toks@),
            w_dashes@ == seq!['-', '-'],
            forall|j: int| 0 <= j < toks@.len() ==> start <= (#[trigger] toks@[j]).0 <= toks@[j].1 <= end,
            xargs_scan(s@, pt, k as int, terminated) == xargs_scan(s@, pt, 1, false),
            xargs_split(s@, start as int, end as int) == xargs_scan(s@, pt, 1, false),
        decreases toks@.len() - k,
    {
        let (a, b) = toks[k];
        assert(pt[k as int] == (a as int, b as int));
        if range_is(s, a, b, &w_dashes) {
            terminated = true;
            k += 1;
            continue;
        }
        assert(s@.subrange(a as int, b as int) != seq!['-', '-']);
        if !terminated && a < b && s[a] == '-' {
            assert(s@.subrange(a as int, b as int)[0] == s@[a as int]);
            k += 1;
            continue;
        }
        assert(a < b ==> s@.subrange(a as int, b as int)[0] == s@[a as int]);
        return Some(a);
    }
    None
}

/// The operator (`&&`, `||`, `|`, `;`) that follows position `end` after
/// whitespace, if any.
pub open spec fn following_sep(s: Seq<char>, end: int) -> Option<Seq<char>> {
    let k = skip_ws(s, end, s.len() as int);
    if starts_at(s, k, seq!['&', '&']) {
        Some(seq!['&', '&'])
    } else if starts_at(s, k, seq!['|', '|']) {
        Some(seq!['|', '|'])
    } else if starts_at(s, k, seq!['|']) {
        Some(seq!['|'])
    } else if starts_at(s, k, seq![';']) {
        Some(seq![';'])
    } else {
        None
    }
}

fn following_separator(s: &[char], end: usize) -> (r: Option<String>)
    requires
        end <= s@.len(),
    ensures
        opt_str_view(r) == following_sep(s@, end as int),
{
    let k = skip_whitespace(s, end, s.len());
    let and_and = ['&', '&'];
    let or_or = ['|', '|'];
    let pipe = ['|'];
    let semi = [';'];
    assert(and_and@ =~= seq!['&', '&']);
    assert(or_or@ =~= seq!['|', '|']);
    assert(pipe@ =~= seq!['|']);
    assert(semi@ =~= seq![';']);
    if has_at(s, k, &and_and) {
        Some(crate::text::string_of(&and_and))
    } else if has_at(s, k, &or_or) {
        Some(crate::text::string_of(&or_or))
    } else if has_at(s, k, &pipe) {
        Some(crate::text::string_of(&pipe))
    } else if has_at(s, k, &semi) {
        Some(crate::text::string_of(&semi))
    } else {
        None
    }
}

/// The stage `s[r.0..r.1]`: its text, the unsupported syntax it holds, and
/// the operator that follows it.
pub open spec fn stage_of(stage: StageView, s: Seq<char>, r: (int, int)) -> bool {
    let ranges = unsupported_ranges(s, r.0, r.1);
    &&& stage.text == s.subrange(r.0, r.1)
    &&& spans_mark(stage.spans, s, ranges)
    &&& stage.support == (if ranges.len() == 0 {
        StageSupport::Supported
    } else {
        StageSupport::Unsupported
    })
    &&& stage.separator == following_sep(s, r.1)
}

/// The span that marks the characters `r` of `s`.
pub open spec fn span_view_at(s: Seq<char>, r: (int, int)) -> SpanView {
    SpanView { start: utf8_offset(s, r.0), end: utf8_offset(s, r.1), text: s.subrange(r.0, r.1) }
}

/// The stage `s[r.0..r.1]`, as a value.
pub open spec fn stage_view_at(s: Seq<char>, r: (int, int)) -> StageView {
    let ranges = unsupported_ranges(s, r.0, r.1);
    StageView {
        text: s.subrange(r.0, r.1),
        support: if ranges.len() == 0 {
            StageSupport::Supported
        } else {
            StageSupport::Unsupported
        },
        spans: Seq::new(ranges.len(), |k: int| span_view_at(s, ranges[k])),
        separator: following_sep(s, r.1),
    }
}

/// The stages of `s` at the character ranges `rs`, as values.
pub open spec fn stages_view_at(s: Seq<char>, rs: Seq<(int, int)>) -> Seq<StageView> {
    Seq::new(rs.len(), |k: int| stage_view_at(s, rs[k]))
}

/// The command flow of `s`.
pub open spec fn flow_view(s: Seq<char>) -> Seq<StageView> {
    stages_view_at(s, flow_ranges(s))
}

/// A stage is determined by the command and its range.
pub proof fn lemma_stage_of_unique(st: StageView, s: Seq<char>, r: (int, int))
    requires
        stage_of(st, s, r),
    ensures
        st == stage_view_at(s, r),
{
    let ranges = unsupported_ranges(s, r.0, r.1);
    assert(st.spans =~= Seq::new(ranges.len(), |k: int| span_view_at(s, ranges[k])));
}

/// Stages are determined by the command and their ranges.
pub proof fn lemma_stages_at_unique(f: Seq<StageView>, s: Seq<char>, rs: Seq<(int, int)>)
    requires
        stages_at(f, s, rs),
    ensures
        f == stages_view_at(s, rs),
{
    assert forall|k: int| 0 <= k < rs.len() implies f[k] == stage_view_at(s, rs[k]) by {
        lemma_stage_of_unique(f[k], s, rs[k]);
    }
    assert(f =~= stages_view_at(s, rs));
}

pub(crate) fn stage_at(s: &[char], offsets: &[usize], start: usize, end: usize) -> (stage: CommandStage)
    requires
        start <= end <= s@.len(),
        offsets_of(offsets@, s@),
    ensures
        stage_of(stage@, s@, (start as int, end as int)),
        stage@ == stage_view_at(s@, (start as int, end as int)),
{
    let spans = unsupported_spans(s, offsets, start, end);
    let support = if spans.len() == 0 {
        StageSupport::Supported
    } else {
        StageSupport::Unsupported
    };
    let stage = CommandStage {
        stage_text: string_from(s, start, end),
        support,
        unsupported_spans: spans,
        separator: following_separator(s, end),
    };
    proof {
        lemma_stage_of_unique(stage@, s@, (start as int, end as int));
    }
    stage
}

/// Build a stage from a byte range of the command that starts and ends on
/// character boundaries, with local unsupported-syntax marking.
pub fn command_stage(command: &str, start: usize, end: usize) -> (stage: CommandStage)
    requires
        exists|a: int, b: int|
            0 <= a <= b <= command@.len() && utf8_offset(command@, a) == start && utf8_offset(
                command@,
                b,
            ) == end,
    ensures
        exists|a: int, b: int|
            0 <= a <= b <= command@.len() && utf8_offset(command@, a) == start && utf8_offset(
                command@,
                b,
            ) == end && stage_of(stage@, command@, (a, b)),
{
    let s = chars_of(command);
    let offsets = char_byte_offsets(command);
    proof {
        assert forall|x: int, y: int| 0 <= x < y < offsets@.len() implies offsets@[x]
            < offsets@[y] by {
            lemma_utf8_offset_strict(command@, x, y);
        }
    }
    let a = char_index_of(&offsets, start);
    let b = char_index_of(&offsets, end);
    proof {
        if b < a {
            lemma_utf8_offset_strict(command@, b as int, a as int);
        }
        let ghost ga = choose|x: int, y: int|
            0 <= x <= y <= command@.len() && utf8_offset(command@, x) == start && utf8_offset(
                command@,
                y,
            ) == end;
    }
    stage_at(s.as_slice(), offsets.as_slice(), a, b)
}

proof fn lemma_utf8_offset_strict(s: Seq<char>, a: int, b: int)
    requires
        0 <= a < b <= s.len(),
    ensures
        utf8_offset(s, a) < utf8_offset(s, b),
    decreases b - a,
{
    if a + 1 < b {
        lemma_utf8_offset_strict(s, a, b - 1);
    }
}

/// The character index whose byte offset is `byte`.
fn char_index_of(offsets: &Vec<usize>, byte: usize) -> (i: usize)
    requires
        offsets@.len() >= 1,
        exists|a: int| 0 <= a < offsets@.len() && offsets@[a] == byte,
        forall|a: int, b: int| 0 <= a < b < offsets@.len() ==> offsets@[a] < offsets@[b],
    ensures
        i < offsets@.len(),
        offsets@[i as int] == byte,
{
    let mut i: usize = 0;
    while i < offsets.len()
        invariant
            i <= offsets@.len(),
            exists|a: int| i <= a < offsets@.len() && offsets@[a] == byte,
        decreases offsets@.len() - i,
    {
        if offsets[i] == byte {
            return i;
        }
        i += 1;
    }
    i
}


impl CommandStage {
    pub fn is_supported(&self) -> (b: bool)
        ensures
            b == (self.support == StageSupport::Supported),
    {
        matches!(self.support, StageSupport::Supported)
    }
}

impl CommandFlow {
    /// The text of every stage, in order.
    pub fn stage_texts(&self) -> (texts: Vec<String>)
        ensures
            texts@.len() == self.stages@.len(),
            forall|k: int| 0 <= k < texts@.len() ==> (#[trigger] texts@[k])@ == self.stages@[k].stage_text@,
    {
        let mut texts: Vec<String> = Vec::new();
        let mut k: usize = 0;
        while k < self.stages.len()
            invariant
                k <= self.stages@.len(),
                texts@.len() == k,
                forall|j: int| 0 <= j < k ==> (#[trigger] texts@[j])@ == self.stages@[j].stage_text@,
            decreases self.stages@.len() - k,
        {
            texts.push(self.stages[k].stage_text.clone());
            k += 1;
        }
        texts
    }

    /// Whether any stage holds syntax that the flow view does not decompose.
    pub fn has_unsupported(&self) -> (b: bool)
        ensures
            b == exists|k: int|
                0 <= k < self.stages@.len() && #[trigger] self.stages@[k].support
                    == StageSupport::Unsupported,
    {
        let mut k: usize = 0;
        while k < self.stages.len()
            invariant
                k <= self.stages@.len(),
                forall|j: int|
                    0 <= j < k ==> #[trigger] self.stages@[j].support != StageSupport::Unsupported,
            decreases self.stages@.len() - k,
        {
            if matches!(self.stages[k].support, StageSupport::Unsupported) {
                return true;
            }
            k += 1;
        }
        false
    }
}

pub open spec fn opt_range_seq(o: Option<(int, int)>) -> Seq<(int, int)> {
    match o {
        Some(r) => seq![r],
        None => seq![],
    }
}

/// The stages of one segment: its trimmed text, split before the command
/// that an `xargs` runs.
pub open spec fn segment_stages(s: Seq<char>, seg: (int, int)) -> Seq<(int, int)> {
    match trimmed(s, seg.0, seg.1) {
        None => seq![],
        Some(r) => match xargs_split(s, r.0, r.1) {
            Some(p) => opt_range_seq(trimmed(s, r.0, p)) + opt_range_seq(trimmed(s, p, r.1)),
            None => opt_range_seq(trimmed(s, r.0, r.1)),
        },
    }
}

pub open spec fn flow_ranges_over(s: Seq<char>, segs: Seq<(int, int)>, k: int) -> Seq<(int, int)>
    decreases k,
{
    if k <= 0 {
        seq![]
    } else {
        flow_ranges_over(s, segs, k - 1) + segment_stages(s, segs[k - 1])
    }
}

/// Character ranges of the stages of the command `s`.
pub open spec fn flow_ranges(s: Seq<char>) -> Seq<(int, int)> {
    flow_ranges_over(s, segments(s), segments(s).len() as int)
}

/// `stages` are the stages of `s` at the character ranges `rs`.
pub open spec fn stages_at(stages: Seq<StageView>, s: Seq<char>, rs: Seq<(int, int)>) -> bool {
    &&& stages.len() == rs.len()
    &&& forall|k: int| 0 <= k < rs.len() ==> stage_of(#[trigger] stages[k], s, rs[k])
}

/// A character that separates commands at the top level.
pub open spec fn sep_char(c: char) -> bool {
    c == '|' || c == '&' || c == ';' || c == '\n'
}

/// A character that may stand between stages: whitespace or a separator.
pub open spec fn gap_char(c: char) -> bool {
    crate::text::is_ws(c) || sep_char(c)
}

/// Every stage is a non-empty range of `s` that neither starts nor ends
/// with whitespace, and the stages come in order without overlapping.
pub open spec fn ranges_shaped(s: Seq<char>, rs: Seq<(int, int)>) -> bool {
    &&& forall|k: int|
        0 <= k < rs.len() ==> 0 <= (#[trigger] rs[k]).0 < rs[k].1 <= s.len() && !crate::text::is_ws(s[rs[k].0])
            && !crate::text::is_ws(s[rs[k].1 - 1])
    &&& forall|j: int, k: int| 0 <= j < k < rs.len() ==> (#[trigger] rs[j]).1 <= (#[trigger] rs[k]).0
}

/// Every character of `s[a..b]` is whitespace or a separator.
pub open spec fn gap_between(s: Seq<char>, a: int, b: int) -> bool {
    forall|i: int| a <= i < b ==> #[trigger] gap_char(s[i])
}

/// Up to `end`, every character outside the stages `rs` is whitespace or a
/// separator.
pub open spec fn gapped(s: Seq<char>, rs: Seq<(int, int)>, end: int) -> bool {
    if rs.len() == 0 {
        gap_between(s, 0, end)
    } else {
        &&& gap_between(s, 0, rs[0].0)
        &&& forall|m: int| 0 <= m < rs.len() - 1 ==> gap_between(s, (#[trigger] rs[m]).1, rs[m + 1].0)
        &&& gap_between(s, rs.last().1, end)
    }
}

proof fn lemma_gapped_extend(s: Seq<char>, rs: Seq<(int, int)>, x: int, y: int)
    requires
        gapped(s, rs, x),
        x <= y,
        gap_between(s, x, y),
        rs.len() > 0 ==> rs.last().1 <= x,
    ensures
        gapped(s, rs, y),
{
}

/// Adding the trimmed range of `s[start..end]` keeps the stages shaped and
/// the gaps between them.
proof fn lemma_push_trimmed(s: Seq<char>, rs: Seq<(int, int)>, start: int, end: int)
    requires
        0 <= start <= end <= s.len(),
        ranges_shaped(s, rs),
        forall|j: int| 0 <= j < rs.len() ==> (#[trigger] rs[j]).1 <= start,
        gapped(s, rs, start),
    ensures
        ranges_shaped(s, rs + opt_range_seq(trimmed(s, start, end))),
        forall|j: int|
            0 <= j < (rs + opt_range_seq(trimmed(s, start, end))).len() ==> (#[trigger] (rs + opt_range_seq(
                trimmed(s, start, end),
            ))[j]).1 <= end,
        gapped(s, rs + opt_range_seq(trimmed(s, start, end)), end),
{
    lemma_trimmed(s, start, end);
    lemma_skip_ws(s, start, end);
    let a = skip_ws(s, start, end);
    if rs.len() > 0 {
        assert(rs.last() == rs[rs.len() - 1]);
    }
    match trimmed(s, start, end) {
        None => {
            assert(rs + opt_range_seq(trimmed(s, start, end)) =~= rs);
            assert(gap_between(s, start, end));
            lemma_gapped_extend(s, rs, start, end);
        },
        Some(r) => {
            lemma_trim_end_at(s, a, end);
            let n = rs + seq![r];
            assert(rs + opt_range_seq(trimmed(s, start, end)) =~= n);
            assert(r.0 == a);
            assert forall|k: int| 0 <= k < n.len() implies 0 <= (#[trigger] n[k]).0 < n[k].1 <= s.len()
                && !crate::text::is_ws(s[n[k].0]) && !crate::text::is_ws(s[n[k].1 - 1]) by {
                if k < rs.len() {
                    assert(n[k] == rs[k]);
                }
            }
            assert forall|j: int, k: int| 0 <= j < k < n.len() implies (#[trigger] n[j]).1 <= (#[trigger] n[k]).0 by {
                assert(n[j] == rs[j]);
                if k < rs.len() {
                    assert(n[k] == rs[k]);
                }
            }
            assert(gap_between(s, start, a));
            assert(gap_between(s, r.1, end));
            assert(n.last() == r);
            if rs.len() == 0 {
                assert(n[0] == r);
                assert(gap_between(s, 0, n[0].0));
            } else {
                assert(n[0] == rs[0]);
                assert forall|m: int| 0 <= m < n.len() - 1 implies gap_between(s, (#[trigger] n[m]).1, n[m + 1].0) by {
                    assert(n[m] == rs[m]);
                    if m < rs.len() - 1 {
                        assert(n[m + 1] == rs[m + 1]);
                    } else {
                        assert(n[m + 1] == r);
                        assert(gap_between(s, rs.last().1, start));
                    }
                }
            }
        },
    }
}

/// Every character of `s[a..b]` is a separator character.
pub open spec fn seps_between(s: Seq<char>, a: int, b: int) -> bool {
    forall|i: int| a <= i < b ==> #[trigger] sep_char(s[i])
}

/// Segments begin at `start` and end at the end of `s`, in order, with only
/// separator characters between them.
proof fn lemma_segments_shape(s: Seq<char>, i: int, start: int, st: LexState)
    requires
        0 <= start <= i <= s.len(),
    ensures
        ({
            let all = segments_from(s, i, start, st);
            &&& all.len() > 0
            &&& all[0].0 == start
            &&& all.last().1 == s.len()
            &&& forall|k: int| 0 <= k < all.len() ==> start <= (#[trigger] all[k]).0 <= all[k].1 <= s.len()
            &&& forall|k: int| 0 <= k < all.len() - 1 ==> (#[trigger] all[k]).1 <= all[k + 1].0
            &&& forall|k: int| 0 <= k < all.len() - 1 ==> seps_between(s, (#[trigger] all[k]).1, all[k + 1].0)
        }),
    decreases s.len() - i,
{
    let all = segments_from(s, i, start, st);
    if i < s.len() {
        if is_plain(st, s[i]) && sep_len(s, i) != 0 {
            let n = sep_len(s, i);
            lemma_segments_shape(s, i + n, i + n, st);
            let rest = segments_from(s, i + n, i + n, st);
            assert(all == seq![(start, i)] + rest);
            assert forall|k: int| 0 <= k < all.len() implies start <= (#[trigger] all[k]).0 <= all[k].1 <= s.len() by {
                if k > 0 {
                    assert(all[k] == rest[k - 1]);
                }
            }
            assert forall|k: int| 0 <= k < all.len() - 1 implies (#[trigger] all[k]).1 <= all[k + 1].0 by {
                assert(all[k + 1] == rest[k]);
                if k > 0 {
                    assert(all[k] == rest[k - 1]);
                }
            }
            assert forall|k: int| 0 <= k < all.len() - 1 implies seps_between(s, (#[trigger] all[k]).1, all[k + 1].0) by {
                assert(all[k + 1] == rest[k]);
                if k > 0 {
                    assert(all[k] == rest[k - 1]);
                }
            }
            assert(all.last() == rest.last());
        } else {
            lemma_segments_shape(s, i + 1, start, lex_step(st, s[i]));
        }
    }
}

fn push_stage(
    stages: &mut Vec<CommandStage>,
    s: &[char],
    offsets: &[usize],
    start: usize,
    end: usize,
    Ghost(rs): Ghost<Seq<(int, int)>>,
) -> (out: Ghost<Seq<(int, int)>>)
    requires
        start <= end <= s@.len(),
        offsets_of(offsets@, s@),
        stages_at(stages_view(old(stages)@), s@, rs),
    ensures
        out@ == rs + opt_range_seq(trimmed(s@, start as int, end as int)),
        stages_at(stages_view(final(stages)@), s@, out@),
{
    let ghost added = opt_range_seq(trimmed(s@, start as int, end as int));
    match trimmed_range(s, start, end) {
        None => {
            assert(rs + added =~= rs);
            Ghost(rs)
        },
        Some((a, b)) => {
            let stage = stage_at(s, offsets, a, b);
            let ghost before = stages@;
            stages.push(stage);
            let ghost out = rs.push((a as int, b as int));
            assert(rs + added =~= out);
            assert forall|k: int| 0 <= k < out.len() implies stage_of(
                #[trigger] stages_view(stages@)[k],
                s@,
                out[k],
            ) by {
                assert(stages_view(stages@)[k] == stages@[k]@);
                if k < rs.len() {
                    assert(stages@[k] == before[k]);
                    assert(stages_view(before)[k] == before[k]@);
                }
            }
            Ghost(out)
        },
    }
}

/// Derive only the shell constructs whose boundaries can be identified
/// without evaluating shell grammar. The original command is never
/// rewritten.
#[verifier::rlimit(100)]
pub fn derive_command_flow(command: &str) -> (flow: CommandFlow)
    ensures
        stages_at(flow@, command@, flow_ranges(command@)),
        flow@ == flow_view(command@),
        ranges_shaped(command@, flow_ranges(command@)),
        gapped(command@, flow_ranges(command@), command@.len() as int),
{
    let s = chars_of(command);
    let offsets = char_byte_offsets(command);
    let segs = split_segments(s.as_slice());
    let ghost psegs = pairs_view(segs@);
    proof {
        lemma_segments_shape(s@, 0, 0, lex_start());
    }
    let mut stages: Vec<CommandStage> = Vec::new();
    let ghost mut rs: Seq<(int, int)> = seq![];
    let ghost mut lo: int = 0;
    let mut k: usize = 0;
    while k < segs.len()
        invariant
            k <= segs@.len(),
            s@ == command@,
            offsets_of(offsets@, s@),
            psegs == pairs_view(segs@),
            psegs == segments(s@),
            psegs.len() > 0,
            psegs[0].0 == 0,
            psegs.last().1 == s@.len(),
            forall|j: int| 0 <= j < psegs.len() ==> 0 <= (#[trigger] psegs[j]).0 <= psegs[j].1 <= s@.len(),
            forall|j: int| 0 <= j < psegs.len() - 1 ==> (#[trigger] psegs[j]).1 <= psegs[j + 1].0,
            forall|j: int| 0 <= j < psegs.len() - 1 ==> seps_between(s@, (#[trigger] psegs[j]).1, psegs[j + 1].0),
            forall|j: int| 0 <= j < segs@.len() ==> (#[trigger] segs@[j]).0 <= segs@[j].1 <= s@.len(),
            rs == flow_ranges_over(s@, psegs, k as int),
            stages_at(stages_view(stages@), s@, rs),
            lo == (if k == 0 {
                0
            } else {
                psegs[k - 1].1
            }),
            ranges_shaped(s@, rs),
            forall|j: int| 0 <= j < rs.len() ==> (#[trigger] rs[j]).1 <= lo,
            gapped(s@, rs, lo),
        decreases segs@.len() - k,
    {
        let (seg_start, seg_end) = segs[k];
        assert(psegs[k as int] == (seg_start as int, seg_end as int));
        proof {
            lemma_trimmed(s@, seg_start as int, seg_end as int);
            lemma_skip_ws(s@, seg_start as int, seg_end as int);
            if k > 0 {
                assert(seps_between(s@, psegs[k - 1].1, psegs[k - 1 + 1].0));
                assert(gap_between(s@, lo, seg_start as int));
                assert(lo <= seg_start) by {
                    assert(psegs[k - 1].1 <= psegs[k - 1 + 1].0);
                }
            }
            if rs.len() > 0 {
                assert(rs.last() == rs[rs.len() - 1]);
            }
            lemma_gapped_extend(s@, rs, lo, seg_start as int);
        }
        match trimmed_range(s.as_slice(), seg_start, seg_end) {
            None => {
                assert(rs + segment_stages(s@, psegs[k as int]) =~= rs);
                proof {
                    assert(gap_between(s@, seg_start as int, seg_end as int));
                    lemma_gapped_extend(s@, rs, seg_start as int, seg_end as int);
                }
            },
            Some((a, b)) => {
                proof {
                    lemma_trim_end_at(s@, a as int, seg_end as int);
                    assert(gap_between(s@, seg_start as int, a as int));
                    lemma_gapped_extend(s@, rs, seg_start as int, a as int);
                }
                match xargs_command_split(s.as_slice(), a, b) {
                    Some(p) => {
                        proof {
                            lemma_push_trimmed(s@, rs, a as int, p as int);
                        }
                        let Ghost(r1) = push_stage(&mut stages, s.as_slice(), offsets.as_slice(), a, p, Ghost(rs));
                        proof {
                            lemma_push_trimmed(s@, r1, p as int, b as int);
                        }
                        let Ghost(r2) = push_stage(&mut stages, s.as_slice(), offsets.as_slice(), p, b, Ghost(r1));
                        assert(r2 =~= rs + segment_stages(s@, psegs[k as int]));
                        proof {
                            rs = r2;
                        }
                    },
                    None => {
                        proof {
                            lemma_push_trimmed(s@, rs, a as int, b as int);
                        }
                        let Ghost(r1) = push_stage(&mut stages, s.as_slice(), offsets.as_slice(), a, b, Ghost(rs));
                        assert(r1 =~= rs + segment_stages(s@, psegs[k as int]));
                        proof {
                            rs = r1;
                        }
                    },
                }
                proof {
                    assert(gap_between(s@, b as int, seg_end as int));
                    if rs.len() > 0 {
                        assert(rs.last() == rs[rs.len() - 1]);
                    }
                    lemma_gapped_extend(s@, rs, b as int, seg_end as int);
                }
            },
        }
        proof {
            lo = seg_end as int;
        }
        k += 1;
    }
    let flow = CommandFlow { stages };
    proof {
        lemma_stages_at_unique(flow@, command@, flow_ranges(command@));
        assert(psegs.last() == psegs[psegs.len() - 1]);
    }
    flow
}

} // verus!
