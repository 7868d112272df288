//! The review card: a framed, optionally colored rendering of the review
//! panel state, in a simple and a detailed view.
use vstd::prelude::*;

use crate::review::flow::StageView;
use crate::review::panel::{purpose_of, sanitize_terminal_text, sanitized, InlineLayout, PanelInputMode, ReviewPanelState, PanelView};
use crate::review::response::CandidateView;
use crate::text::{
    chars_of, find_at_or_after, find_from, is_whitespace, is_ws, lemma_find_from, push_char,
    push_str, string_from, string_of,
};

verus! {

pub const MAX_CARD_ROWS: u16 = 18;

/// Pure color-capability decision so tests can exercise every combination
/// without touching the process environment.
pub open spec fn supports_color(no_color: bool, term: Seq<char>, colorterm: bool) -> bool {
    !no_color && term != "dumb"@ && (colorterm || find_from(term, 0, "color"@) is Some)
}

pub fn terminal_supports_color(no_color: bool, term: &str, colorterm: bool) -> (b: bool)
    ensures
        b == supports_color(no_color, term@, colorterm),
{
    if no_color || crate::text::str_eq(term, "dumb") {
        return false;
    }
    if colorterm {
        return true;
    }
    let t = chars_of(term);
    let p = chars_of("color");
    find_at_or_after(t.as_slice(), 0, p.as_slice()).is_some()
}

// ---------------------------------------------------------------------------
// Styling
// ---------------------------------------------------------------------------

/// `text` in the SGR style `code` when `color` is on.
pub open spec fn paint(color: bool, code: Seq<char>, text: Seq<char>) -> Seq<char> {
    if color {
        seq!['\u{1b}', '['] + code + seq!['m'] + text + seq!['\u{1b}', '[', '0', 'm']
    } else {
        text
    }
}

/// The card's palette; styles are emitted only when color is on.
pub struct Ink {
    pub color: bool,
}

impl Ink {
    pub fn new(color: bool) -> (i: Self)
        ensures
            i.color == color,
    {
        Ink { color }
    }

    pub fn paint(&self, code: &str, text: &str) -> (r: String)
        ensures
            r@ == paint(self.color, code@, text@),
    {
        if self.color {
            let mut s = String::new();
            push_char(&mut s, '\u{1b}');
            push_char(&mut s, '[');
            push_str(&mut s, code);
            push_char(&mut s, 'm');
            push_str(&mut s, text);
            push_char(&mut s, '\u{1b}');
            push_char(&mut s, '[');
            push_char(&mut s, '0');
            push_char(&mut s, 'm');
            assert(s@ =~= paint(self.color, code@, text@));
            s
        } else {
            String::from_str(text)
        }
    }

    pub fn border(&self, text: &str) -> (r: String)
        ensures
            r@ == paint(self.color, "38;5;240"@, text@),
    {
        self.paint("38;5;240", text)
    }

    pub fn label(&self, text: &str) -> (r: String)
        ensures
            r@ == paint(self.color, "38;5;81"@, text@),
    {
        self.paint("38;5;81", text)
    }

    pub fn white(&self, text: &str) -> (r: String)
        ensures
            r@ == paint(self.color, "97"@, text@),
    {
        self.paint("97", text)
    }

    pub fn dim(&self, text: &str) -> (r: String)
        ensures
            r@ == paint(self.color, "2"@, text@),
    {
        self.paint("2", text)
    }

    pub fn key(&self, text: &str) -> (r: String)
        ensures
            r@ == paint(self.color, "1;38;5;81"@, text@),
    {
        self.paint("1;38;5;81", text)
    }

    pub fn yellow(&self, text: &str) -> (r: String)
        ensures
            r@ == paint(self.color, "38;5;221"@, text@),
    {
        self.paint("38;5;221", text)
    }

    pub fn green(&self, text: &str) -> (r: String)
        ensures
            r@ == paint(self.color, "38;5;114"@, text@),
    {
        self.paint("38;5;114", text)
    }

    pub fn amber(&self, text: &str) -> (r: String)
        ensures
            r@ == paint(self.color, "38;5;214"@, text@),
    {
        self.paint("38;5;214", text)
    }

    pub fn purpose_marker(&self, text: &str) -> (r: String)
        ensures
            r@ == paint(self.color, "38;5;81"@, text@),
    {
        self.paint("38;5;81", text)
    }

    pub fn purpose(&self, text: &str) -> (r: String)
        ensures
            r@ == paint(self.color, "38;5;252"@, text@),
    {
        self.paint("38;5;252", text)
    }
}

// ---------------------------------------------------------------------------
// Widths
// ---------------------------------------------------------------------------

/// The terminal columns of `c` that `unicode_width` reports (`None` for a
/// control character).
pub uninterp spec fn char_columns(c: char) -> Option<usize>;

/// `unicode_width::UnicodeWidthChar::width`. The contract names the result;
/// beside the name it states what the crate's source shows directly: printable
/// ASCII is one column, C0 and C1 controls have no width, and no character is
/// wider than three columns.
#[verifier::external_body]
fn char_width(c: char) -> (r: Option<usize>)
    ensures
        r == char_columns(c),
        0x20 <= (c as u32) && (c as u32) < 0x7f ==> r == Some(1usize),
        (c as u32) < 0x20 || (0x7f <= (c as u32) && (c as u32) < 0xa0) ==> r is None,
        r matches Some(w) ==> w <= 3,
{
    unicode_width::UnicodeWidthChar::width(c)
}

pub open spec fn columns(c: char) -> int {
    match char_columns(c) {
        Some(w) => w as int,
        None => 0,
    }
}

pub open spec fn is_ascii_alpha(c: char) -> bool {
    ('a' <= c && c <= 'z') || ('A' <= c && c <= 'Z')
}

/// Visible width of `s` in columns: an escape character and what follows it
/// up to and including the next ASCII letter take no columns. The result is
/// (inside an escape, width); the width saturates at the largest `usize`.
pub open spec fn visible_run(s: Seq<char>) -> (bool, int)
    decreases s.len(),
{
    if s.len() == 0 {
        (false, 0)
    } else {
        let before = visible_run(s.drop_last());
        let c = s.last();
        if before.0 {
            (!is_ascii_alpha(c), before.1)
        } else if c == '\u{1b}' {
            (true, before.1)
        } else {
            (false, saturated(before.1 + columns(c)))
        }
    }
}

/// `x`, capped at the largest `usize`.
pub open spec fn saturated(x: int) -> int {
    if x > usize::MAX {
        usize::MAX as int
    } else {
        x
    }
}

pub open spec fn visible_width(s: Seq<char>) -> int {
    visible_run(s).1
}

/// Visible width of a (possibly styled) string.
pub fn visible_len(value: &str) -> (w: usize)
    ensures
        w as int == visible_width(value@),
{
    let chars = chars_of(value);
    let mut width: usize = 0;
    let mut escaped = false;
    let mut k: usize = 0;
    while k < chars.len()
        invariant
            k <= chars@.len(),
            chars@ == value@,
            (escaped, width as int) == visible_run(chars@.take(k as int)),
        decreases chars@.len() - k,
    {
        let ghost prefix = chars@.take(k as int);
        assert(chars@.take(k + 1).drop_last() =~= prefix);
        assert(chars@.take(k + 1).last() == chars@[k as int]);
        let c = chars[k];
        if escaped {
            escaped = !(('a' <= c && c <= 'z') || ('A' <= c && c <= 'Z'));
        } else if c == '\u{1b}' {
            escaped = true;
        } else {
            let w: usize = match char_width(c) {
                Some(w) => w,
                None => 0,
            };
            width = width.saturating_add(w);
        }
        k += 1;
    }
    assert(chars@.take(chars@.len() as int) =~= chars@);
    width
}


pub open spec fn spaces(n: int) -> Seq<char> {
    Seq::new(n as nat, |i: int| ' ')
}

/// `value` padded with spaces to `width` visible columns.
pub open spec fn padded(value: Seq<char>, width: int) -> Seq<char> {
    if visible_width(value) < width {
        value + spaces(width - visible_width(value))
    } else {
        value
    }
}

pub fn pad_to(value: &str, width: usize) -> (r: String)
    ensures
        r@ == padded(value@, width as int),
{
    let mut padded_value = String::from_str(value);
    let visible = visible_len(value);
    if visible < width {
        let mut k: usize = 0;
        let n = width - visible;
        while k < n
            invariant
                k <= n,
                n == width - visible,
                visible as int == visible_width(value@),
                padded_value@ == value@ + spaces(k as int),
            decreases n - k,
        {
            push_char(&mut padded_value, ' ');
            assert(value@ + spaces(k + 1) =~= (value@ + spaces(k as int)).push(' '));
            k += 1;
        }
    }
    padded_value
}

/// `value` cut to `width` characters, the last one an ellipsis when cut.
pub open spec fn ellipsized(value: Seq<char>, width: int) -> Seq<char> {
    if width <= 0 {
        seq![]
    } else if value.len() <= width {
        value
    } else {
        value.take(width - 1).push('\u{2026}')
    }
}

pub fn ellipsize(value: &str, width: usize) -> (r: String)
    ensures
        r@ == ellipsized(value@, width as int),
{
    if width == 0 {
        return String::new();
    }
    let chars = chars_of(value);
    if chars.len() <= width {
        return String::from_str(value);
    }
    let mut truncated = string_from(chars.as_slice(), 0, width - 1);
    push_char(&mut truncated, '\u{2026}');
    assert(truncated@ =~= chars@.take(width - 1).push('\u{2026}'));
    truncated
}

/// State of the styled ellipsis: 0 copying text, 1 inside an escape, 2 done.
pub open spec fn ellipsis_run(s: Seq<char>, width: int) -> (int, int, Seq<char>)
    decreases s.len(),
{
    if s.len() == 0 {
        (0, 0, seq![])
    } else {
        let before = ellipsis_run(s.drop_last(), width);
        let c = s.last();
        let (mode, visible, out) = before;
        if mode == 2 {
            before
        } else if mode == 1 {
            (if is_ascii_alpha(c) {
                0
            } else {
                1
            }, visible, out.push(c))
        } else if c == '\u{1b}' {
            (1, visible, out.push(c))
        } else if visible + 1 < width {
            (0, visible + 1, out.push(c))
        } else {
            (2, visible, out.push('\u{2026}'))
        }
    }
}

/// A styled value cut to `width` visible columns, escape sequences kept.
pub open spec fn ellipsized_visible(value: Seq<char>, width: int) -> Seq<char> {
    if visible_width(value) <= width {
        value
    } else {
        ellipsis_run(value, width).2
    }
}

/// Ellipsize a styled value by visible width, preserving escape sequences.
pub fn ellipsize_visible(value: &str, width: usize) -> (r: String)
    ensures
        r@ == ellipsized_visible(value@, width as int),
{
    if visible_len(value) <= width {
        return String::from_str(value);
    }
    let chars = chars_of(value);
    let mut result = String::new();
    let mut visible: usize = 0;
    let mut mode: u8 = 0;
    let mut k: usize = 0;
    while k < chars.len()
        invariant
            k <= chars@.len(),
            chars@ == value@,
            visible <= k,
            (mode as int, visible as int, result@) == ellipsis_run(chars@.take(k as int), width as int),
        decreases chars@.len() - k,
    {
        let ghost prefix = chars@.take(k as int);
        assert(chars@.take(k + 1).drop_last() =~= prefix);
        assert(chars@.take(k + 1).last() == chars@[k as int]);
        let c = chars[k];
        if mode == 2 {
        } else if mode == 1 {
            push_char(&mut result, c);
            if ('a' <= c && c <= 'z') || ('A' <= c && c <= 'Z') {
                mode = 0;
            }
        } else if c == '\u{1b}' {
            push_char(&mut result, c);
            mode = 1;
        } else if visible + 1 < width {
            push_char(&mut result, c);
            visible = visible + 1;
        } else {
            push_char(&mut result, '\u{2026}');
            mode = 2;
        }
        k += 1;
    }
    assert(chars@.take(chars@.len() as int) =~= chars@);
    result
}

// ---------------------------------------------------------------------------
// Words
// ---------------------------------------------------------------------------

/// `str::split_whitespace`, as (words so far, word in progress).
pub open spec fn words_run(s: Seq<char>) -> (Seq<Seq<char>>, Seq<char>)
    decreases s.len(),
{
    if s.len() == 0 {
        (seq![], seq![])
    } else {
        let (words, cur) = words_run(s.drop_last());
        let c = s.last();
        if is_ws(c) {
            if cur.len() > 0 {
                (words.push(cur), seq![])
            } else {
                (words, cur)
            }
        } else {
            (words, cur.push(c))
        }
    }
}

/// The whitespace-separated words of `s`.
pub open spec fn words(s: Seq<char>) -> Seq<Seq<char>> {
    let (w, cur) = words_run(s);
    if cur.len() > 0 {
        w.push(cur)
    } else {
        w
    }
}

/// The words of `s`, each non-empty.
pub fn split_words(s: &str) -> (r: Vec<String>)
    ensures
        crate::text::views_of(r@) == words(s@),
        forall|k: int| 0 <= k < r@.len() ==> (#[trigger] r@[k])@.len() > 0,
{
    let chars = chars_of(s);
    let mut out: Vec<String> = Vec::new();
    let mut cur: Vec<char> = Vec::new();
    let mut k: usize = 0;
    while k < chars.len()
        invariant
            k <= chars@.len(),
            chars@ == s@,
            (crate::text::views_of(out@), cur@) == words_run(chars@.take(k as int)),
            forall|j: int| 0 <= j < out@.len() ==> (#[trigger] out@[j])@.len() > 0,
        decreases chars@.len() - k,
    {
        let ghost prefix = chars@.take(k as int);
        assert(chars@.take(k + 1).drop_last() =~= prefix);
        assert(chars@.take(k + 1).last() == chars@[k as int]);
        let c = chars[k];
        if is_whitespace(c) {
            if cur.len() > 0 {
                let w = string_of(cur.as_slice());
                let ghost before = out@;
                out.push(w);
                assert(crate::text::views_of(out@) =~= crate::text::views_of(before).push(cur@));
                cur = Vec::new();
            }
        } else {
            cur.push(c);
        }
        k += 1;
    }
    assert(chars@.take(chars@.len() as int) =~= chars@);
    if cur.len() > 0 {
        let w = string_of(cur.as_slice());
        let ghost before = out@;
        out.push(w);
        assert(crate::text::views_of(out@) =~= crate::text::views_of(before).push(cur@));
    }
    out
}

/// The full `width`-character pieces of a word too long for a row.
pub open spec fn full_chunks(w: Seq<char>, width: int) -> Seq<Seq<char>>
    decreases w.len(),
{
    if width <= 0 || w.len() <= width {
        seq![]
    } else {
        seq![w.take(width)] + full_chunks(w.skip(width), width)
    }
}

/// What is left of a word after its full pieces.
pub open spec fn chunk_tail(w: Seq<char>, width: int) -> Seq<char>
    decreases w.len(),
{
    if width <= 0 || w.len() <= width {
        w
    } else {
        chunk_tail(w.skip(width), width)
    }
}

/// One word laid into (rows, current row).
pub open spec fn place_word(rows: Seq<Seq<char>>, cur: Seq<char>, word: Seq<char>, width: int) -> (
    Seq<Seq<char>>,
    Seq<char>,
) {
    let projected = if cur.len() == 0 {
        word.len() as int
    } else {
        (cur.len() + 1 + word.len()) as int
    };
    if projected <= width {
        (rows, if cur.len() == 0 {
            word
        } else {
            cur + seq![' '] + word
        })
    } else {
        let rows1 = if cur.len() > 0 {
            rows.push(cur)
        } else {
            rows
        };
        if word.len() <= width {
            (rows1, word)
        } else {
            (rows1 + full_chunks(word, width), chunk_tail(word, width))
        }
    }
}

pub open spec fn place_words(ws: Seq<Seq<char>>, width: int) -> (Seq<Seq<char>>, Seq<char>)
    decreases ws.len(),
{
    if ws.len() == 0 {
        (seq![], seq![])
    } else {
        let (rows, cur) = place_words(ws.drop_last(), width);
        place_word(rows, cur, ws.last(), width)
    }
}

/// Word-aware rows of `text` at `width` (at least one) characters.
pub open spec fn stage_rows(text: Seq<char>, width: int) -> Seq<Seq<char>> {
    let w = if width < 1 {
        1
    } else {
        width
    };
    let (rows, cur) = place_words(words(text), w);
    if cur.len() > 0 || rows.len() == 0 {
        rows.push(cur)
    } else {
        rows
    }
}

fn chunk_word(rows: &mut Vec<String>, word: &Vec<char>, width: usize) -> (tail: Vec<char>)
    requires
        width >= 1,
    ensures
        crate::text::views_of(final(rows)@) == crate::text::views_of(old(rows)@) + full_chunks(
            word@,
            width as int,
        ),
        tail@ == chunk_tail(word@, width as int),
{
    let mut start: usize = 0;
    let ghost base = crate::text::views_of(rows@);
    assert(word@.skip(0) =~= word@);
    while word.len() - start > width
        invariant
            start <= word@.len(),
            width >= 1,
            base + full_chunks(word@, width as int) == crate::text::views_of(rows@) + full_chunks(
                word@.skip(start as int),
                width as int,
            ),
            chunk_tail(word@, width as int) == chunk_tail(word@.skip(start as int), width as int),
        decreases word@.len() - start,
    {
        let ghost rest = word@.skip(start as int);
        let piece = string_from(word.as_slice(), start, start + width);
        assert(piece@ =~= rest.take(width as int));
        assert(rest.skip(width as int) =~= word@.skip(start + width));
        let ghost before = rows@;
        rows.push(piece);
        assert(crate::text::views_of(rows@) =~= crate::text::views_of(before).push(piece@));
        assert(full_chunks(rest, width as int) =~= seq![rest.take(width as int)] + full_chunks(
            rest.skip(width as int),
            width as int,
        ));
        assert(crate::text::views_of(before) + full_chunks(rest, width as int) =~= crate::text::views_of(rows@)
            + full_chunks(word@.skip(start + width), width as int));
        start = start + width;
    }
    let ghost rest = word@.skip(start as int);
    assert(full_chunks(rest, width as int) =~= Seq::<Seq<char>>::empty());
    assert(crate::text::views_of(rows@) + Seq::<Seq<char>>::empty() =~= crate::text::views_of(rows@));
    let mut tail: Vec<char> = Vec::new();
    let mut k: usize = start;
    while k < word.len()
        invariant
            start <= k <= word@.len(),
            tail@ == word@.subrange(start as int, k as int),
        decreases word@.len() - k,
    {
        tail.push(word[k]);
        assert(word@.subrange(start as int, k + 1) =~= word@.subrange(start as int, k as int).push(
            word@[k as int],
        ));
        k += 1;
    }
    assert(tail@ =~= rest);
    tail
}

/// Word-aware wrapping for one stage. A single word wider than the row is
/// hard-split at a character boundary so the row width stays exact.
pub fn wrap_stage(text: &str, width: usize) -> (r: Vec<String>)
    ensures
        crate::text::views_of(r@) == stage_rows(text@, width as int),
{
    let width: usize = if width < 1 {
        1
    } else {
        width
    };
    let ws = split_words(text);
    let ghost wsv = crate::text::views_of(ws@);
    let mut rows: Vec<String> = Vec::new();
    let mut current: Vec<char> = Vec::new();
    let mut k: usize = 0;
    assert(wsv.take(0) =~= Seq::<Seq<char>>::empty());
    assert(crate::text::views_of(rows@) =~= Seq::<Seq<char>>::empty());
    while k < ws.len()
        invariant
            k <= ws@.len(),
            width >= 1,
            wsv == crate::text::views_of(ws@),
            wsv == words(text@),
            (crate::text::views_of(rows@), current@) == place_words(wsv.take(k as int), width as int),
        decreases ws@.len() - k,
    {
        assert(wsv.take(k + 1).drop_last() =~= wsv.take(k as int));
        assert(wsv.take(k + 1).last() == ws@[k as int]@);
        let word = chars_of(ws[k].as_str());
        let word_len = word.len();
        let cur_len = current.len();
        let fits = if cur_len == 0 {
            word_len <= width
        } else {
            cur_len < width && word_len <= width - cur_len - 1
        };
        if fits {
            if cur_len > 0 {
                current.push(' ');
            }
            let ghost before = current@;
            let mut j: usize = 0;
            while j < word.len()
                invariant
                    j <= word@.len(),
                    current@ == before + word@.take(j as int),
                decreases word@.len() - j,
            {
                current.push(word[j]);
                assert(word@.take(j + 1) =~= word@.take(j as int).push(word@[j as int]));
                j += 1;
            }
            assert(word@.take(word@.len() as int) =~= word@);
            proof {
                if cur_len == 0 {
                    assert(current@ =~= word@);
                } else {
                    assert(before =~= place_words(wsv.take(k as int), width as int).1 + seq![' ']);
                }
            }
        } else {
            if cur_len > 0 {
                let row = string_of(current.as_slice());
                let ghost before = rows@;
                rows.push(row);
                assert(crate::text::views_of(rows@) =~= crate::text::views_of(before).push(row@));
            }
            if word_len <= width {
                current = word;
            } else {
                current = chunk_word(&mut rows, &word, width);
            }
        }
        k += 1;
    }
    assert(wsv.take(ws@.len() as int) =~= wsv);
    if current.len() > 0 || rows.len() == 0 {
        let row = string_of(current.as_slice());
        let ghost before = rows@;
        rows.push(row);
        assert(crate::text::views_of(rows@) =~= crate::text::views_of(before).push(row@));
    }
    rows
}


// ---------------------------------------------------------------------------
// Short texts
// ---------------------------------------------------------------------------

/// The user-facing instruction printed on stderr before a permanently released
/// candidate. The escaped version is only used on a color-capable terminal.
pub open spec fn hint_text(use_color: bool) -> Seq<char> {
    if use_color {
        paint(true, "1;38;5;214"@, "\u{26a0} review panel disabled"@) + " \u{2014} re-enable with: "@
            + paint(true, "1;97"@, "watn --review-panel"@)
    } else {
        "\u{26a0} review panel disabled"@ + " \u{2014} re-enable with: "@ + "watn --review-panel"@
    }
}

pub fn disable_hint(use_color: bool) -> (r: String)
    ensures
        r@ == hint_text(use_color),
{
    let ink = Ink::new(use_color);
    let label = "\u{26a0} review panel disabled";
    let command = "watn --review-panel";
    if use_color {
        let mut s = Ink::new(true).paint("1;38;5;214", label);
        push_str(&mut s, " \u{2014} re-enable with: ");
        let c = Ink::new(true).paint("1;97", command);
        push_str(&mut s, c.as_str());
        s
    } else {
        let mut s = String::from_str(label);
        push_str(&mut s, " \u{2014} re-enable with: ");
        push_str(&mut s, command);
        s
    }
}

/// The model label used by the simple view: the last `/`-separated identifier
/// segment, without a leading routing marker or a `:` variant suffix.
pub open spec fn short_model(model: Seq<char>) -> Seq<char> {
    let last = match crate::text::rfind_char(model, '/') {
        Some(k) => model.skip(k + 1),
        None => model,
    };
    let bare = if last.len() > 0 && last[0] == '~' {
        last.skip(1)
    } else {
        last
    };
    let short = match find_from(bare, 0, seq![':']) {
        Some(j) => bare.take(j),
        None => bare,
    };
    if short.len() == 0 {
        model
    } else {
        short
    }
}

pub fn model_short_name(model: &str) -> (r: String)
    ensures
        r@ == short_model(model@),
{
    let m = chars_of(model);
    let ml = m.len();
    let start: usize = match crate::text::rfind_char_in(m.as_slice(), '/') {
        Some(k) => k + 1,
        None => 0,
    };
    proof {
        if start == 0 {
            assert(m@.skip(0) =~= m@);
        }
    }
    let ghost last = m@.skip(start as int);
    let from: usize = if start < m.len() && m[start] == '~' {
        start + 1
    } else {
        start
    };
    assert(m@.skip(from as int) =~= (if last.len() > 0 && last[0] == '~' {
        last.skip(1)
    } else {
        last
    }));
    let mut colon: Vec<char> = Vec::new();
    colon.push(':');
    assert(colon@ =~= seq![':']);
    let bare = string_from(m.as_slice(), from, m.len());
    let b = chars_of(bare.as_str());
    assert(b@ =~= m@.skip(from as int));
    proof {
        lemma_find_from(b@, 0, colon@);
    }
    let end: usize = match find_at_or_after(b.as_slice(), 0, colon.as_slice()) {
        Some(j) => j,
        None => b.len(),
    };
    let short = string_from(b.as_slice(), 0, end);
    assert(b@.take(b@.len() as int) =~= b@);
    assert(short@ =~= b@.take(end as int));
    if end == 0 {
        String::from_str(model)
    } else {
        short
    }
}

/// The style of one command token.
pub open spec fn token_style(color: bool, t: Seq<char>) -> Seq<char> {
    if t == "|"@ || t == "||"@ || t == "&&"@ || t == ";"@ || t == "&"@ {
        paint(color, "38;5;240"@, t)
    } else if t.len() > 0 && t[0] == '-' {
        paint(color, "38;5;221"@, t)
    } else if t.len() > 0 && (t[0] == '\'' || t[0] == '"') {
        paint(color, "38;5;114"@, t)
    } else {
        paint(color, "97"@, t)
    }
}

/// A command with each word styled by its role, joined by single spaces.
pub open spec fn colorized(color: bool, command: Seq<char>) -> Seq<char> {
    let ws = words(command);
    crate::text::join(Seq::new(ws.len(), |i: int| token_style(color, ws[i])), " "@)
}

fn style_token(ink: &Ink, token: &str) -> (r: String)
    ensures
        r@ == token_style(ink.color, token@),
{
    let t = chars_of(token);
    if crate::text::str_eq(token, "|") || crate::text::str_eq(token, "||") || crate::text::str_eq(
        token,
        "&&",
    ) || crate::text::str_eq(token, ";") || crate::text::str_eq(token, "&") {
        ink.border(token)
    } else if t.len() > 0 && t[0] == '-' {
        ink.yellow(token)
    } else if t.len() > 0 && (t[0] == '\'' || t[0] == '"') {
        ink.green(token)
    } else {
        ink.white(token)
    }
}

pub fn colorize_command(command: &str, ink: &Ink) -> (r: String)
    ensures
        r@ == colorized(ink.color, command@),
{
    let ws = split_words(command);
    let ghost wv = crate::text::views_of(ws@);
    let mut styled: Vec<String> = Vec::new();
    let mut k: usize = 0;
    while k < ws.len()
        invariant
            k <= ws@.len(),
            wv == crate::text::views_of(ws@),
            wv == words(command@),
            crate::text::views_of(styled@) == Seq::new(k as nat, |i: int| token_style(ink.color, wv[i])),
        decreases ws@.len() - k,
    {
        let t = style_token(ink, ws[k].as_str());
        let ghost before = styled@;
        styled.push(t);
        assert(crate::text::views_of(styled@) =~= crate::text::views_of(before).push(t@));
        assert(crate::text::views_of(styled@) =~= Seq::new((k + 1) as nat, |i: int| token_style(ink.color, wv[i])));
        k += 1;
    }
    crate::text::join_strings(styled.as_slice(), " ")
}


// ---------------------------------------------------------------------------
// Card pieces
// ---------------------------------------------------------------------------

/// The purpose shown for the selected stage.
pub fn purpose_text(state: &ReviewPanelState) -> (r: String)
    ensures
        r@ == purpose_of(state.candidate@, state.flow_stage as int),
{
    let c = &state.candidate;
    let i = state.flow_stage;
    if i < c.stages.len() {
        match &c.stages[i].purpose {
            Some(p) => return sanitize_terminal_text(p.as_str()),
            None => {},
        }
    }
    String::from_str(c.purpose_status.label())
}

/// The header's right-hand label: tier, provider and model in the detailed
/// view, the short model name in the simple one.
pub open spec fn header_text(v: PanelView, detailed: bool) -> Seq<char> {
    if detailed {
        "\u{25c6} tier "@ + v.context.tier + " \u{b7} "@ + v.context.provider + "/"@ + v.context.model
    } else {
        "\u{25c6} "@ + short_model(v.context.model)
    }
}

fn cat(a: &str, b: &str) -> (r: String)
    ensures
        r@ == a@ + b@,
{
    let mut s = String::from_str(a);
    push_str(&mut s, b);
    s
}

pub fn header_right(state: &ReviewPanelState, detailed: bool) -> (r: String)
    ensures
        r@ == header_text(state@, detailed),
{
    if detailed {
        let s = cat("\u{25c6} tier ", state.context.tier.as_str());
        let s = cat(s.as_str(), " \u{b7} ");
        let s = cat(s.as_str(), state.context.provider.as_str());
        let s = cat(s.as_str(), "/");
        cat(s.as_str(), state.context.model.as_str())
    } else {
        let short = model_short_name(state.context.model.as_str());
        cat("\u{25c6} ", short.as_str())
    }
}

/// The row group of one stage: the selected stage carries an amber arrow,
/// the text wraps word-aware, and the operator that joined the stage to the
/// next one closes its last row in amber.
pub open spec fn group_rows(color: bool, st: StageView, selected: bool, text_width: int) -> Seq<Seq<char>> {
    let reserve = match st.separator {
        Some(sep) => sep.len() + 1,
        None => 0,
    };
    let ww = if text_width - reserve < 1 {
        1
    } else {
        text_width - reserve
    };
    let rows = stage_rows(st.text, ww);
    Seq::new(rows.len(), |i: int| group_row(color, st, selected, rows, i))
}

pub open spec fn group_row(
    color: bool,
    st: StageView,
    selected: bool,
    rows: Seq<Seq<char>>,
    i: int,
) -> Seq<char> {
    (if i == 0 && selected {
        "  "@ + paint(color, "38;5;214"@, "\u{25b6}"@) + " "@
    } else {
        "    "@
    }) + colorized(color, rows[i]) + (if i == rows.len() - 1 && st.separator is Some {
        " "@ + paint(color, "38;5;214"@, st.separator->0)
    } else {
        Seq::<char>::empty()
    })
}

pub fn stage_group_rows(state: &ReviewPanelState, index: usize, text_width: usize, ink: &Ink) -> (r: Vec<String>)
    requires
        index < state.candidate.flow.stages@.len(),
    ensures
        crate::text::views_of(r@) == group_rows(
            ink.color,
            state.candidate@.flow[index as int],
            index == state.flow_stage,
            text_width as int,
        ),
{
    let stage = &state.candidate.flow.stages[index];
    let ghost st = state.candidate@.flow[index as int];
    assert(st == stage@);
    let selected = index == state.flow_stage;
    let reserve: usize = match &stage.separator {
        Some(sep) => {
            let n = chars_of(sep.as_str()).len();
            if n < usize::MAX {
                n + 1
            } else {
                usize::MAX
            }
        },
        None => 0,
    };
    let wrap_width: usize = if text_width <= reserve || text_width - reserve < 1 {
        1
    } else {
        text_width - reserve
    };
    let wrapped = wrap_stage(stage.stage_text.as_str(), wrap_width);
    let ghost rows = crate::text::views_of(wrapped@);
    let last_index = if wrapped.len() == 0 {
        0
    } else {
        wrapped.len() - 1
    };
    let mut out: Vec<String> = Vec::new();
    let mut i: usize = 0;
    while i < wrapped.len()
        invariant
            i <= wrapped@.len(),
            rows == crate::text::views_of(wrapped@),
            st == stage@,
            last_index as int == (if wrapped@.len() == 0 {
                0
            } else {
                wrapped@.len() - 1
            }),
            crate::text::views_of(out@) == Seq::new(i as nat, |x: int| group_row(ink.color, st, selected, rows, x)),
        decreases wrapped@.len() - i,
    {
        let mut line = if i == 0 && selected {
            let a = ink.amber("\u{25b6}");
            let l = cat("  ", a.as_str());
            cat(l.as_str(), " ")
        } else {
            String::from_str("    ")
        };
        let colored = colorize_command(wrapped[i].as_str(), ink);
        push_str(&mut line, colored.as_str());
        if i == last_index {
            match &stage.separator {
                Some(sep) => {
                    push_str(&mut line, " ");
                    let a = ink.amber(sep.as_str());
                    push_str(&mut line, a.as_str());
                },
                None => {},
            }
        }
        assert(line@ =~= group_row(ink.color, st, selected, rows, i as int));
        let ghost before = out@;
        out.push(line);
        assert(crate::text::views_of(out@) =~= crate::text::views_of(before).push(out@[i as int]@));
        assert(crate::text::views_of(out@) =~= Seq::new((i + 1) as nat, |x: int| group_row(ink.color, st, selected, rows, x)));
        i += 1;
    }
    out
}

pub open spec fn hidden_marker(color: bool) -> Seq<char> {
    "    "@ + paint(color, "2"@, "\u{22ee}"@)
}

fn hidden_marker_row(ink: &Ink) -> (r: String)
    ensures
        r@ == hidden_marker(ink.color),
{
    let d = ink.dim("\u{22ee}");
    cat("    ", d.as_str())
}


/// The number of rows of the groups `lo..hi`.
pub open spec fn rows_between(h: Seq<usize>, lo: int, hi: int) -> int
    decreases hi - lo,
{
    if hi <= lo {
        0
    } else {
        rows_between(h, lo, hi - 1) + h[hi - 1]
    }
}

proof fn lemma_rows_between_low(h: Seq<usize>, lo: int, hi: int)
    requires
        lo < hi,
    ensures
        rows_between(h, lo - 1, hi) == rows_between(h, lo, hi) + h[lo - 1],
    decreases hi - lo,
{
    if lo < hi - 1 {
        lemma_rows_between_low(h, lo, hi - 1);
        assert(rows_between(h, lo - 1, hi) == rows_between(h, lo - 1, hi - 1) + h[hi - 1]);
        assert(rows_between(h, lo, hi) == rows_between(h, lo, hi - 1) + h[hi - 1]);
    } else {
        assert(rows_between(h, lo - 1, lo) == rows_between(h, lo - 1, lo - 1) + h[lo - 1]);
        assert(rows_between(h, lo - 1, hi) == rows_between(h, lo - 1, lo) + h[lo]);
        assert(rows_between(h, lo, hi) == rows_between(h, lo, lo) + h[lo]);
    }
}

/// The row groups of every stage, in order.
pub open spec fn stage_groups(state: ReviewPanelState, text_width: int, color: bool) -> Seq<Seq<Seq<char>>> {
    Seq::new(
        state.candidate@.flow.len(),
        |i: int| group_rows(color, state.candidate@.flow[i], i == state.flow_stage, text_width),
    )
}

/// One round of widening the window `lo..hi` of groups: first a group above
/// joins when it fits with its markers, then one below.
pub open spec fn widen(g: Seq<Seq<Seq<char>>>, budget: int, lo: int, hi: int, used: int) -> (int, int, int, bool) {
    let n = g.len() as int;
    let up = lo > 0 && used + g[lo - 1].len() + 1 + (if hi < n {
        1int
    } else {
        0int
    }) <= budget;
    let lo1 = if up {
        lo - 1
    } else {
        lo
    };
    let used1 = if up {
        used + g[lo - 1].len()
    } else {
        used
    };
    let down = hi < n && used1 + g[hi].len() + (if lo1 > 0 {
        1int
    } else {
        0int
    }) + (if hi + 1 < n {
        1int
    } else {
        0int
    }) <= budget;
    let hi1 = if down {
        hi + 1
    } else {
        hi
    };
    let used2 = if down {
        used1 + g[hi].len()
    } else {
        used1
    };
    (lo1, hi1, used2, up || down)
}

/// The window of groups shown: widened round by round until no group fits.
pub open spec fn window(g: Seq<Seq<Seq<char>>>, budget: int, lo: int, hi: int, used: int) -> (int, int)
    decreases (if 0 <= lo && hi <= g.len() {
        lo + g.len() - hi
    } else {
        0
    }),
{
    let (lo1, hi1, used1, expanded) = widen(g, budget, lo, hi, used);
    if expanded && 0 <= lo1 && hi1 <= g.len() && 0 <= lo && hi <= g.len() && lo1 + g.len() - hi1 < lo + g.len()
        - hi {
        window(g, budget, lo1, hi1, used1)
    } else {
        (lo, hi)
    }
}

/// The rows of the groups `lo..hi`, in order.
pub open spec fn flat(g: Seq<Seq<Seq<char>>>, lo: int, hi: int) -> Seq<Seq<char>>
    decreases hi - lo,
{
    if hi <= lo {
        seq![]
    } else {
        flat(g, lo, hi - 1) + g[hi - 1]
    }
}

/// The rows of the stage stack within a row budget: the selected stage's
/// group alone, cut to the budget with `…`, when it does not fit; else the
/// widest window around it, with a marker for each hidden side.
pub open spec fn stack_rows(state: ReviewPanelState, text_width: int, budget: int, color: bool) -> Seq<Seq<char>> {
    let g = stage_groups(state, text_width, color);
    let n = g.len() as int;
    if n == 0 {
        seq!["    "@ + paint(color, "2"@, "no flow stages"@)]
    } else {
        let sel = if state.flow_stage < n - 1 {
            state.flow_stage as int
        } else {
            n - 1
        };
        let b = if budget < 1 {
            1
        } else {
            budget
        };
        if g[sel].len() > b {
            let t = g[sel].take(b);
            t.update(b - 1, t[b - 1].push('\u{2026}'))
        } else {
            let (lo, hi) = window(g, b, sel, sel + 1, g[sel].len() as int);
            (if lo > 0 {
                seq![hidden_marker(color)]
            } else {
                seq![]
            }) + flat(g, lo, hi) + (if hi < n {
                seq![hidden_marker(color)]
            } else {
                seq![]
            })
        }
    }
}

/// Widen the window around `selected` as far as the budget allows.
fn window_bounds(heights: &Vec<usize>, Ghost(gs): Ghost<Seq<Seq<Seq<char>>>>, selected: usize, budget: usize) -> (r: (usize, usize))
    requires
        heights@.len() == gs.len(),
        forall|i: int| 0 <= i < gs.len() ==> #[trigger] gs[i].len() == heights@[i],
        selected < heights@.len(),
        heights@[selected as int] <= budget,
    ensures
        (r.0 as int, r.1 as int) == window(gs, budget as int, selected as int, selected + 1, heights@[selected as int] as int),
        r.0 <= selected < r.1 <= heights@.len(),
        rows_between(heights@, r.0 as int, r.1 as int) <= budget,
{
    let count = heights.len();
    let mut lo = selected;
    let mut hi = selected + 1;
    let mut used = heights[selected];
    let ghost target = window(gs, budget as int, selected as int, selected + 1, heights@[selected as int] as int);
    assert(rows_between(heights@, lo as int, hi as int) == rows_between(heights@, lo as int, lo as int) + heights@[lo as int]);
    loop
        invariant
            lo <= selected < hi <= count,
            count == heights@.len(),
            gs.len() == count,
            forall|i: int| 0 <= i < count ==> #[trigger] gs[i].len() == heights@[i],
            used <= budget,
            used as int == rows_between(heights@, lo as int, hi as int),
            window(gs, budget as int, lo as int, hi as int, used as int) == target,
        ensures
            lo <= selected < hi <= count,
            used <= budget,
            used as int == rows_between(heights@, lo as int, hi as int),
            target == (lo as int, hi as int),
        decreases lo + (count - hi),
    {
        let ghost (wlo, whi, wused, wexp) = widen(gs, budget as int, lo as int, hi as int, used as int);
        let ghost lo0 = lo as int;
        let ghost hi0 = hi as int;
        let ghost used0 = used as int;
        let mut expanded = false;
        if lo > 0 {
            let edge: usize = 1 + if hi < count {
                1
            } else {
                0
            };
            let h = heights[lo - 1];
            assert(gs[lo - 1].len() == h);
            if h <= budget && edge <= budget - h && used <= budget - h - edge {
                proof {
                    lemma_rows_between_low(heights@, lo as int, hi as int);
                }
                lo = lo - 1;
                used = used + h;
                expanded = true;
            }
        }
        if hi < count {
            let edge: usize = (if lo > 0 {
                1
            } else {
                0
            }) + if hi + 1 < count {
                1
            } else {
                0
            };
            let h = heights[hi];
            assert(gs[hi as int].len() == h);
            if h <= budget && edge <= budget - h && used <= budget - h - edge {
                hi = hi + 1;
                used = used + h;
                expanded = true;
            }
        }
        assert(wlo == lo && whi == hi && wused == used && wexp == expanded);
        if !expanded {
            assert(window(gs, budget as int, lo0, hi0, used0) == (lo0, hi0));
            break;
        }
    }
    (lo, hi)
}

pub open spec fn group_views(groups: Seq<Vec<String>>) -> Seq<Seq<Seq<char>>> {
    groups.map_values(|g: Vec<String>| crate::text::views_of(g@))
}

/// The rows of the groups `lo..hi`, with a marker for each hidden side.
fn window_rows(groups: &Vec<Vec<String>>, heights: &Vec<usize>, lo: usize, hi: usize, ink: &Ink) -> (rows: Vec<String>)
    requires
        lo < hi <= groups@.len(),
        heights@.len() == groups@.len(),
        forall|i: int| 0 <= i < groups@.len() ==> #[trigger] heights@[i] == groups@[i]@.len(),
    ensures
        crate::text::views_of(rows@) == (if lo > 0 {
            seq![hidden_marker(ink.color)]
        } else {
            seq![]
        }) + flat(group_views(groups@), lo as int, hi as int) + (if hi < groups@.len() {
            seq![hidden_marker(ink.color)]
        } else {
            seq![]
        }),
        rows@.len() == (if lo > 0 {
            1int
        } else {
            0int
        }) + rows_between(heights@, lo as int, hi as int) + (if hi < groups@.len() {
            1int
        } else {
            0int
        }),
{
    let ghost gs = group_views(groups@);
    let count = groups.len();
    let mut rows: Vec<String> = Vec::new();
    let ghost prefix: Seq<Seq<char>> = if lo > 0 {
        seq![hidden_marker(ink.color)]
    } else {
        seq![]
    };
    if lo > 0 {
        rows.push(hidden_marker_row(ink));
    }
    assert(crate::text::views_of(rows@) =~= prefix + flat(gs, lo as int, lo as int));
    let ghost marks: int = if lo > 0 {
        1
    } else {
        0
    };
    let mut k = lo;
    while k < hi
        invariant
            lo <= k <= hi <= count,
            count == groups@.len(),
            heights@.len() == count,
            gs == group_views(groups@),
            forall|i: int| 0 <= i < count ==> #[trigger] heights@[i] == groups@[i]@.len(),
            rows@.len() == marks + rows_between(heights@, lo as int, k as int),
            crate::text::views_of(rows@) == prefix + flat(gs, lo as int, k as int),
        decreases hi - k,
    {
        let mut j: usize = 0;
        let ghost start = rows@;
        while j < groups[k].len()
            invariant
                j <= groups@[k as int]@.len(),
                k < groups@.len(),
                rows@.len() == start.len() + j,
                crate::text::views_of(rows@) == crate::text::views_of(start) + crate::text::views_of(groups@[k as int]@).take(j as int),
            decreases groups@[k as int]@.len() - j,
        {
            let ghost before = rows@;
            rows.push(groups[k][j].clone());
            assert(crate::text::views_of(rows@) =~= crate::text::views_of(before).push(groups@[k as int]@[j as int]@));
            assert(crate::text::views_of(groups@[k as int]@).take(j + 1) =~= crate::text::views_of(groups@[k as int]@).take(
                j as int,
            ).push(groups@[k as int]@[j as int]@));
            j += 1;
        }
        assert(heights@[k as int] == groups@[k as int]@.len());
        assert(gs[k as int] == crate::text::views_of(groups@[k as int]@));
        assert(crate::text::views_of(groups@[k as int]@).take(groups@[k as int]@.len() as int) =~= gs[k as int]);
        assert(flat(gs, lo as int, k + 1) == flat(gs, lo as int, k as int) + gs[k as int]);
        assert(crate::text::views_of(rows@) =~= prefix + flat(gs, lo as int, k + 1));
        k += 1;
    }
    if hi < count {
        let ghost before = rows@;
        rows.push(hidden_marker_row(ink));
        assert(crate::text::views_of(rows@) =~= crate::text::views_of(before).push(hidden_marker(ink.color)));
    }
    proof {
        let suffix: Seq<Seq<char>> = if hi < count {
            seq![hidden_marker(ink.color)]
        } else {
            seq![]
        };
        assert(crate::text::views_of(rows@) =~= prefix + flat(gs, lo as int, hi as int) + suffix);
    }
    rows
}

/// Window the stage groups so the selected stage always fits the budget.
/// Hidden edges are marked with a dim `⋮`; a selected group that alone exceeds
/// the budget is truncated with an unstyled `…`. Besides the rows within the
/// budget, at most the two edge markers are added.
pub fn stack_window_rows(state: &ReviewPanelState, text_width: usize, budget: usize, ink: &Ink) -> (r: Vec<String>)
    ensures
        crate::text::views_of(r@) == stack_rows(*state, text_width as int, budget as int, ink.color),
        r@.len() <= (if budget < 1 {
            1
        } else {
            budget
        }) + 2,
{
    let count = state.candidate.flow.stages.len();
    let ghost gs = stage_groups(*state, text_width as int, ink.color);
    proof {
        assert(state.candidate@.flow.len() == count);
    }
    if count == 0 {
        let d = ink.dim("no flow stages");
        let mut rows: Vec<String> = Vec::new();
        rows.push(cat("    ", d.as_str()));
        assert(crate::text::views_of(rows@) =~= seq!["    "@ + paint(ink.color, "2"@, "no flow stages"@)]);
        return rows;
    }
    let selected = if state.flow_stage < count - 1 {
        state.flow_stage
    } else {
        count - 1
    };
    let mut groups: Vec<Vec<String>> = Vec::new();
    let mut heights: Vec<usize> = Vec::new();
    let mut g: usize = 0;
    while g < count
        invariant
            g <= count,
            count == state.candidate.flow.stages@.len(),
            gs == stage_groups(*state, text_width as int, ink.color),
            gs.len() == count,
            groups@.len() == g,
            heights@.len() == g,
            forall|i: int| 0 <= i < g ==> #[trigger] heights@[i] == groups@[i]@.len(),
            forall|i: int| 0 <= i < g ==> crate::text::views_of(#[trigger] groups@[i]@) == gs[i],
        decreases count - g,
    {
        let group = stage_group_rows(state, g, text_width, ink);
        assert(gs[g as int] == group_rows(ink.color, state.candidate@.flow[g as int], g == state.flow_stage, text_width as int));
        heights.push(group.len());
        groups.push(group);
        g += 1;
    }
    proof {
        assert forall|i: int| 0 <= i < count implies #[trigger] gs[i].len() == heights@[i] by {
            assert(crate::text::views_of(groups@[i]@).len() == groups@[i]@.len());
        }
        assert(group_views(groups@) =~= gs);
    }
    let budget: usize = if budget < 1 {
        1
    } else {
        budget
    };
    if heights[selected] > budget {
        let mut rows: Vec<String> = Vec::new();
        let mut j: usize = 0;
        while j < budget
            invariant
                j <= budget,
                budget < groups@[selected as int]@.len(),
                selected < groups@.len(),
                rows@.len() == j,
                crate::text::views_of(rows@) == crate::text::views_of(groups@[selected as int]@).take(j as int),
            decreases budget - j,
        {
            let ghost before = rows@;
            rows.push(groups[selected][j].clone());
            assert(crate::text::views_of(rows@) =~= crate::text::views_of(before).push(groups@[selected as int]@[j as int]@));
            assert(crate::text::views_of(groups@[selected as int]@).take(j + 1) =~= crate::text::views_of(
                groups@[selected as int]@,
            ).take(j as int).push(groups@[selected as int]@[j as int]@));
            j += 1;
        }
        let last = rows.len() - 1;
        let mut line = rows[last].clone();
        push_char(&mut line, '\u{2026}');
        let ghost before = rows@;
        rows.set(last, line);
        proof {
            let t = gs[selected as int].take(budget as int);
            assert(crate::text::views_of(before) == t);
            assert(crate::text::views_of(rows@) =~= t.update(budget - 1, t[budget - 1].push('\u{2026}')));
        }
        return rows;
    }
    let (lo, hi) = window_bounds(&heights, Ghost(gs), selected, budget);
    window_rows(&groups, &heights, lo, hi, ink)
}


pub open spec fn keyed(color: bool, k: Seq<char>, l: Seq<char>) -> Seq<char> {
    paint(color, "1;38;5;81"@, k) + paint(color, "2"@, l)
}

pub open spec fn key_label(color: bool, k: Seq<char>, l: Seq<char>) -> Seq<char> {
    paint(color, "1;38;5;81"@, k) + " "@ + paint(color, "2"@, l)
}

/// The key hints at the bottom of the card.
pub open spec fn hint_line(v: PanelView, detailed: bool, color: bool) -> Seq<char> {
    if v.input_mode == PanelInputMode::CommandEditor {
        keyed(color, "\u{23ce}"@, " commit"@) + " \u{b7} "@ + keyed(color, "esc"@, " discard"@)
    } else if v.explain_only {
        paint(color, "2"@, "esc close"@)
    } else if detailed {
        crate::text::join(
            seq![
                key_label(color, "\u{23ce}"@, "accept"@),
                keyed(color, "\u{2191}\u{2193}"@, " stage"@),
                keyed(color, "e"@, "dit"@),
                keyed(color, "r"@, "eject"@),
                keyed(color, "d/?"@, " simple"@),
                keyed(color, "D"@, " disable review"@),
                paint(color, "1;38;5;81"@, "esc"@),
            ],
            paint(color, "2"@, " \u{b7} "@),
        )
    } else {
        crate::text::join(
            seq![
                key_label(color, "\u{23ce}"@, "accept"@),
                key_label(color, "\u{2191}\u{2193}"@, "stage"@),
                key_label(color, "d/?"@, "details"@),
                paint(color, "1;38;5;81"@, "esc"@),
            ],
            paint(color, "2"@, " \u{b7} "@),
        )
    }
}

fn keyed_text(ink: &Ink, k: &str, l: &str) -> (r: String)
    ensures
        r@ == keyed(ink.color, k@, l@),
{
    let a = ink.key(k);
    let b = ink.dim(l);
    cat(a.as_str(), b.as_str())
}

fn key_label_text(ink: &Ink, k: &str, l: &str) -> (r: String)
    ensures
        r@ == key_label(ink.color, k@, l@),
{
    let a = ink.key(k);
    let b = ink.dim(l);
    let s = cat(a.as_str(), " ");
    cat(s.as_str(), b.as_str())
}

fn push_view(v: &mut Vec<String>, s: String)
    ensures
        crate::text::views_of(final(v)@) == crate::text::views_of(old(v)@).push(s@),
{
    let ghost before = v@;
    v.push(s);
    assert(crate::text::views_of(v@) =~= crate::text::views_of(before).push(s@));
}

pub fn hints(state: &ReviewPanelState, detailed: bool, ink: &Ink) -> (r: String)
    ensures
        r@ == hint_line(state@, detailed, ink.color),
{
    if state.input_mode == PanelInputMode::CommandEditor {
        let a = keyed_text(ink, "\u{23ce}", " commit");
        let b = keyed_text(ink, "esc", " discard");
        let s = cat(a.as_str(), " \u{b7} ");
        return cat(s.as_str(), b.as_str());
    }
    if state.explain_only {
        return ink.dim("esc close");
    }
    let sep = ink.dim(" \u{b7} ");
    let mut parts: Vec<String> = Vec::new();
    if detailed {
        push_view(&mut parts, key_label_text(ink, "\u{23ce}", "accept"));
        push_view(&mut parts, keyed_text(ink, "\u{2191}\u{2193}", " stage"));
        push_view(&mut parts, keyed_text(ink, "e", "dit"));
        push_view(&mut parts, keyed_text(ink, "r", "eject"));
        push_view(&mut parts, keyed_text(ink, "d/?", " simple"));
        push_view(&mut parts, keyed_text(ink, "D", " disable review"));
        push_view(&mut parts, ink.key("esc"));
    } else {
        push_view(&mut parts, key_label_text(ink, "\u{23ce}", "accept"));
        push_view(&mut parts, key_label_text(ink, "\u{2191}\u{2193}", "stage"));
        push_view(&mut parts, key_label_text(ink, "d/?", "details"));
        push_view(&mut parts, ink.key("esc"));
    }
    let r = crate::text::join_strings(parts.as_slice(), sep.as_str());
    assert(crate::text::views_of(parts@) =~= (if detailed {
        seq![
            key_label(ink.color, "\u{23ce}"@, "accept"@),
            keyed(ink.color, "\u{2191}\u{2193}"@, " stage"@),
            keyed(ink.color, "e"@, "dit"@),
            keyed(ink.color, "r"@, "eject"@),
            keyed(ink.color, "d/?"@, " simple"@),
            keyed(ink.color, "D"@, " disable review"@),
            paint(ink.color, "1;38;5;81"@, "esc"@),
        ]
    } else {
        seq![
            key_label(ink.color, "\u{23ce}"@, "accept"@),
            key_label(ink.color, "\u{2191}\u{2193}"@, "stage"@),
            key_label(ink.color, "d/?"@, "details"@),
            paint(ink.color, "1;38;5;81"@, "esc"@),
        ]
    }));
    r
}

fn repeat_char(c: char, n: usize) -> (r: String)
    ensures
        r@ == Seq::new(n as nat, |i: int| c),
{
    let mut s = String::new();
    let mut k: usize = 0;
    while k < n
        invariant
            k <= n,
            s@ == Seq::new(k as nat, |i: int| c),
        decreases n - k,
    {
        push_char(&mut s, c);
        assert(s@ =~= Seq::new((k + 1) as nat, |i: int| c));
        k += 1;
    }
    s
}

/// The rows of the card for a terminal height: one less than the height,
/// between five and the card maximum.
pub open spec fn card_rows(height: u16) -> int {
    let h = if height == 0 {
        0
    } else {
        height - 1
    };
    if h < 5 {
        5
    } else if h > MAX_CARD_ROWS {
        MAX_CARD_ROWS as int
    } else {
        h
    }
}

/// The inner width of the card: the terminal width, at least 24, less the
/// frame.
pub open spec fn card_inner(width: u16) -> int {
    (if width < 24 {
        24
    } else {
        width as int
    }) - 4
}

pub open spec fn bottom_line(color: bool, inner: int) -> Seq<char> {
    paint(color, "38;5;240"@, "\u{2514}"@) + paint(color, "38;5;240"@, Seq::new((inner + 2) as nat, |i: int| '\u{2500}'))
        + paint(color, "38;5;240"@, "\u{2518}"@)
}

/// One framed content row.
pub open spec fn framed(color: bool, row: Seq<char>, inner: int) -> Seq<char> {
    paint(color, "38;5;240"@, "\u{2502}"@) + " "@ + padded(ellipsized_visible(row, inner), inner) + " "@
        + paint(color, "38;5;240"@, "\u{2502}"@)
}

/// `line` is some content row, framed.
pub open spec fn is_framed(color: bool, line: Seq<char>, inner: int) -> bool {
    exists|row: Seq<char>| line == framed(color, row, inner)
}

fn sat_sub(a: usize, b: usize) -> (r: usize)
    ensures
        r as int == if a >= b {
            a - b
        } else {
            0
        },
{
    if a >= b {
        a - b
    } else {
        0
    }
}

/// `a - b`, or zero when `b` is larger.
pub open spec fn cut(a: int, b: int) -> int {
    if a >= b {
        a - b
    } else {
        0
    }
}

/// The detailed view is shown: asked for, explaining only, or editing.
pub open spec fn is_detailed(state: ReviewPanelState) -> bool {
    state.details || state.explain_only || state.input_mode != PanelInputMode::Review
}

/// A row label of the detailed view, padded to the label column.
pub open spec fn label_cell(color: bool, text: Seq<char>) -> Seq<char> {
    paint(color, "38;5;81"@, padded(text, 7))
}

/// The content rows as (priority, text).
pub open spec fn row_views(c: Seq<(u8, String)>) -> Seq<(u8, Seq<char>)> {
    c.map_values(|p: (u8, String)| (p.0, p.1@))
}

/// The wrapped purpose rows of the selected stage.
pub open spec fn card_purposes(state: ReviewPanelState, inner: int) -> Seq<Seq<char>> {
    let indent = if is_detailed(state) {
        14int
    } else {
        4int
    };
    stage_rows(purpose_of(state.candidate@, state.flow_stage as int), cut(inner, indent + 2))
}

/// How many purpose rows the card shows: at most two.
pub open spec fn purpose_count(state: ReviewPanelState, inner: int) -> int {
    let n = card_purposes(state, inner).len() as int;
    if n < 2 {
        n
    } else {
        2
    }
}

/// The rows left to the stage stack once the essential rows are counted,
/// at least one.
pub open spec fn stack_budget(state: ReviewPanelState, inner: int, available: int) -> int {
    let essential = purpose_count(state, inner) + 4;
    if available > essential {
        available - essential
    } else {
        1
    }
}

/// The stage stack rows as they stand in the card, for a row budget.
pub open spec fn card_stack(state: ReviewPanelState, inner: int, budget: int, color: bool) -> Seq<(u8, Seq<char>)> {
    let detailed = is_detailed(state);
    let base = if detailed {
        10int
    } else {
        0int
    };
    let stack = stack_rows(state, cut(inner, base + 4), budget, color);
    Seq::new(
        stack.len(),
        |i: int|
            (
                if i == 0 {
                    100u8
                } else {
                    95u8
                },
                if detailed && i == 0 {
                    label_cell(color, "Command"@) + "   "@ + spaces(base) + stack[i]
                } else {
                    spaces(base) + stack[i]
                },
            ),
    )
}

/// The first `count` purpose rows as they stand in the card, indented, the
/// first behind an arrow.
pub open spec fn purpose_part(purposes: Seq<Seq<char>>, count: int, indent: int, color: bool) -> Seq<(u8, Seq<char>)> {
    Seq::new(
        count as nat,
        |p: int|
            (
                70u8,
                spaces(indent) + (if p == 0 {
                    paint(color, "38;5;81"@, "\u{21b3}"@) + " "@
                } else {
                    "  "@
                }) + paint(color, "38;5;252"@, purposes[p]),
            ),
    )
}

/// Every content row of the card, with its priority, before any is dropped:
/// the intent (detailed view), the stage stack, the purpose, the command
/// being edited, and the key hints, with blank spacer rows.
#[verifier::opaque]
pub open spec fn card_content(state: ReviewPanelState, inner: int, available: int, color: bool) -> Seq<(u8, Seq<char>)> {
    let detailed = is_detailed(state);
    let head = if detailed {
        seq![
            (
                50u8,
                label_cell(color, "Intent"@) + "   "@ + paint(
                    color,
                    "2"@,
                    ellipsized(sanitized(state.context.intent@), cut(inner, 10)),
                ),
            ),
            (10u8, Seq::<char>::empty()),
        ]
    } else {
        seq![(10u8, Seq::<char>::empty())]
    };
    let gap = if detailed {
        Seq::<(u8, Seq<char>)>::empty()
    } else {
        seq![(10u8, Seq::<char>::empty())]
    };
    let editor = if detailed && state.input_mode == PanelInputMode::CommandEditor {
        seq![
            (
                95u8,
                label_cell(color, "Edit"@) + "   "@ + paint(
                    color,
                    "97"@,
                    sanitized(state.editor_buffer@) + "\u{258f}"@,
                ),
            ),
        ]
    } else {
        Seq::<(u8, Seq<char>)>::empty()
    };
    head + card_stack(state, inner, stack_budget(state, inner, available), color) + gap + purpose_part(
        card_purposes(state, inner),
        purpose_count(state, inner),
        if detailed {
            14int
        } else {
            4int
        },
        color,
    ) + editor
        + seq![(10u8, Seq::<char>::empty()), (30u8, hint_line(state@, detailed, color))]
}

/// The index of the first row of lowest priority among the first `n`.
pub open spec fn first_lowest(c: Seq<(u8, Seq<char>)>, n: int) -> int
    decreases n,
{
    if n <= 1 {
        0
    } else {
        let m = first_lowest(c, n - 1);
        if c[n - 1].0 < c[m].0 {
            n - 1
        } else {
            m
        }
    }
}

/// The rows that remain when rows are dropped, the first of lowest priority
/// each time, until at most `available` are left.
pub open spec fn pruned(c: Seq<(u8, Seq<char>)>, available: int) -> Seq<(u8, Seq<char>)>
    decreases c.len(),
{
    let k = first_lowest(c, c.len() as int);
    if c.len() <= available || !(0 <= k < c.len()) {
        c
    } else {
        pruned(c.remove(k), available)
    }
}

/// The left part of the top border.
pub open spec fn top_left(color: bool) -> Seq<char> {
    " "@ + paint(color, "97"@, "watn"@) + " \u{b7} "@ + paint(color, "2"@, "review"@) + " "@
}

/// The top border: the title on the left, the header label on the right,
/// cut to fit, and a rule between them.
pub open spec fn top_line(state: ReviewPanelState, inner: int, color: bool) -> Seq<char> {
    let lw = visible_width(top_left(color));
    let right = paint(
        color,
        "38;5;240"@,
        ellipsized(header_text(state@, is_detailed(state)), cut(cut(inner, lw), 2)),
    );
    let fill = cut(inner, saturated(lw + visible_width(right)));
    paint(color, "38;5;240"@, "\u{250c}"@) + top_left(color) + paint(
        color,
        "38;5;240"@,
        Seq::new(fill as nat, |i: int| '\u{2500}'),
    ) + right + paint(color, "38;5;240"@, "\u{2510}"@)
}

/// The whole card: the top border, the content rows that fit, each framed,
/// and the bottom border.
pub open spec fn card_lines(state: ReviewPanelState, layout: InlineLayout, color: bool) -> Seq<Seq<char>> {
    let inner = card_inner(layout.width);
    let available = card_rows(layout.height) - 2;
    let rows = pruned(card_content(state, inner, available, color), available);
    seq![top_line(state, inner, color)] + rows.map_values(|p: (u8, Seq<char>)| framed(color, p.1, inner))
        + seq![bottom_line(color, inner)]
}

fn push_row(content: &mut Vec<(u8, String)>, priority: u8, text: String)
    ensures
        row_views(final(content)@) == row_views(old(content)@).push((priority, text@)),
{
    let ghost before = content@;
    let ghost t = text@;
    content.push((priority, text));
    assert(row_views(content@) =~= row_views(before).push((priority, t)));
}

/// Drop rows, the first of lowest priority each time, until at most
/// `available` are left.
fn prune_rows(content: &mut Vec<(u8, String)>, available: usize)
    ensures
        row_views(final(content)@) == pruned(row_views(old(content)@), available as int),
        final(content)@.len() <= available,
{
    let ghost target = pruned(row_views(content@), available as int);
    while content.len() > available
        invariant
            pruned(row_views(content@), available as int) == target,
        decreases content@.len(),
    {
        let ghost cv = row_views(content@);
        let mut lowest: usize = 0;
        let mut j: usize = 1;
        while j < content.len()
            invariant
                1 <= j <= content@.len(),
                cv == row_views(content@),
                lowest == first_lowest(cv, j as int),
                lowest < j,
            decreases content@.len() - j,
        {
            if content[j].0 < content[lowest].0 {
                lowest = j;
            }
            j += 1;
        }
        let ghost before = content@;
        content.remove(lowest);
        assert(row_views(content@) =~= cv.remove(lowest as int));
    }
}

/// Push the stage stack rows for a row budget.
fn push_stack_rows(content: &mut Vec<(u8, String)>, state: &ReviewPanelState, inner: usize, budget: usize, ink: &Ink)
    ensures
        row_views(final(content)@) == row_views(old(content)@) + card_stack(*state, inner as int, budget as int, ink.color),
{
    let color = ink.color;
    let detailed = state.details || state.explain_only || state.input_mode != PanelInputMode::Review;
    let label_width: usize = 7;
    let base_len: usize = if detailed {
        label_width + 3
    } else {
        0
    };
    let base = repeat_char(' ', base_len);
    assert(base@ =~= spaces(base_len as int));
    let stack = stack_window_rows(state, sat_sub(inner, base_len + 4), budget, ink);
    let ghost head = row_views(content@);
    let ghost part = card_stack(*state, inner as int, budget as int, color);
    proof {
        assert(part.len() == stack@.len());
    }
    let mut index: usize = 0;
    while index < stack.len()
        invariant
            index <= stack@.len(),
            part.len() == stack@.len(),
            crate::text::views_of(stack@) == stack_rows(*state, cut(inner as int, base_len + 4), budget as int, color),
            part == card_stack(*state, inner as int, budget as int, color),
            detailed == is_detailed(*state),
            base_len == (if detailed {
                10int
            } else {
                0int
            }),
            base@ == spaces(base_len as int),
            label_width == 7,
            ink.color == color,
            row_views(content@) == head + part.take(index as int),
        decreases stack@.len() - index,
    {
        let row = &stack[index];
        let line = if detailed && index == 0 {
            let label = ink.label(pad_to("Command", label_width).as_str());
            let l = cat(label.as_str(), "   ");
            let l = cat(l.as_str(), base.as_str());
            cat(l.as_str(), row.as_str())
        } else {
            cat(base.as_str(), row.as_str())
        };
        let priority: u8 = if index == 0 {
            100
        } else {
            95
        };
        proof {
            let st = stack_rows(*state, cut(inner as int, base_len + 4), budget as int, color);
            assert(st[index as int] == row@);
            assert(part[index as int].0 == priority);
            assert(part[index as int].1 == line@);
        }
        push_row(content, priority, line);
        assert(head + part.take(index + 1) =~= (head + part.take(index as int)).push(part[index as int]));
        index += 1;
    }
    assert(part.take(stack@.len() as int) =~= part);
}

/// Push the first `count` purpose rows.
fn push_purpose_rows(content: &mut Vec<(u8, String)>, purposes: &Vec<String>, count: usize, indent_len: usize, ink: &Ink)
    requires
        count <= purposes@.len(),
    ensures
        row_views(final(content)@) == row_views(old(content)@) + purpose_part(
            crate::text::views_of(purposes@),
            count as int,
            indent_len as int,
            ink.color,
        ),
{
    let color = ink.color;
    let indent = repeat_char(' ', indent_len);
    assert(indent@ =~= spaces(indent_len as int));
    let ghost head = row_views(content@);
    let ghost part = purpose_part(crate::text::views_of(purposes@), count as int, indent_len as int, color);
    let mut p: usize = 0;
    while p < count
        invariant
            p <= count <= purposes@.len(),
            part == purpose_part(crate::text::views_of(purposes@), count as int, indent_len as int, color),
            indent@ == spaces(indent_len as int),
            ink.color == color,
            row_views(content@) == head + part.take(p as int),
        decreases count - p,
    {
        let marker = if p == 0 {
            let m = ink.purpose_marker("\u{21b3}");
            cat(m.as_str(), " ")
        } else {
            String::from_str("  ")
        };
        let l = cat(indent.as_str(), marker.as_str());
        let styled = ink.purpose(purposes[p].as_str());
        let line = cat(l.as_str(), styled.as_str());
        assert(crate::text::views_of(purposes@)[p as int] == purposes@[p as int]@);
        assert(part[p as int] == (70u8, line@));
        push_row(content, 70, line);
        assert(head + part.take(p + 1) =~= (head + part.take(p as int)).push(part[p as int]));
        p += 1;
    }
    assert(part.take(count as int) =~= part);
}

/// The intent row of the detailed view.
fn intent_row(state: &ReviewPanelState, inner: usize, ink: &Ink) -> (r: String)
    ensures
        r@ == label_cell(ink.color, "Intent"@) + "   "@ + paint(
            ink.color,
            "2"@,
            ellipsized(sanitized(state.context.intent@), cut(inner as int, 10)),
        ),
{
    let label = ink.label(pad_to("Intent", 7).as_str());
    let intent = ellipsize(sanitize_terminal_text(state.context.intent.as_str()).as_str(), sat_sub(inner, 10));
    let line = cat(label.as_str(), "   ");
    cat(line.as_str(), ink.dim(intent.as_str()).as_str())
}

/// The row of the command being edited, the cursor at its end.
fn editor_row(state: &ReviewPanelState, ink: &Ink) -> (r: String)
    ensures
        r@ == label_cell(ink.color, "Edit"@) + "   "@ + paint(
            ink.color,
            "97"@,
            sanitized(state.editor_buffer@) + "\u{258f}"@,
        ),
{
    let buffer = sanitize_terminal_text(state.editor_buffer.as_str());
    let label = ink.label(pad_to("Edit", 7).as_str());
    let text = cat(buffer.as_str(), "\u{258f}");
    let l = cat(label.as_str(), "   ");
    cat(l.as_str(), ink.white(text.as_str()).as_str())
}

/// The content rows of the card before any is dropped.
#[verifier::rlimit(50)]
fn card_content_rows(state: &ReviewPanelState, inner: usize, available: usize, ink: &Ink) -> (r: Vec<(u8, String)>)
    ensures
        row_views(r@) == card_content(*state, inner as int, available as int, ink.color),
{
    let color = ink.color;
    let detailed = state.details || state.explain_only || state.input_mode != PanelInputMode::Review;
    let label_width: usize = 7;
    let mut content: Vec<(u8, String)> = Vec::new();
    proof {
        assert(row_views(content@) =~= Seq::<(u8, Seq<char>)>::empty());
    }
    if detailed {
        push_row(&mut content, 50, intent_row(state, inner, ink));
        push_row(&mut content, 10, String::new());
    } else {
        push_row(&mut content, 10, String::new());
    }
    let ghost head = row_views(content@);
    let indent_len: usize = if detailed {
        label_width + 3 + 4
    } else {
        4
    };
    let purposes = wrap_stage(purpose_text(state).as_str(), sat_sub(inner, indent_len + 2));
    let shown: usize = if purposes.len() < 2 {
        purposes.len()
    } else {
        2
    };
    let budget: usize = if available > shown + 4 {
        available - (shown + 4)
    } else {
        1
    };
    proof {
        assert(crate::text::views_of(purposes@) == card_purposes(*state, inner as int));
        assert(shown == purpose_count(*state, inner as int));
        assert(budget == stack_budget(*state, inner as int, available as int));
    }
    push_stack_rows(&mut content, state, inner, budget, ink);
    let ghost with_stack = row_views(content@);
    if !detailed {
        push_row(&mut content, 10, String::new());
    }
    let ghost with_gap = row_views(content@);
    push_purpose_rows(&mut content, &purposes, shown, indent_len, ink);
    let ghost with_purpose = row_views(content@);
    if detailed && state.input_mode == PanelInputMode::CommandEditor {
        push_row(&mut content, 95, editor_row(state, ink));
    }
    let ghost with_editor = row_views(content@);
    push_row(&mut content, 10, String::new());
    push_row(&mut content, 30, hints(state, detailed, ink));
    proof {
        reveal(card_content);
        let c = card_content(*state, inner as int, available as int, color);
        let spec_head = if detailed {
            seq![
                (
                    50u8,
                    label_cell(color, "Intent"@) + "   "@ + paint(
                        color,
                        "2"@,
                        ellipsized(sanitized(state.context.intent@), cut(inner as int, 10)),
                    ),
                ),
                (10u8, Seq::<char>::empty()),
            ]
        } else {
            seq![(10u8, Seq::<char>::empty())]
        };
        let gap = if detailed {
            Seq::<(u8, Seq<char>)>::empty()
        } else {
            seq![(10u8, Seq::<char>::empty())]
        };
        let editor = if detailed && state.input_mode == PanelInputMode::CommandEditor {
            seq![
                (
                    95u8,
                    label_cell(color, "Edit"@) + "   "@ + paint(
                        color,
                        "97"@,
                        sanitized(state.editor_buffer@) + "\u{258f}"@,
                    ),
                ),
            ]
        } else {
            Seq::<(u8, Seq<char>)>::empty()
        };
        let stack = card_stack(*state, inner as int, stack_budget(*state, inner as int, available as int), color);
        let purp = purpose_part(card_purposes(*state, inner as int), purpose_count(*state, inner as int), indent_len as int, color);
        assert(head == spec_head);
        assert(with_stack == head + stack);
        assert(with_gap =~= with_stack + gap);
        assert(with_purpose == with_gap + purp);
        assert(with_editor =~= with_purpose + editor);
        assert(row_views(content@) =~= with_editor + seq![(10u8, Seq::<char>::empty()), (30u8, hint_line(state@, detailed, color))]);
        assert(row_views(content@) =~= c);
    }
    content
}

/// The top border of the card.
fn top_line_text(state: &ReviewPanelState, inner: usize, ink: &Ink) -> (r: String)
    ensures
        r@ == top_line(*state, inner as int, ink.color),
{
    let detailed = state.details || state.explain_only || state.input_mode != PanelInputMode::Review;
    let top_left = {
        let w = ink.white("watn");
        let d = ink.dim("review");
        let l = cat(" ", w.as_str());
        let l = cat(l.as_str(), " \u{b7} ");
        let l = cat(l.as_str(), d.as_str());
        cat(l.as_str(), " ")
    };
    let left_width = visible_len(top_left.as_str());
    let right = ellipsize(header_right(state, detailed).as_str(), sat_sub(sat_sub(inner, left_width), 2));
    let right = ink.border(right.as_str());
    let right_width = visible_len(right.as_str());
    let fill = sat_sub(inner, left_width.saturating_add(right_width));
    let l = ink.border("\u{250c}");
    let l = cat(l.as_str(), top_left.as_str());
    let l = cat(l.as_str(), ink.border(repeat_char('\u{2500}', fill).as_str()).as_str());
    let l = cat(l.as_str(), right.as_str());
    cat(l.as_str(), ink.border("\u{2510}").as_str())
}

/// Render the review card. Rows are dropped, lowest priority first, until
/// the card fits its row budget; every content row is framed and padded to
/// the inner width.
pub fn render_card_lines(state: &ReviewPanelState, layout: InlineLayout, color: bool) -> (r: Vec<String>)
    ensures
        crate::text::views_of(r@) == card_lines(*state, layout, color),
        2 <= r@.len() <= card_rows(layout.height),
        r@.last()@ == bottom_line(color, card_inner(layout.width)),
        forall|k: int| 0 < k < r@.len() - 1 ==> is_framed(color, #[trigger] r@[k]@, card_inner(layout.width)),
{
    let ink = Ink::new(color);
    let width: usize = if layout.width < 24 {
        24
    } else {
        layout.width as usize
    };
    let h: u16 = if layout.height == 0 {
        0
    } else {
        layout.height - 1
    };
    let max_rows: usize = if h < 5 {
        5
    } else if h > MAX_CARD_ROWS {
        MAX_CARD_ROWS as usize
    } else {
        h as usize
    };
    let inner = width - 4;
    let available: usize = max_rows - 2;
    let mut content = card_content_rows(state, inner, available, &ink);
    let ghost all_rows = row_views(content@);
    prune_rows(&mut content, available);
    let ghost kept = row_views(content@);
    assert(kept == pruned(all_rows, available as int));
    let mut lines: Vec<String> = Vec::new();
    lines.push(top_line_text(state, inner, &ink));
    let mut k: usize = 0;
    while k < content.len()
        invariant
            k <= content@.len(),
            content@.len() <= available,
            kept == row_views(content@),
            ink.color == color,
            inner as int == card_inner(layout.width),
            lines@.len() == k + 1,
            lines@[0]@ == top_line(*state, inner as int, color),
            forall|i: int| 0 < i < lines@.len() ==> #[trigger] lines@[i]@ == framed(color, kept[i - 1].1, inner as int),
        decreases content@.len() - k,
    {
        let row = &content[k].1;
        let fitted = ellipsize_visible(row.as_str(), inner);
        let padded_row = pad_to(fitted.as_str(), inner);
        let l = ink.border("\u{2502}");
        let l = cat(l.as_str(), " ");
        let l = cat(l.as_str(), padded_row.as_str());
        let l = cat(l.as_str(), " ");
        let line = cat(l.as_str(), ink.border("\u{2502}").as_str());
        assert(kept[k as int].1 == row@);
        assert(line@ == framed(color, row@, inner as int));
        lines.push(line);
        k += 1;
    }
    let bottom = {
        let l = ink.border("\u{2514}");
        let l = cat(l.as_str(), ink.border(repeat_char('\u{2500}', inner + 2).as_str()).as_str());
        cat(l.as_str(), ink.border("\u{2518}").as_str())
    };
    let ghost framed_lines = lines@;
    lines.push(bottom);
    proof {
        assert forall|i: int| 0 < i < lines@.len() - 1 implies is_framed(color, #[trigger] lines@[i]@, card_inner(layout.width)) by {
            assert(lines@[i] == framed_lines[i]);
            assert(lines@[i]@ == framed(color, kept[i - 1].1, inner as int));
        }
        assert(crate::text::views_of(lines@) =~= card_lines(*state, layout, color));
    }
    lines
}


/// Every piece of `ws` has at most `width` characters.
pub open spec fn all_within(ws: Seq<Seq<char>>, width: int) -> bool {
    forall|i: int| 0 <= i < ws.len() ==> (#[trigger] ws[i]).len() <= width
}

proof fn lemma_chunks_within(w: Seq<char>, width: int)
    requires
        width >= 1,
    ensures
        all_within(full_chunks(w, width), width),
        chunk_tail(w, width).len() <= width,
    decreases w.len(),
{
    if w.len() > width {
        lemma_chunks_within(w.skip(width), width);
        let rest = full_chunks(w.skip(width), width);
        let all = seq![w.take(width)] + rest;
        assert forall|i: int| 0 <= i < all.len() implies (#[trigger] all[i]).len() <= width by {
            if i > 0 {
                assert(all[i] == rest[i - 1]);
            }
        }
    }
}

proof fn lemma_place_words_within(ws: Seq<Seq<char>>, width: int)
    requires
        width >= 1,
    ensures
        all_within(place_words(ws, width).0, width),
        place_words(ws, width).1.len() <= width,
    decreases ws.len(),
{
    if ws.len() > 0 {
        lemma_place_words_within(ws.drop_last(), width);
        let (rows, cur) = place_words(ws.drop_last(), width);
        let word = ws.last();
        lemma_chunks_within(word, width);
        if cur.len() > 0 {
            assert forall|i: int| 0 <= i < rows.push(cur).len() implies (#[trigger] rows.push(cur)[i]).len()
                <= width by {
                if i < rows.len() {
                    assert(rows.push(cur)[i] == rows[i]);
                }
            }
        }
        let rows1 = if cur.len() > 0 {
            rows.push(cur)
        } else {
            rows
        };
        let chunks = full_chunks(word, width);
        assert forall|i: int| 0 <= i < (rows1 + chunks).len() implies (#[trigger] (rows1 + chunks)[i]).len()
            <= width by {
            if i < rows1.len() {
                assert((rows1 + chunks)[i] == rows1[i]);
            } else {
                assert((rows1 + chunks)[i] == chunks[i - rows1.len()]);
            }
        }
    }
}

/// A stage is wrapped into rows of at most `width` characters, and at
/// least one: a word wider than a row is split so that no row is wider.
pub proof fn wrapped_rows_fit(text: Seq<char>, width: int)
    ensures
        all_within(
            stage_rows(text, width),
            if width < 1 {
                1
            } else {
                width
            },
        ),
{
    let w = if width < 1 {
        1
    } else {
        width
    };
    lemma_place_words_within(words(text), w);
    let (rows, cur) = place_words(words(text), w);
    assert forall|i: int| 0 <= i < rows.push(cur).len() implies (#[trigger] rows.push(cur)[i]).len() <= w by {
        if i < rows.len() {
            assert(rows.push(cur)[i] == rows[i]);
        }
    }
}

} // verus!
