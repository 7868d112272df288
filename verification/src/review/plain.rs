//! What a card drawn without color is made of: no escape character but
//! those that the texts it shows hold.
use vstd::prelude::*;
use crate::review::card::{
    bottom_line, card_content, card_inner, card_lines, card_purposes, card_rows, card_stack, chunk_tail, colorized,
    cut, ellipsis_run, ellipsized, ellipsized_visible, first_lowest, flat, framed, full_chunks, group_row, group_rows,
    header_text, hidden_marker, hint_line, is_detailed, key_label, keyed, label_cell, padded, paint, place_words,
    pruned, purpose_count, purpose_part, saturated, short_model, stack_budget, stack_rows, stage_groups, stage_rows,
    token_style, top_left, top_line, visible_width, widen, window, words, words_run,
};
use crate::review::flow::StageView;
use crate::review::panel::{
    purpose_of, sanitized, sanitized_text_is_terminal_safe, terminal_safe, ContextView, InlineLayout, PanelInputMode,
    PanelView, ReviewPanelState,
};
use crate::text::{join, lemma_find_from, rfind_char};

verus! {

/// `s` holds no escape character.
pub open spec fn esc_free(s: Seq<char>) -> bool {
    forall|i: int| 0 <= i < s.len() ==> s[i] != '\u{1b}'
}

/// Every piece of `ws` holds no escape character.
pub open spec fn all_free(ws: Seq<Seq<char>>) -> bool {
    forall|i: int| 0 <= i < ws.len() ==> #[trigger] esc_free(ws[i])
}

broadcast proof fn lemma_free_add(a: Seq<char>, b: Seq<char>)
    requires
        esc_free(a),
        esc_free(b),
    ensures
        #[trigger] esc_free(a + b),
{
    assert forall|i: int| 0 <= i < (a + b).len() implies (a + b)[i] != '\u{1b}' by {
        if i < a.len() {
            assert((a + b)[i] == a[i]);
        } else {
            assert((a + b)[i] == b[i - a.len()]);
        }
    }
}

broadcast proof fn lemma_free_push(a: Seq<char>, c: char)
    requires
        esc_free(a),
        c != '\u{1b}',
    ensures
        #[trigger] esc_free(a.push(c)),
{
    assert forall|i: int| 0 <= i < a.push(c).len() implies a.push(c)[i] != '\u{1b}' by {
        if i < a.len() {
            assert(a.push(c)[i] == a[i]);
        }
    }
}

broadcast proof fn lemma_free_subrange(a: Seq<char>, x: int, y: int)
    requires
        esc_free(a),
        0 <= x <= y <= a.len(),
    ensures
        #[trigger] esc_free(a.subrange(x, y)),
{
    assert forall|i: int| 0 <= i < a.subrange(x, y).len() implies a.subrange(x, y)[i] != '\u{1b}' by {
        assert(a.subrange(x, y)[i] == a[x + i]);
    }
}

broadcast proof fn lemma_free_take(a: Seq<char>, n: int)
    requires
        esc_free(a),
        0 <= n <= a.len(),
    ensures
        #[trigger] esc_free(a.take(n)),
{
    lemma_free_subrange(a, 0, n);
}

broadcast proof fn lemma_free_skip(a: Seq<char>, n: int)
    requires
        esc_free(a),
        0 <= n <= a.len(),
    ensures
        #[trigger] esc_free(a.skip(n)),
{
    lemma_free_subrange(a, n, a.len() as int);
}

broadcast proof fn lemma_free_drop_last(a: Seq<char>)
    requires
        esc_free(a),
        a.len() > 0,
    ensures
        #[trigger] esc_free(a.drop_last()),
{
    lemma_free_subrange(a, 0, a.len() - 1);
}

proof fn lemma_free_fill(n: nat, c: char)
    requires
        c != '\u{1b}',
    ensures
        esc_free(Seq::new(n, |i: int| c)),
{
}

broadcast proof fn lemma_free_spaces(n: int)
    ensures
        #[trigger] esc_free(crate::review::card::spaces(n)),
{
}

broadcast proof fn lemma_all_add(a: Seq<Seq<char>>, b: Seq<Seq<char>>)
    requires
        all_free(a),
        all_free(b),
    ensures
        #[trigger] all_free(a + b),
{
    assert forall|i: int| 0 <= i < (a + b).len() implies #[trigger] esc_free((a + b)[i]) by {
        if i < a.len() {
            assert((a + b)[i] == a[i]);
        } else {
            assert((a + b)[i] == b[i - a.len()]);
        }
    }
}

broadcast proof fn lemma_all_push(a: Seq<Seq<char>>, s: Seq<char>)
    requires
        all_free(a),
        esc_free(s),
    ensures
        #[trigger] all_free(a.push(s)),
{
    assert forall|i: int| 0 <= i < a.push(s).len() implies #[trigger] esc_free(a.push(s)[i]) by {
        if i < a.len() {
            assert(a.push(s)[i] == a[i]);
        }
    }
}

broadcast group group_free {
    lemma_free_add,
    lemma_free_push,
    lemma_free_subrange,
    lemma_free_take,
    lemma_free_skip,
    lemma_free_drop_last,
    lemma_free_spaces,
    lemma_all_add,
    lemma_all_push,
    lemma_rows_add,
}


proof fn lemma_words_run(s: Seq<char>)
    requires
        esc_free(s),
    ensures
        all_free(words_run(s).0),
        esc_free(words_run(s).1),
    decreases s.len(),
{
    broadcast use group_free;

    if s.len() > 0 {
        lemma_words_run(s.drop_last());
        assert(s.last() == s[s.len() - 1]);
    }
}

proof fn lemma_words(s: Seq<char>)
    requires
        esc_free(s),
    ensures
        all_free(words(s)),
{
    broadcast use group_free;

    lemma_words_run(s);
}

proof fn lemma_join(parts: Seq<Seq<char>>, sep: Seq<char>)
    requires
        all_free(parts),
        esc_free(sep),
    ensures
        esc_free(join(parts, sep)),
    decreases parts.len(),
{
    broadcast use group_free;

    if parts.len() > 1 {
        let rest = parts.drop_last();
        assert forall|i: int| 0 <= i < rest.len() implies #[trigger] esc_free(rest[i]) by {
            assert(rest[i] == parts[i]);
        }
        lemma_join(rest, sep);
        assert(esc_free(parts[parts.len() - 1]));
    } else if parts.len() == 1 {
        assert(esc_free(parts[0]));
    }
}

proof fn lemma_chunks(w: Seq<char>, width: int)
    requires
        esc_free(w),
    ensures
        all_free(full_chunks(w, width)),
        esc_free(chunk_tail(w, width)),
    decreases w.len(),
{
    broadcast use group_free;

    if !(width <= 0 || w.len() <= width) {
        lemma_chunks(w.skip(width), width);
        let head: Seq<Seq<char>> = seq![w.take(width)];
        assert(all_free(head)) by {
            assert forall|i: int| 0 <= i < head.len() implies #[trigger] esc_free(head[i]) by {
                assert(head[i] == w.take(width));
            }
        }
    }
}

proof fn lemma_place_words(ws: Seq<Seq<char>>, width: int)
    requires
        all_free(ws),
    ensures
        all_free(place_words(ws, width).0),
        esc_free(place_words(ws, width).1),
    decreases ws.len(),
{
    broadcast use group_free;

    if ws.len() > 0 {
        let rest = ws.drop_last();
        assert forall|i: int| 0 <= i < rest.len() implies #[trigger] esc_free(rest[i]) by {
            assert(rest[i] == ws[i]);
        }
        lemma_place_words(rest, width);
        let word = ws.last();
        assert(esc_free(ws[ws.len() - 1]));
        lemma_chunks(word, width);
        let sp: Seq<char> = seq![' '];
        assert(esc_free(sp)) by {
            assert forall|i: int| 0 <= i < sp.len() implies sp[i] != '\u{1b}' by {
                assert(sp[i] == ' ');
            }
        }
    }
}

/// The rows of a text hold no escape character when the text holds none.
proof fn lemma_stage_rows(text: Seq<char>, width: int)
    requires
        esc_free(text),
    ensures
        all_free(stage_rows(text, width)),
{
    broadcast use group_free;

    lemma_words(text);
    let w = if width < 1 {
        1
    } else {
        width
    };
    lemma_place_words(words(text), w);
}

/// Without color, a command is shown as its words, one space apart.
proof fn lemma_colorized(command: Seq<char>)
    requires
        esc_free(command),
    ensures
        esc_free(colorized(false, command)),
{
    broadcast use group_free;

    let ws = words(command);
    lemma_words(command);
    let styled = Seq::new(ws.len(), |i: int| token_style(false, ws[i]));
    assert forall|i: int| 0 <= i < styled.len() implies #[trigger] esc_free(styled[i]) by {
        assert(styled[i] == ws[i]);
    }
    reveal_strlit(" ");
    lemma_join(styled, " "@);
}


/// The texts that a card drawn without color adds of its own hold no escape
/// character.
proof fn lemma_card_literals()
    ensures
        esc_free(" "@),
        esc_free("  "@),
        esc_free("   "@),
        esc_free("    "@),
        esc_free("\u{25b6}"@),
        esc_free("\u{22ee}"@),
        esc_free("\u{2026}"@),
        esc_free("no flow stages"@),
{
    reveal_strlit(" ");
    reveal_strlit("  ");
    reveal_strlit("   ");
    reveal_strlit("    ");
    reveal_strlit("\u{25b6}");
    reveal_strlit("\u{22ee}");
    reveal_strlit("\u{2026}");
    reveal_strlit("no flow stages");
}

/// The stages' texts and separators hold no escape character.
pub open spec fn flow_free(flow: Seq<StageView>) -> bool {
    forall|i: int|
        0 <= i < flow.len() ==> esc_free((#[trigger] flow[i]).text) && (flow[i].separator matches Some(sep)
            ==> esc_free(sep))
}

proof fn lemma_group_rows(st: StageView, selected: bool, text_width: int)
    requires
        esc_free(st.text),
        st.separator matches Some(sep) ==> esc_free(sep),
    ensures
        all_free(group_rows(false, st, selected, text_width)),
{
    broadcast use group_free;

    lemma_card_literals();
    let reserve = match st.separator {
        Some(sep) => sep.len() + 1,
        None => 0,
    };
    let ww = if text_width - reserve < 1 {
        1
    } else {
        text_width - reserve
    };
    let rows = stage_rows(st.text, ww);
    lemma_stage_rows(st.text, ww);
    let g = group_rows(false, st, selected, text_width);
    assert forall|i: int| 0 <= i < g.len() implies #[trigger] esc_free(g[i]) by {
        assert(esc_free(rows[i]));
        lemma_colorized(rows[i]);
        assert(g[i] == group_row(false, st, selected, rows, i));
    }
}

/// Every group of rows of `g` holds no escape character.
pub open spec fn groups_free(g: Seq<Seq<Seq<char>>>) -> bool {
    forall|i: int| 0 <= i < g.len() ==> #[trigger] all_free(g[i])
}

proof fn lemma_stage_groups(state: ReviewPanelState, text_width: int)
    requires
        flow_free(state.candidate@.flow),
    ensures
        groups_free(stage_groups(state, text_width, false)),
{
    let g = stage_groups(state, text_width, false);
    let flow = state.candidate@.flow;
    assert forall|i: int| 0 <= i < g.len() implies #[trigger] all_free(g[i]) by {
        assert(esc_free(flow[i].text));
        lemma_group_rows(flow[i], i == state.flow_stage, text_width);
    }
}

proof fn lemma_flat(g: Seq<Seq<Seq<char>>>, lo: int, hi: int)
    requires
        groups_free(g),
        0 <= lo,
        hi <= g.len(),
    ensures
        all_free(flat(g, lo, hi)),
    decreases hi - lo,
{
    broadcast use group_free;

    if hi > lo {
        lemma_flat(g, lo, hi - 1);
        assert(all_free(g[hi - 1]));
    }
}

proof fn lemma_window(g: Seq<Seq<Seq<char>>>, budget: int, lo: int, hi: int, used: int)
    requires
        0 <= lo,
        hi <= g.len(),
    ensures
        0 <= window(g, budget, lo, hi, used).0,
        window(g, budget, lo, hi, used).1 <= g.len(),
    decreases lo + g.len() - hi,
{
    let (lo1, hi1, used1, expanded) = widen(g, budget, lo, hi, used);
    if expanded && 0 <= lo1 && hi1 <= g.len() && lo1 + g.len() - hi1 < lo + g.len() - hi {
        lemma_window(g, budget, lo1, hi1, used1);
    }
}

proof fn lemma_stack_rows(state: ReviewPanelState, text_width: int, budget: int)
    requires
        flow_free(state.candidate@.flow),
    ensures
        all_free(stack_rows(state, text_width, budget, false)),
{
    broadcast use group_free;

    lemma_card_literals();
    let g = stage_groups(state, text_width, false);
    lemma_stage_groups(state, text_width);
    let n = g.len() as int;
    if n == 0 {
        let one: Seq<Seq<char>> = seq!["    "@ + "no flow stages"@];
        assert(all_free(one)) by {
            assert forall|i: int| 0 <= i < one.len() implies #[trigger] esc_free(one[i]) by {
                assert(one[i] == "    "@ + "no flow stages"@);
            }
        }
    } else {
        let sel = if state.flow_stage < n - 1 {
            state.flow_stage as int
        } else {
            n - 1
        };
        let b = if budget < 1 {
            1
        } else {
            budget
        };
        assert(all_free(g[sel]));
        if g[sel].len() > b {
            let t = g[sel].take(b);
            let u = t.update(b - 1, t[b - 1].push('\u{2026}'));
            assert(esc_free(t[b - 1]));
            assert forall|i: int| 0 <= i < u.len() implies #[trigger] esc_free(u[i]) by {
                if i != b - 1 {
                    assert(u[i] == g[sel][i]);
                }
            }
        } else {
            let (lo, hi) = window(g, b, sel, sel + 1, g[sel].len() as int);
            lemma_window(g, b, sel, sel + 1, g[sel].len() as int);
            lemma_flat(g, lo, hi);
            let marker: Seq<Seq<char>> = seq![hidden_marker(false)];
            assert(all_free(marker)) by {
                assert forall|i: int| 0 <= i < marker.len() implies #[trigger] esc_free(marker[i]) by {
                    assert(marker[i] == "    "@ + "\u{22ee}"@);
                }
            }
            assert(all_free(Seq::<Seq<char>>::empty()));
        }
    }
}


/// Every content row of `c` holds no escape character.
pub open spec fn rows_free(c: Seq<(u8, Seq<char>)>) -> bool {
    forall|i: int| 0 <= i < c.len() ==> #[trigger] esc_free(c[i].1)
}

broadcast proof fn lemma_rows_add(a: Seq<(u8, Seq<char>)>, b: Seq<(u8, Seq<char>)>)
    requires
        rows_free(a),
        rows_free(b),
    ensures
        #[trigger] rows_free(a + b),
{
    assert forall|i: int| 0 <= i < (a + b).len() implies #[trigger] esc_free((a + b)[i].1) by {
        if i < a.len() {
            assert((a + b)[i] == a[i]);
        } else {
            assert((a + b)[i] == b[i - a.len()]);
        }
    }
}

proof fn lemma_padded(value: Seq<char>, width: int)
    requires
        esc_free(value),
    ensures
        esc_free(padded(value, width)),
{
    broadcast use group_free;

}

proof fn lemma_ellipsized(value: Seq<char>, width: int)
    requires
        esc_free(value),
    ensures
        esc_free(ellipsized(value, width)),
{
    broadcast use group_free;

    assert(esc_free(Seq::<char>::empty()));
}

proof fn lemma_ellipsis_run(s: Seq<char>, width: int)
    requires
        esc_free(s),
    ensures
        esc_free(ellipsis_run(s, width).2),
    decreases s.len(),
{
    broadcast use group_free;

    if s.len() == 0 {
        assert(esc_free(Seq::<char>::empty()));
    } else {
        lemma_ellipsis_run(s.drop_last(), width);
        assert(s.last() == s[s.len() - 1]);
    }
}

proof fn lemma_framed(row: Seq<char>, inner: int)
    requires
        esc_free(row),
    ensures
        esc_free(framed(false, row, inner)),
{
    broadcast use group_free;

    lemma_card_literals();
    reveal_strlit("\u{2502}");
    lemma_ellipsis_run(row, inner);
    lemma_padded(ellipsized_visible(row, inner), inner);
}

proof fn lemma_purpose(state: ReviewPanelState)
    ensures
        esc_free(purpose_of(state.candidate@, state.flow_stage as int)),
{
    let c = state.candidate@;
    let i = state.flow_stage as int;
    if 0 <= i < c.stages.len() && c.stages[i].purpose is Some {
        let t = sanitized(c.stages[i].purpose->0);
        sanitized_text_is_terminal_safe(c.stages[i].purpose->0);
        assert forall|k: int| 0 <= k < t.len() implies t[k] != '\u{1b}' by {
            assert(terminal_safe(t[k]));
        }
    } else {
        reveal_strlit("ready");
        reveal_strlit("loading");
        reveal_strlit("purpose-unavailable");
    }
}

proof fn lemma_hint_line(v: PanelView, detailed: bool)
    ensures
        esc_free(hint_line(v, detailed, false)),
{
    broadcast use group_free;

    lemma_card_literals();
    reveal_strlit("\u{23ce}");
    reveal_strlit(" commit");
    reveal_strlit(" \u{b7} ");
    reveal_strlit("esc");
    reveal_strlit(" discard");
    reveal_strlit("esc close");
    reveal_strlit("accept");
    reveal_strlit("\u{2191}\u{2193}");
    reveal_strlit(" stage");
    reveal_strlit("e");
    reveal_strlit("dit");
    reveal_strlit("r");
    reveal_strlit("eject");
    reveal_strlit("d/?");
    reveal_strlit(" simple");
    reveal_strlit("D");
    reveal_strlit(" disable review");
    reveal_strlit("stage");
    reveal_strlit("details");
    if v.input_mode == PanelInputMode::CommandEditor {
    } else if v.explain_only {
    } else if detailed {
        let parts = seq![
            key_label(false, "\u{23ce}"@, "accept"@),
            keyed(false, "\u{2191}\u{2193}"@, " stage"@),
            keyed(false, "e"@, "dit"@),
            keyed(false, "r"@, "eject"@),
            keyed(false, "d/?"@, " simple"@),
            keyed(false, "D"@, " disable review"@),
            paint(false, "1;38;5;81"@, "esc"@),
        ];
        assert(all_free(parts)) by {
            assert(esc_free(parts[0]));
            assert(esc_free(parts[1]));
            assert(esc_free(parts[2]));
            assert(esc_free(parts[3]));
            assert(esc_free(parts[4]));
            assert(esc_free(parts[5]));
            assert(esc_free(parts[6]));
        }
        lemma_join(parts, paint(false, "2"@, " \u{b7} "@));
    } else {
        let parts = seq![
            key_label(false, "\u{23ce}"@, "accept"@),
            key_label(false, "\u{2191}\u{2193}"@, "stage"@),
            key_label(false, "d/?"@, "details"@),
            paint(false, "1;38;5;81"@, "esc"@),
        ];
        assert(all_free(parts)) by {
            assert(esc_free(parts[0]));
            assert(esc_free(parts[1]));
            assert(esc_free(parts[2]));
            assert(esc_free(parts[3]));
        }
        lemma_join(parts, paint(false, "2"@, " \u{b7} "@));
    }
}


proof fn lemma_card_stack(state: ReviewPanelState, inner: int, budget: int)
    requires
        flow_free(state.candidate@.flow),
    ensures
        rows_free(card_stack(state, inner, budget, false)),
{
    broadcast use group_free;

    lemma_card_literals();
    reveal_strlit("Command");
    let detailed = is_detailed(state);
    let base = if detailed {
        10int
    } else {
        0int
    };
    let stack = stack_rows(state, cut(inner, base + 4), budget, false);
    lemma_stack_rows(state, cut(inner, base + 4), budget);
    let c = card_stack(state, inner, budget, false);
    assert forall|i: int| 0 <= i < c.len() implies #[trigger] esc_free(c[i].1) by {
        assert(esc_free(stack[i]));
        lemma_padded("Command"@, 7);
    }
}

proof fn lemma_purpose_part(purposes: Seq<Seq<char>>, count: int, indent: int)
    requires
        all_free(purposes),
        0 <= count <= purposes.len(),
    ensures
        rows_free(purpose_part(purposes, count, indent, false)),
{
    broadcast use group_free;

    lemma_card_literals();
    reveal_strlit("\u{21b3}");
    let c = purpose_part(purposes, count, indent, false);
    assert forall|p: int| 0 <= p < c.len() implies #[trigger] esc_free(c[p].1) by {
        assert(esc_free(purposes[p]));
    }
}

proof fn lemma_card_content(state: ReviewPanelState, inner: int, available: int)
    requires
        flow_free(state.candidate@.flow),
    ensures
        rows_free(card_content(state, inner, available, false)),
{
    broadcast use group_free;

    reveal(card_content);
    lemma_card_literals();
    reveal_strlit("Intent");
    reveal_strlit("Edit");
    reveal_strlit("\u{258f}");
    let detailed = is_detailed(state);
    let intent = sanitized(state.context.intent@);
    sanitized_text_is_terminal_safe(state.context.intent@);
    assert forall|k: int| 0 <= k < intent.len() implies intent[k] != '\u{1b}' by {
        assert(terminal_safe(intent[k]));
    }
    let edited = sanitized(state.editor_buffer@);
    sanitized_text_is_terminal_safe(state.editor_buffer@);
    assert forall|k: int| 0 <= k < edited.len() implies edited[k] != '\u{1b}' by {
        assert(terminal_safe(edited[k]));
    }
    lemma_ellipsized(intent, cut(inner, 10));
    lemma_padded("Intent"@, 7);
    lemma_padded("Edit"@, 7);
    let blank: (u8, Seq<char>) = (10u8, Seq::<char>::empty());
    let head = if detailed {
        seq![(50u8, label_cell(false, "Intent"@) + "   "@ + paint(false, "2"@, ellipsized(intent, cut(inner, 10)))), blank]
    } else {
        seq![blank]
    };
    assert(rows_free(head)) by {
        assert(esc_free(Seq::<char>::empty()));
        assert(esc_free(head[0].1));
        if detailed {
            assert(esc_free(head[1].1));
        }
    }
    let gap = if detailed {
        Seq::<(u8, Seq<char>)>::empty()
    } else {
        seq![blank]
    };
    assert(rows_free(gap)) by {
        assert(esc_free(Seq::<char>::empty()));
        if !detailed {
            assert(esc_free(gap[0].1));
        }
    }
    let editor = if detailed && state.input_mode == PanelInputMode::CommandEditor {
        seq![(95u8, label_cell(false, "Edit"@) + "   "@ + paint(false, "97"@, edited + "\u{258f}"@))]
    } else {
        Seq::<(u8, Seq<char>)>::empty()
    };
    assert(rows_free(editor)) by {
        if editor.len() > 0 {
            assert(esc_free(editor[0].1));
        }
    }
    lemma_card_stack(state, inner, stack_budget(state, inner, available));
    lemma_purpose(state);
    let indent = if detailed {
        14int
    } else {
        4int
    };
    lemma_stage_rows(purpose_of(state.candidate@, state.flow_stage as int), cut(inner, indent + 2));
    lemma_purpose_part(card_purposes(state, inner), purpose_count(state, inner), indent);
    lemma_hint_line(state@, detailed);
    let tail = seq![blank, (30u8, hint_line(state@, detailed, false))];
    assert(rows_free(tail)) by {
        assert(esc_free(Seq::<char>::empty()));
        assert(esc_free(tail[0].1));
        assert(esc_free(tail[1].1));
    }
}

proof fn lemma_pruned(c: Seq<(u8, Seq<char>)>, available: int)
    requires
        rows_free(c),
    ensures
        rows_free(pruned(c, available)),
    decreases c.len(),
{
    let k = first_lowest(c, c.len() as int);
    if !(c.len() <= available || !(0 <= k < c.len())) {
        let r = c.remove(k);
        assert forall|i: int| 0 <= i < r.len() implies #[trigger] esc_free(r[i].1) by {
            if i < k {
                assert(r[i] == c[i]);
            } else {
                assert(r[i] == c[i + 1]);
            }
        }
        lemma_pruned(r, available);
    }
}


proof fn lemma_rfind_bounds(s: Seq<char>, c: char)
    ensures
        rfind_char(s, c) matches Some(k) ==> 0 <= k < s.len(),
    decreases s.len(),
{
    if s.len() > 0 {
        lemma_rfind_bounds(s.drop_last(), c);
    }
}

proof fn lemma_short_model(model: Seq<char>)
    requires
        esc_free(model),
    ensures
        esc_free(short_model(model)),
{
    broadcast use group_free;

    lemma_rfind_bounds(model, '/');
    let last = match rfind_char(model, '/') {
        Some(k) => model.skip(k + 1),
        None => model,
    };
    let bare = if last.len() > 0 && last[0] == '~' {
        last.skip(1)
    } else {
        last
    };
    lemma_find_from(bare, 0, seq![':']);
}

/// The tier, provider and model of a context hold no escape character.
pub open spec fn context_free(c: ContextView) -> bool {
    esc_free(c.tier) && esc_free(c.provider) && esc_free(c.model)
}

proof fn lemma_top_line(state: ReviewPanelState, inner: int)
    requires
        context_free(state@.context),
    ensures
        esc_free(top_line(state, inner, false)),
{
    broadcast use group_free;

    lemma_card_literals();
    reveal_strlit("\u{250c}");
    reveal_strlit("\u{2510}");
    reveal_strlit("watn");
    reveal_strlit(" \u{b7} ");
    reveal_strlit("review");
    reveal_strlit("\u{25c6} tier ");
    reveal_strlit("/");
    reveal_strlit("\u{25c6} ");
    let v = state@;
    lemma_short_model(v.context.model);
    let detailed = is_detailed(state);
    let header = header_text(v, detailed);
    assert(esc_free(header));
    let lw = visible_width(top_left(false));
    lemma_ellipsized(header, cut(cut(inner, lw), 2));
    let right = paint(false, "38;5;240"@, ellipsized(header, cut(cut(inner, lw), 2)));
    let fill = cut(inner, saturated(lw + visible_width(right)));
    lemma_free_fill(fill as nat, '\u{2500}');
}

proof fn lemma_bottom_line(inner: int)
    ensures
        esc_free(bottom_line(false, inner)),
{
    broadcast use group_free;

    reveal_strlit("\u{2514}");
    reveal_strlit("\u{2518}");
    lemma_free_fill((inner + 2) as nat, '\u{2500}');
}

/// A card drawn without color holds no escape character where the texts
/// that it shows as they are (the stages and their separators, and the
/// tier, provider and model) hold none; the intent, the purposes and the
/// command being edited are sanitized before they are shown.
pub proof fn plain_card_has_no_escape(state: ReviewPanelState, layout: InlineLayout)
    requires
        flow_free(state.candidate@.flow),
        context_free(state@.context),
    ensures
        forall|k: int|
            0 <= k < card_lines(state, layout, false).len() ==> #[trigger] esc_free(
                card_lines(state, layout, false)[k],
            ),
{
    broadcast use group_free;

    let inner = card_inner(layout.width);
    let available = card_rows(layout.height) - 2;
    lemma_card_content(state, inner, available);
    let rows = pruned(card_content(state, inner, available, false), available);
    lemma_pruned(card_content(state, inner, available, false), available);
    lemma_top_line(state, inner);
    lemma_bottom_line(inner);
    let lines = card_lines(state, layout, false);
    let framed_rows = rows.map_values(|p: (u8, Seq<char>)| framed(false, p.1, inner));
    assert forall|k: int| 0 <= k < lines.len() implies #[trigger] esc_free(lines[k]) by {
        if k == 0 {
            assert(lines[k] == top_line(state, inner, false));
        } else if k <= rows.len() {
            assert(lines[k] == framed_rows[k - 1]);
            assert(esc_free(rows[k - 1].1));
            lemma_framed(rows[k - 1].1, inner);
        } else {
            assert(lines[k] == bottom_line(false, inner));
        }
    }
}

} // verus!
