//! The spinner's frames and the palette its marker pulses through.
use vstd::prelude::*;

verus! {

/// The pulse palette as RGB triples: a fade up to light green and back.
pub open spec fn pulse_palette() -> Seq<(u8, u8, u8)> {
    seq![
        (24u8, 92u8, 60u8),
        (44u8, 116u8, 74u8),
        (64u8, 141u8, 88u8),
        (84u8, 165u8, 102u8),
        (104u8, 190u8, 116u8),
        (124u8, 214u8, 130u8),
        (144u8, 238u8, 144u8),
        (124u8, 214u8, 130u8),
        (104u8, 190u8, 116u8),
        (84u8, 165u8, 102u8),
        (64u8, 141u8, 88u8),
        (44u8, 116u8, 74u8),
        (24u8, 92u8, 60u8),
    ]
}

pub fn pulse_colors() -> (v: Vec<(u8, u8, u8)>)
    ensures
        v@ == pulse_palette(),
{
    let mut v: Vec<(u8, u8, u8)> = Vec::new();
    v.push((24, 92, 60));
    v.push((44, 116, 74));
    v.push((64, 141, 88));
    v.push((84, 165, 102));
    v.push((104, 190, 116));
    v.push((124, 214, 130));
    v.push((144, 238, 144));
    v.push((124, 214, 130));
    v.push((104, 190, 116));
    v.push((84, 165, 102));
    v.push((64, 141, 88));
    v.push((44, 116, 74));
    v.push((24, 92, 60));
    assert(v@ =~= pulse_palette());
    v
}

/// The pulse fades up and back down: the palette reads the same from either
/// end, and its middle differs from its ends.
pub proof fn pulse_is_symmetric()
    ensures
        forall|i: int| 0 <= i < pulse_palette().len() ==> #[trigger] pulse_palette()[i] == pulse_palette()[pulse_palette().len() - 1 - i],
        pulse_palette()[0] != pulse_palette()[6],
{
    let p = pulse_palette();
    assert forall|i: int| 0 <= i < p.len() implies #[trigger] p[i] == p[p.len() - 1 - i] by {
        assert(p.len() == 13);
    }
}

/// The thinking face shown in frame `i`.
pub fn thinking_frame(frame: usize) -> (s: &'static str)
    ensures
        s@ == thinking_face((frame % 6) as int),
{
    let i = frame % 6;
    if i == 0 {
        "(._.)"
    } else if i == 1 {
        "(._. )"
    } else if i == 2 {
        "( ._.)"
    } else if i == 3 {
        "( ._. )"
    } else if i == 4 {
        "( ._.)"
    } else {
        "(._. )"
    }
}

pub open spec fn thinking_face(i: int) -> Seq<char> {
    if i == 0 {
        "(._.)"@
    } else if i == 1 {
        "(._. )"@
    } else if i == 2 {
        "( ._.)"@
    } else if i == 3 {
        "( ._. )"@
    } else if i == 4 {
        "( ._.)"@
    } else {
        "(._. )"@
    }
}


/// The frame after `frame`: the pulse starts over after its last color.
pub fn next_frame(frame: usize) -> (r: usize)
    ensures
        r == (frame + 1) % 13,
{
    if frame >= 12 {
        (frame - 12) % 13
    } else {
        frame + 1
    }
}

/// The spinner's status text in a frame: the model asked, the time spent
/// (as text), and the thinking face.
pub fn status_text(model: &str, elapsed: &str, frame: usize) -> (r: String)
    ensures
        r@ == "  Asking "@ + model@ + " \u{b7} "@ + elapsed@ + "s  "@ + thinking_face((frame % 6) as int),
{
    let mut r = String::from_str("  Asking ");
    crate::text::push_str(&mut r, model);
    crate::text::push_str(&mut r, " \u{b7} ");
    crate::text::push_str(&mut r, elapsed);
    crate::text::push_str(&mut r, "s  ");
    crate::text::push_str(&mut r, thinking_frame(frame));
    r
}

} // verus!
