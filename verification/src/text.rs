//! Character-level string helpers shared by the parsers and renderers.
use vstd::prelude::*;
use vstd::std_specs::iter::IteratorSpec;

verus! {

broadcast use vstd::string::group_string_axioms;

/// Unicode `White_Space`, the set that `char::is_whitespace` and `str::trim`
/// use.
pub open spec fn is_ws(c: char) -> bool {
    let v = c as u32;
    ||| (0x09 <= v && v <= 0x0d)
    ||| v == 0x20
    ||| v == 0x85
    ||| v == 0xa0
    ||| v == 0x1680
    ||| (0x2000 <= v && v <= 0x200a)
    ||| v == 0x2028
    ||| v == 0x2029
    ||| v == 0x202f
    ||| v == 0x205f
    ||| v == 0x3000
}

/// ASCII whitespace as `u8::is_ascii_whitespace` defines it.
pub open spec fn is_ascii_ws(c: char) -> bool {
    c == ' ' || c == '\t' || c == '\n' || c == '\x0c' || c == '\r'
}

pub fn is_whitespace(c: char) -> (b: bool)
    ensures
        b == is_ws(c),
{
    let v = c as u32;
    (0x09 <= v && v <= 0x0d) || v == 0x20 || v == 0x85 || v == 0xa0 || v == 0x1680 || (0x2000
        <= v && v <= 0x200a) || v == 0x2028 || v == 0x2029 || v == 0x202f || v == 0x205f || v
        == 0x3000
}

pub fn is_ascii_whitespace(c: char) -> (b: bool)
    ensures
        b == is_ascii_ws(c),
{
    c == ' ' || c == '\t' || c == '\n' || c == '\x0c' || c == '\r'
}

/// Number of bytes that the UTF-8 encoding of `c` takes.
pub open spec fn utf8_width(c: char) -> int {
    let v = c as u32;
    if v < 0x80 {
        1
    } else if v < 0x800 {
        2
    } else if v < 0x10000 {
        3
    } else {
        4
    }
}

/// Byte offset of the character at index `i` in the UTF-8 encoding of `s`.
pub open spec fn utf8_offset(s: Seq<char>, i: int) -> int
    decreases i,
{
    if i <= 0 || s.len() == 0 {
        0
    } else if i > s.len() {
        utf8_offset(s, s.len() as int)
    } else {
        utf8_offset(s, i - 1) + utf8_width(s[i - 1])
    }
}

/// The characters of a string, in order.
pub fn chars_of(s: &str) -> (v: Vec<char>)
    ensures
        v@ == s@,
{
    let mut v: Vec<char> = Vec::new();
    let mut it = s.chars();
    let ghost all = s@;
    loop
        invariant
            it.remaining() == all.subrange(v@.len() as int, all.len() as int),
            v@ == all.subrange(0, v@.len() as int),
            v@.len() <= all.len(),
        ensures
            v@ == all,
        decreases all.len() - v@.len(),
    {
        match it.next() {
            Some(c) => {
                v.push(c);
            },
            None => {
                break;
            },
        }
    }
    v
}

proof fn lemma_offset_front(s: Seq<char>, i: int)
    requires
        1 <= i <= s.len(),
    ensures
        utf8_offset(s, i) == utf8_width(s[0]) + utf8_offset(s.drop_first(), i - 1),
    decreases i,
{
    let d = s.drop_first();
    if i > 1 {
        lemma_offset_front(s, i - 1);
        assert(s[i - 1] == d[i - 2]);
        assert(utf8_offset(d, i - 1) == utf8_offset(d, i - 2) + utf8_width(d[i - 2]));
    } else {
        assert(utf8_offset(s, 0) == 0);
        assert(utf8_offset(d, 0) == 0);
    }
    assert(utf8_offset(s, i) == utf8_offset(s, i - 1) + utf8_width(s[i - 1]));
}

proof fn lemma_offset_monotone(s: Seq<char>, i: int, j: int)
    requires
        0 <= i <= j <= s.len(),
    ensures
        utf8_offset(s, i) <= utf8_offset(s, j),
    decreases j,
{
    if i < j {
        lemma_offset_monotone(s, i, j - 1);
    }
}

/// The byte offset past the last character is the length of the encoding.
proof fn lemma_offset_total(s: Seq<char>)
    ensures
        utf8_offset(s, s.len() as int) == vstd::utf8::encode_utf8(s).len(),
    decreases s.len(),
{
    if s.len() > 0 {
        lemma_offset_total(s.drop_first());
        lemma_offset_front(s, s.len() as int);
        vstd::utf8::char_is_scalar(s[0]);
    }
}

/// The UTF-8 length of `c`.
fn utf8_len(c: char) -> (n: usize)
    ensures
        n as int == utf8_width(c),
{
    let v = c as u32;
    if v < 0x80 {
        1
    } else if v < 0x800 {
        2
    } else if v < 0x10000 {
        3
    } else {
        4
    }
}

/// Byte position of every character of `s`, followed by the byte length of
/// `s`: the positions that `str::char_indices` reports.
pub fn char_byte_offsets(s: &str) -> (offsets: Vec<usize>)
    ensures
        offsets@.len() == s@.len() + 1,
        forall|k: int| 0 <= k <= s@.len() ==> offsets@[k] as int == utf8_offset(s@, k),
{
    let total = s.as_bytes().len();
    proof {
        lemma_offset_total(s@);
    }
    let chars = chars_of(s);
    let mut offsets: Vec<usize> = Vec::new();
    let mut at: usize = 0;
    let mut k: usize = 0;
    while k < chars.len()
        invariant
            chars@ == s@,
            k <= chars@.len(),
            total as int == utf8_offset(s@, s@.len() as int),
            at as int == utf8_offset(s@, k as int),
            offsets@.len() == k,
            forall|j: int| 0 <= j < k ==> offsets@[j] as int == utf8_offset(s@, j),
        decreases chars@.len() - k,
    {
        offsets.push(at);
        proof {
            lemma_offset_monotone(s@, k + 1, s@.len() as int);
        }
        at = at + utf8_len(chars[k]);
        k += 1;
    }
    offsets.push(at);
    offsets
}

/// `String::push`.
#[verifier::external_body]
pub fn push_char(s: &mut String, c: char)
    ensures
        final(s)@ == old(s)@.push(c),
{
    s.push(c);
}

/// Append `other` to `s`.
pub fn push_str(s: &mut String, other: &str)
    ensures
        final(s)@ == old(s)@ + other@,
{
    s.append(other);
}

/// The string made of the characters `v[start..end]`.
pub fn string_from(v: &[char], start: usize, end: usize) -> (s: String)
    requires
        start <= end <= v@.len(),
    ensures
        s@ == v@.subrange(start as int, end as int),
{
    let mut s = String::new();
    let mut i: usize = start;
    while i < end
        invariant
            start <= i <= end <= v@.len(),
            s@ == v@.subrange(start as int, i as int),
        decreases end - i,
    {
        push_char(&mut s, v[i]);
        assert(v@.subrange(start as int, i + 1) == v@.subrange(start as int, i as int).push(v@[i as int]));
        i += 1;
    }
    s
}

/// The string made of all characters of `v`.
pub fn string_of(v: &[char]) -> (s: String)
    ensures
        s@ == v@,
{
    let s = string_from(v, 0, v.len());
    assert(v@.subrange(0, v@.len() as int) == v@);
    s
}

/// Whether `v[i..]` starts with `p`.
pub open spec fn starts_at(v: Seq<char>, i: int, p: Seq<char>) -> bool {
    0 <= i && i + p.len() <= v.len() && v.subrange(i, i + p.len()) == p
}

pub fn has_at(v: &[char], i: usize, p: &[char]) -> (b: bool)
    ensures
        b == starts_at(v@, i as int, p@),
{
    if i > v.len() || p.len() > v.len() - i {
        return false;
    }
    let mut k: usize = 0;
    while k < p.len()
        invariant
            i + p@.len() <= v@.len(),
            v@.len() == v.len(),
            k <= p@.len(),
            forall|j: int| 0 <= j < k ==> v@[i + j] == p@[j],
        decreases p.len() - k,
    {
        if v[i + k] != p[k] {
            assert(v@.subrange(i as int, i + p@.len())[k as int] != p@[k as int]);
            return false;
        }
        k += 1;
    }
    assert(v@.subrange(i as int, i + p@.len()) =~= p@);
    true
}

/// Index of the first character of `v[from..to]` that is not whitespace, or
/// `to` when there is none.
pub open spec fn skip_ws(v: Seq<char>, from: int, to: int) -> int
    decreases to - from,
{
    if from >= to {
        to
    } else if is_ws(v[from]) {
        skip_ws(v, from + 1, to)
    } else {
        from
    }
}

pub proof fn lemma_skip_ws(v: Seq<char>, from: int, to: int)
    requires
        0 <= from <= to <= v.len(),
    ensures
        from <= skip_ws(v, from, to) <= to,
        forall|k: int| from <= k < skip_ws(v, from, to) ==> is_ws(v[k]),
        skip_ws(v, from, to) < to ==> !is_ws(v[skip_ws(v, from, to)]),
    decreases to - from,
{
    if from < to && is_ws(v[from]) {
        lemma_skip_ws(v, from + 1, to);
    }
}

pub fn skip_whitespace(v: &[char], from: usize, to: usize) -> (r: usize)
    requires
        from <= to <= v@.len(),
    ensures
        r == skip_ws(v@, from as int, to as int),
{
    let mut i: usize = from;
    while i < to && is_whitespace(v[i])
        invariant
            from <= i <= to <= v@.len(),
            skip_ws(v@, i as int, to as int) == skip_ws(v@, from as int, to as int),
        decreases to - i,
    {
        i += 1;
    }
    i
}

/// End of `v[from..to]` without its trailing whitespace.
pub open spec fn trim_end_at(v: Seq<char>, from: int, to: int) -> int
    decreases to - from,
{
    if to <= from {
        from
    } else if is_ws(v[to - 1]) {
        trim_end_at(v, from, to - 1)
    } else {
        to
    }
}

pub proof fn lemma_trim_end_at(v: Seq<char>, from: int, to: int)
    requires
        0 <= from <= to <= v.len(),
    ensures
        from <= trim_end_at(v, from, to) <= to,
        forall|k: int| trim_end_at(v, from, to) <= k < to ==> is_ws(v[k]),
        trim_end_at(v, from, to) > from ==> !is_ws(v[trim_end_at(v, from, to) - 1]),
    decreases to - from,
{
    if from < to && is_ws(v[to - 1]) {
        lemma_trim_end_at(v, from, to - 1);
    }
}

pub fn trim_end_index(v: &[char], from: usize, to: usize) -> (r: usize)
    requires
        from <= to <= v@.len(),
    ensures
        r == trim_end_at(v@, from as int, to as int),
{
    let mut j: usize = to;
    while j > from && is_whitespace(v[j - 1])
        invariant
            from <= j <= to <= v@.len(),
            trim_end_at(v@, from as int, j as int) == trim_end_at(v@, from as int, to as int),
        decreases j,
    {
        j -= 1;
    }
    j
}


/// Whether two strings hold the same characters.
pub fn str_eq(a: &str, b: &str) -> (r: bool)
    ensures
        r == (a@ == b@),
{
    let x = chars_of(a);
    let y = chars_of(b);
    if x.len() != y.len() {
        return false;
    }
    let r = has_at(x.as_slice(), 0, y.as_slice());
    assert(x@.subrange(0, y@.len() as int) =~= x@);
    r
}


/// First index at or after `i` where `p` occurs in `s`.
pub open spec fn find_from(s: Seq<char>, i: int, p: Seq<char>) -> Option<int>
    decreases s.len() + 1 - i,
{
    if i < 0 || i + p.len() > s.len() {
        None
    } else if starts_at(s, i, p) {
        Some(i)
    } else {
        find_from(s, i + 1, p)
    }
}

pub proof fn lemma_find_from(s: Seq<char>, i: int, p: Seq<char>)
    requires
        0 <= i,
    ensures
        find_from(s, i, p) matches Some(k) ==> i <= k && k + p.len() <= s.len() && starts_at(
            s,
            k,
            p,
        ),
    decreases s.len() + 1 - i,
{
    if i + p.len() <= s.len() && !starts_at(s, i, p) {
        lemma_find_from(s, i + 1, p);
    }
}

pub fn find_at_or_after(s: &[char], from: usize, p: &[char]) -> (r: Option<usize>)
    requires
        from <= s@.len(),
    ensures
        match r {
            Some(k) => find_from(s@, from as int, p@) == Some(k as int),
            None => find_from(s@, from as int, p@) is None,
        },
{
    if p.len() == 0 {
        assert(s@.subrange(from as int, from as int) =~= p@);
        return Some(from);
    }
    let mut i: usize = from;
    while i <= s.len()
        invariant
            from <= i,
            i <= s@.len() + 1,
            s@.len() == s.len(),
            p@.len() >= 1,
            find_from(s@, i as int, p@) == find_from(s@, from as int, p@),
        decreases s@.len() + 1 - i,
    {
        if p.len() > s.len() - i {
            return None;
        }
        if has_at(s, i, p) {
            return Some(i);
        }
        i += 1;
    }
    None
}

/// Last index of `c` in `s`.
pub open spec fn rfind_char(s: Seq<char>, c: char) -> Option<int>
    decreases s.len(),
{
    if s.len() == 0 {
        None
    } else if s.last() == c {
        Some(s.len() - 1)
    } else {
        rfind_char(s.drop_last(), c)
    }
}

pub fn rfind_char_in(s: &[char], c: char) -> (r: Option<usize>)
    ensures
        match r {
            Some(k) => rfind_char(s@, c) == Some(k as int) && k < s@.len(),
            None => rfind_char(s@, c) is None,
        },
{
    let mut j: usize = s.len();
    assert(s@.take(j as int) =~= s@);
    while j > 0
        invariant
            j <= s@.len(),
            rfind_char(s@.take(j as int), c) == rfind_char(s@, c),
        decreases j,
    {
        assert(s@.take(j as int).last() == s@[j - 1]);
        if s[j - 1] == c {
            return Some(j - 1);
        }
        assert(s@.take(j as int).drop_last() =~= s@.take(j - 1));
        j -= 1;
    }
    None
}

/// Whether every character of `s` is whitespace (`str::trim` leaves nothing).
pub open spec fn all_ws(s: Seq<char>) -> bool {
    forall|k: int| 0 <= k < s.len() ==> is_ws(s[k])
}

pub fn all_whitespace(s: &[char], from: usize, to: usize) -> (b: bool)
    requires
        from <= to <= s@.len(),
    ensures
        b == all_ws(s@.subrange(from as int, to as int)),
{
    proof {
        lemma_skip_ws(s@, from as int, to as int);
    }
    let k = skip_whitespace(s, from, to);
    if k < to {
        assert(!is_ws(s@.subrange(from as int, to as int)[k - from]));
    }
    k == to
}

/// `s[from..to]` without leading and trailing whitespace, as a range.
pub open spec fn trim_range(s: Seq<char>, from: int, to: int) -> (int, int) {
    let a = skip_ws(s, from, to);
    (a, trim_end_at(s, a, to))
}

/// `str::trim`.
pub open spec fn trim(s: Seq<char>) -> Seq<char> {
    let r = trim_range(s, 0, s.len() as int);
    s.subrange(r.0, r.1)
}

pub proof fn lemma_trim_range(s: Seq<char>, from: int, to: int)
    requires
        0 <= from <= to <= s.len(),
    ensures
        from <= trim_range(s, from, to).0 <= trim_range(s, from, to).1 <= to,
{
    lemma_skip_ws(s, from, to);
    lemma_trim_end_at(s, skip_ws(s, from, to), to);
}

pub fn trim_bounds(s: &[char], from: usize, to: usize) -> (r: (usize, usize))
    requires
        from <= to <= s@.len(),
    ensures
        (r.0 as int, r.1 as int) == trim_range(s@, from as int, to as int),
        from <= r.0 <= r.1 <= to,
{
    proof {
        lemma_trim_range(s@, from as int, to as int);
    }
    let a = skip_whitespace(s, from, to);
    let b = trim_end_index(s, a, to);
    (a, b)
}

/// The characters of `s` without leading and trailing whitespace.
pub fn trimmed_chars(s: &str) -> (r: Vec<char>)
    ensures
        r@ == trim(s@),
{
    let v = chars_of(s);
    let (a, b) = trim_bounds(v.as_slice(), 0, v.len());
    let mut r: Vec<char> = Vec::new();
    let mut k: usize = a;
    while k < b
        invariant
            a <= k <= b <= v@.len(),
            r@ == v@.subrange(a as int, k as int),
        decreases b - k,
    {
        r.push(v[k]);
        assert(v@.subrange(a as int, k + 1) =~= v@.subrange(a as int, k as int).push(v@[k as int]));
        k += 1;
    }
    r
}

/// `str::trim` of a string, as a new string.
pub fn trim_string(s: &str) -> (r: String)
    ensures
        r@ == trim(s@),
{
    let v = trimmed_chars(s);
    string_of(v.as_slice())
}

/// Whether `s.trim()` is empty.
pub fn is_blank(s: &str) -> (b: bool)
    ensures
        b == all_ws(s@),
{
    let v = chars_of(s);
    let r = all_whitespace(v.as_slice(), 0, v.len());
    assert(v@.subrange(0, v@.len() as int) =~= v@);
    r
}

pub proof fn lemma_trim_empty(s: Seq<char>)
    ensures
        (trim(s).len() == 0) == all_ws(s),
{
    lemma_skip_ws(s, 0, s.len() as int);
    lemma_trim_range(s, 0, s.len() as int);
    let a = skip_ws(s, 0, s.len() as int);
    if a < s.len() {
        lemma_trim_end_at(s, a, s.len() as int);
        lemma_trim_end_pos(s, a, s.len() as int);
    }
}

/// A non-empty trimmed string is not blank.
pub proof fn lemma_trim_nonblank(s: Seq<char>)
    ensures
        trim(s).len() > 0 ==> !all_ws(trim(s)),
{
    lemma_skip_ws(s, 0, s.len() as int);
    lemma_trim_range(s, 0, s.len() as int);
    let a = skip_ws(s, 0, s.len() as int);
    if trim(s).len() > 0 {
        assert(trim(s)[0] == s[a]);
    }
}

proof fn lemma_trim_end_pos(s: Seq<char>, a: int, end: int)
    requires
        0 <= a < end <= s.len(),
        !is_ws(s[a]),
    ensures
        a < trim_end_at(s, a, end),
    decreases end - a,
{
    if end - 1 > a && is_ws(s[end - 1]) {
        lemma_trim_end_pos(s, a, end - 1);
    }
}


/// Decimal digits of `n`, most significant first, without leading zeros.
pub open spec fn decimal_text(n: nat) -> Seq<char>
    decreases n,
{
    if n < 10 {
        seq![digit_char(n)]
    } else {
        decimal_text(n / 10).push(digit_char(n % 10))
    }
}

pub open spec fn digit_char(d: nat) -> char {
    if d == 0 {
        '0'
    } else if d == 1 {
        '1'
    } else if d == 2 {
        '2'
    } else if d == 3 {
        '3'
    } else if d == 4 {
        '4'
    } else if d == 5 {
        '5'
    } else if d == 6 {
        '6'
    } else if d == 7 {
        '7'
    } else if d == 8 {
        '8'
    } else {
        '9'
    }
}

fn digit(d: u64) -> (c: char)
    requires
        d < 10,
    ensures
        c == digit_char(d as nat),
{
    if d == 0 {
        '0'
    } else if d == 1 {
        '1'
    } else if d == 2 {
        '2'
    } else if d == 3 {
        '3'
    } else if d == 4 {
        '4'
    } else if d == 5 {
        '5'
    } else if d == 6 {
        '6'
    } else if d == 7 {
        '7'
    } else if d == 8 {
        '8'
    } else {
        '9'
    }
}

/// `n` written in decimal, as `ToString` writes it.
pub fn decimal(n: u64) -> (s: String)
    ensures
        s@ == decimal_text(n as nat),
    decreases n,
{
    if n < 10 {
        let mut s = String::new();
        push_char(&mut s, digit(n));
        s
    } else {
        let mut s = decimal(n / 10);
        push_char(&mut s, digit(n % 10));
        s
    }
}


/// The strings of `parts` joined by `sep`.
pub open spec fn join(parts: Seq<Seq<char>>, sep: Seq<char>) -> Seq<char>
    decreases parts.len(),
{
    if parts.len() == 0 {
        seq![]
    } else if parts.len() == 1 {
        parts[0]
    } else {
        join(parts.drop_last(), sep) + sep + parts.last()
    }
}

pub open spec fn views_of(v: Seq<String>) -> Seq<Seq<char>> {
    v.map_values(|s: String| s@)
}

/// `[String]::join`.
pub fn join_strings(parts: &[String], sep: &str) -> (r: String)
    ensures
        r@ == join(views_of(parts@), sep@),
{
    let mut out = String::new();
    let mut k: usize = 0;
    assert(views_of(parts@).take(0) =~= Seq::<Seq<char>>::empty());
    while k < parts.len()
        invariant
            k <= parts@.len(),
            out@ == join(views_of(parts@).take(k as int), sep@),
        decreases parts@.len() - k,
    {
        let ghost prefix = views_of(parts@).take(k as int);
        let ghost next = views_of(parts@).take(k + 1);
        assert(next.drop_last() =~= prefix);
        assert(next.last() == parts@[k as int]@);
        if k > 0 {
            push_str(&mut out, sep);
        } else {
            assert(next.len() == 1);
            assert(out@ =~= Seq::<char>::empty());
        }
        push_str(&mut out, parts[k].as_str());
        assert(out@ =~= join(next, sep@));
        k += 1;
    }
    assert(views_of(parts@).take(parts@.len() as int) =~= views_of(parts@));
    out
}


proof fn lemma_skip_ws_shift(v: Seq<char>, st: int, from: int, to: int)
    requires
        0 <= st <= from <= to <= v.len(),
    ensures
        skip_ws(v.skip(st), from - st, to - st) + st == skip_ws(v, from, to),
    decreases to - from,
{
    if from < to {
        assert(v.skip(st)[from - st] == v[from]);
        if is_ws(v[from]) {
            lemma_skip_ws_shift(v, st, from + 1, to);
        }
    }
}

proof fn lemma_trim_end_shift(v: Seq<char>, st: int, from: int, to: int)
    requires
        0 <= st <= from <= to <= v.len(),
    ensures
        trim_end_at(v.skip(st), from - st, to - st) + st == trim_end_at(v, from, to),
    decreases to - from,
{
    if from < to {
        assert(v.skip(st)[to - 1 - st] == v[to - 1]);
        if is_ws(v[to - 1]) {
            lemma_trim_end_shift(v, st, from, to - 1);
        }
    }
}

/// Trimming the rest of `s` from `st` is trimming the range `st..` of `s`.
pub proof fn lemma_trim_range_shift(s: Seq<char>, st: int)
    requires
        0 <= st <= s.len(),
    ensures
        s.subrange(trim_range(s, st, s.len() as int).0, trim_range(s, st, s.len() as int).1) == trim(
            s.skip(st),
        ),
{
    let w = s.skip(st);
    let n = s.len() as int;
    lemma_skip_ws_shift(s, st, st, n);
    let a = skip_ws(s, st, n);
    lemma_skip_ws(s, st, n);
    lemma_trim_end_shift(s, st, a, n);
    lemma_trim_range(s, st, n);
    let b = trim_end_at(s, a, n);
    assert(w.subrange(a - st, b - st) =~= s.subrange(a, b));
}


/// A copy of a list of strings.
pub fn clone_strings(v: &Vec<String>) -> (r: Vec<String>)
    ensures
        views_of(r@) == views_of(v@),
{
    let mut out: Vec<String> = Vec::new();
    let mut k: usize = 0;
    while k < v.len()
        invariant
            k <= v@.len(),
            views_of(out@) == views_of(v@).take(k as int),
        decreases v@.len() - k,
    {
        let ghost before = out@;
        out.push(v[k].clone());
        assert(views_of(out@) =~= views_of(before).push(v@[k as int]@));
        assert(views_of(v@).take(k + 1) =~= views_of(v@).take(k as int).push(v@[k as int]@));
        k += 1;
    }
    assert(views_of(v@).take(v@.len() as int) =~= views_of(v@));
    out
}

pub open spec fn is_digit(c: char) -> bool {
    '0' <= c <= '9'
}

/// The value of a string of decimal digits.
pub open spec fn digits_value(s: Seq<char>) -> nat
    decreases s.len(),
{
    if s.len() == 0 {
        0
    } else {
        10 * digits_value(s.drop_last()) + ((s.last() as nat) - ('0' as nat)) as nat
    }
}

/// What `str::parse::<u64>` accepts: an optional `+`, then one or more
/// decimal digits whose value fits in 64 bits.
pub open spec fn u64_text(s: Seq<char>) -> Option<u64> {
    let digits = sign_stripped(s);
    if digits.len() > 0 && (forall|i: int| 0 <= i < digits.len() ==> is_digit(#[trigger] digits[i]))
        && digits_value(digits) <= u64::MAX {
        Some(digits_value(digits) as u64)
    } else {
        None
    }
}

/// `s` without one leading `+`.
pub open spec fn sign_stripped(s: Seq<char>) -> Seq<char> {
    if s.len() > 0 && s[0] == '+' {
        s.drop_first()
    } else {
        s
    }
}

proof fn lemma_digits_grow(s: Seq<char>, j: int, k: int)
    requires
        0 <= j <= k <= s.len(),
        forall|i: int| 0 <= i < s.len() ==> is_digit(#[trigger] s[i]),
    ensures
        digits_value(s.take(j)) <= digits_value(s.take(k)),
    decreases k - j,
{
    if j < k {
        lemma_digits_grow(s, j, k - 1);
        assert(s.take(k).drop_last() =~= s.take(k - 1));
    }
}

/// `str::parse::<u64>`.
pub fn parse_u64(text: &str) -> (r: Option<u64>)
    ensures
        r == u64_text(text@),
{
    let chars = chars_of(text);
    let mut start: usize = 0;
    if chars.len() > 0 && chars[0] == '+' {
        start = 1;
    }
    let ghost digits = sign_stripped(chars@);
    assert(digits =~= chars@.skip(start as int));
    if start == chars.len() {
        return None;
    }
    let mut value: u64 = 0;
    let mut k: usize = start;
    assert(digits.take(0) =~= Seq::<char>::empty());
    while k < chars.len()
        invariant
            start <= k <= chars@.len(),
            digits == chars@.skip(start as int),
            digits == sign_stripped(text@),
            chars@ == text@,
            forall|i: int| start <= i < k ==> is_digit(#[trigger] chars@[i]),
            value == digits_value(digits.take(k - start)),
        decreases chars@.len() - k,
    {
        let c = chars[k];
        let ghost prefix = digits.take(k - start + 1);
        assert(prefix.drop_last() =~= digits.take(k - start));
        assert(prefix.last() == c);
        if !('0' <= c && c <= '9') {
            assert(!is_digit(digits[k - start]));
            assert(!(forall|i: int| 0 <= i < digits.len() ==> is_digit(#[trigger] digits[i])));
            return None;
        }
        let d: u64 = (c as u32 - '0' as u32) as u64;
        if value > 1844674407370955161 || (value == 1844674407370955161 && d > 5) {
            proof {
                assert(digits_value(prefix) > u64::MAX);
                assert forall|i: int| 0 <= i < k - start + 1 implies is_digit(#[trigger] prefix[i]) by {
                    assert(prefix[i] == chars@[i + start]);
                }
                if forall|i: int| 0 <= i < digits.len() ==> is_digit(#[trigger] digits[i]) {
                    lemma_digits_grow(digits, k - start + 1, digits.len() as int);
                    assert(digits.take(digits.len() as int) =~= digits);
                }
            }
            return None;
        }
        value = value * 10 + d;
        k += 1;
    }
    proof {
        assert(digits.take(k - start) =~= digits);
        assert forall|i: int| 0 <= i < digits.len() implies is_digit(#[trigger] digits[i]) by {
            assert(digits[i] == chars@[i + start]);
        }
    }
    Some(value)
}


/// Octal digits of `n`, most significant first, without leading zeros.
pub open spec fn octal_text(n: nat) -> Seq<char>
    decreases n,
{
    if n < 8 {
        seq![digit_char(n)]
    } else {
        octal_text(n / 8).push(digit_char(n % 8))
    }
}

/// `n` written in octal, as `{:o}` writes it.
pub fn octal(n: u64) -> (s: String)
    ensures
        s@ == octal_text(n as nat),
    decreases n,
{
    if n < 8 {
        let mut s = String::new();
        push_char(&mut s, digit(n));
        s
    } else {
        let mut s = octal(n / 8);
        push_char(&mut s, digit(n % 8));
        s
    }
}

} // verus!
