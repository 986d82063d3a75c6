//! Character classes and the basic scans over character sequences that the
//! extraction rules are built from.

use vstd::prelude::*;

verus! {

/// `String::push` of the standard library: the string afterwards is the
/// string before with the character `c` at its end.
pub assume_specification[ String::push ](s: &mut String, c: char)
    ensures
        final(s)@ == old(s)@.push(c),
;

/// `String::push_str` of the standard library: the string afterwards is the
/// string before followed by `other`.
pub assume_specification[ String::push_str ](s: &mut String, other: &str)
    ensures
        final(s)@ == old(s)@ + other@,
;

/// White space: the characters that trimming removes and that separate the
/// parts of a date stamp.
pub open spec fn is_space(c: char) -> bool {
    ||| c == '\t'
    ||| c == '\n'
    ||| c == '\u{0B}'
    ||| c == '\u{0C}'
    ||| c == '\r'
    ||| c == ' '
    ||| c == '\u{A0}'
    ||| c == '\u{1680}'
    ||| ('\u{2000}' <= c && c <= '\u{200A}')
    ||| c == '\u{2028}'
    ||| c == '\u{2029}'
    ||| c == '\u{202F}'
    ||| c == '\u{205F}'
    ||| c == '\u{3000}'
    ||| c == '\u{FEFF}'
}

/// An ASCII decimal digit.
pub open spec fn is_digit(c: char) -> bool {
    '0' <= c && c <= '9'
}

/// A tilde or a wave dash, either of which introduces a date range.
pub open spec fn is_tilde(c: char) -> bool {
    c == '~' || c == '\u{301C}'
}

/// A bullet, arrow, circle or media-control glyph that the page uses as a
/// list marker in front of a title.
pub open spec fn is_bullet(c: char) -> bool {
    ||| c == '\u{25B6}'
    ||| c == '\u{25B7}'
    ||| c == '\u{25BA}'
    ||| c == '\u{25B8}'
    ||| c == '\u{25B3}'
    ||| c == '\u{25B2}'
    ||| c == '\u{21BB}'
    ||| c == '\u{25C9}'
    ||| c == '\u{25CB}'
    ||| c == '\u{25CF}'
    ||| c == '\u{25CE}'
    ||| c == '\u{25A0}'
    ||| c == '\u{25A1}'
}

/// Whether `c` is white space.
pub fn char_is_space(c: char) -> (r: bool)
    ensures
        r == is_space(c),
{
    c == '\t' || c == '\n' || c == '\u{0B}' || c == '\u{0C}' || c == '\r' || c == ' '
        || c == '\u{A0}' || c == '\u{1680}' || ('\u{2000}' <= c && c <= '\u{200A}')
        || c == '\u{2028}' || c == '\u{2029}' || c == '\u{202F}' || c == '\u{205F}'
        || c == '\u{3000}' || c == '\u{FEFF}'
}

/// Whether `c` is a digit.
pub fn char_is_digit(c: char) -> (r: bool)
    ensures
        r == is_digit(c),
{
    '0' <= c && c <= '9'
}

/// Whether `c` is a tilde or a wave dash.
pub fn char_is_tilde(c: char) -> (r: bool)
    ensures
        r == is_tilde(c),
{
    c == '~' || c == '\u{301C}'
}

/// Whether `c` is a bullet.
pub fn char_is_bullet(c: char) -> (r: bool)
    ensures
        r == is_bullet(c),
{
    c == '\u{25B6}' || c == '\u{25B7}' || c == '\u{25BA}' || c == '\u{25B8}' || c == '\u{25B3}'
        || c == '\u{25B2}' || c == '\u{21BB}' || c == '\u{25C9}' || c == '\u{25CB}'
        || c == '\u{25CF}' || c == '\u{25CE}' || c == '\u{25A0}' || c == '\u{25A1}'
}

/// The characters of a string, in order.
pub fn chars_of(s: &str) -> (v: Vec<char>)
    ensures
        v@ == s@,
{
    let mut v: Vec<char> = Vec::new();
    for c in it: s.chars()
        invariant
            v@ == s@.take(it.index() as int),
            it.seq() == s@,
    {
        v.push(c);
    }
    v
}

/// The string made of the characters `v[from..to]`.
pub fn string_of(v: &[char], from: usize, to: usize) -> (s: String)
    requires
        from <= to <= v.len(),
    ensures
        s@ == v@.subrange(from as int, to as int),
{
    let mut s = String::new();
    let mut i: usize = from;
    while i < to
        invariant
            from <= i <= to <= v.len(),
            s@ == v@.subrange(from as int, i as int),
        decreases to - i,
    {
        s.push(v[i]);
        i += 1;
    }
    s
}

/// The first index at or after `i` that does not hold white space.
pub open spec fn skip_spaces(s: Seq<char>, i: int) -> int
    decreases s.len() - i,
{
    if 0 <= i < s.len() && is_space(s[i]) {
        skip_spaces(s, i + 1)
    } else {
        i
    }
}

/// The end of the part of `s[..end]` that is left when trailing white space
/// is dropped.
pub open spec fn drop_trailing_spaces(s: Seq<char>, end: int) -> int
    decreases end,
{
    if 0 < end <= s.len() && is_space(s[end - 1]) {
        drop_trailing_spaces(s, end - 1)
    } else {
        end
    }
}

/// `s` without the white space at its two ends.
pub open spec fn trimmed(s: Seq<char>) -> Seq<char> {
    let from = skip_spaces(s, 0);
    let to = drop_trailing_spaces(s, s.len() as int);
    if from <= to {
        s.subrange(from, to)
    } else {
        Seq::empty()
    }
}

/// `skip_spaces` stops at the first character that is no white space, and
/// not before.
pub proof fn lemma_skip_spaces(s: Seq<char>, i: int)
    requires
        0 <= i <= s.len(),
    ensures
        i <= skip_spaces(s, i) <= s.len(),
        forall|k: int| i <= k < skip_spaces(s, i) ==> is_space(#[trigger] s[k]),
        skip_spaces(s, i) < s.len() ==> !is_space(s[skip_spaces(s, i)]),
    decreases s.len() - i,
{
    if i < s.len() && is_space(s[i]) {
        lemma_skip_spaces(s, i + 1);
    }
}

/// `drop_trailing_spaces` stops behind the last character that is no white
/// space, and not before.
pub proof fn lemma_drop_trailing_spaces(s: Seq<char>, end: int)
    requires
        0 <= end <= s.len(),
    ensures
        0 <= drop_trailing_spaces(s, end) <= end,
        forall|k: int| drop_trailing_spaces(s, end) <= k < end ==> is_space(#[trigger] s[k]),
        drop_trailing_spaces(s, end) > 0 ==> !is_space(s[drop_trailing_spaces(s, end) - 1]),
    decreases end,
{
    if 0 < end && is_space(s[end - 1]) {
        lemma_drop_trailing_spaces(s, end - 1);
    }
}

/// What is trimmed is a part of the text that neither begins nor ends with
/// white space, and trimming it again changes nothing.
pub proof fn lemma_trimmed(s: Seq<char>)
    ensures
        trimmed(s).len() <= s.len(),
        trimmed(s).len() > 0 ==> !is_space(trimmed(s)[0]) && !is_space(trimmed(s).last()),
        trimmed(trimmed(s)) == trimmed(s),
        exists|from: int, to: int|
            0 <= from <= to <= s.len() && trimmed(s) == #[trigger] s.subrange(from, to),
{
    let from = skip_spaces(s, 0);
    let to = drop_trailing_spaces(s, s.len() as int);
    lemma_skip_spaces(s, 0);
    lemma_drop_trailing_spaces(s, s.len() as int);
    let t = trimmed(s);
    if from < to {
        assert(t[0] == s[from]);
        assert(t.last() == s[to - 1]);
        assert(skip_spaces(t, 0) == 0);
        assert(drop_trailing_spaces(t, t.len() as int) == t.len());
        assert(t.subrange(0, t.len() as int) =~= t);
        assert(t == s.subrange(from, to));
    } else {
        assert(t =~= Seq::empty());
        assert(skip_spaces(t, 0) == 0);
        assert(drop_trailing_spaces(t, 0) == 0);
        assert(t.subrange(0, 0) =~= t);
        assert(t =~= s.subrange(0, 0));
    }
}

/// The first index at or after `i` in `v` that does not hold white space.
pub fn scan_spaces(v: &[char], i: usize) -> (r: usize)
    requires
        i <= v.len(),
    ensures
        r == skip_spaces(v@, i as int),
        i <= r <= v.len(),
{
    let mut k = i;
    while k < v.len() && char_is_space(v[k])
        invariant
            i <= k <= v.len(),
            skip_spaces(v@, k as int) == skip_spaces(v@, i as int),
        decreases v.len() - k,
    {
        k += 1;
    }
    k
}

/// The end of `v[..end]` once trailing white space is dropped.
pub fn scan_trailing_spaces(v: &[char], end: usize) -> (r: usize)
    requires
        end <= v.len(),
    ensures
        r == drop_trailing_spaces(v@, end as int),
        r <= end,
{
    let mut k = end;
    while k > 0 && char_is_space(v[k - 1])
        invariant
            k <= end <= v.len(),
            drop_trailing_spaces(v@, k as int) == drop_trailing_spaces(v@, end as int),
        decreases k,
    {
        k -= 1;
    }
    k
}


/// Whether the phrase `p` stands in `s` at index `i`.
pub open spec fn matches_at(s: Seq<char>, i: int, p: Seq<char>) -> bool {
    0 <= i && i + p.len() <= s.len() && s.subrange(i, i + p.len()) == p
}

/// Whether `s` begins with the phrase `p`.
pub open spec fn starts_with(s: Seq<char>, p: Seq<char>) -> bool {
    matches_at(s, 0, p)
}

/// Whether the phrase `p` occurs anywhere in `s`.
pub open spec fn contains_phrase(s: Seq<char>, p: Seq<char>) -> bool {
    exists|i: int| matches_at(s, i, p)
}

/// Whether the phrase `p` stands in `v` at index `i`.
pub fn phrase_at(v: &[char], i: usize, p: &[char]) -> (r: bool)
    requires
        i <= v.len(),
    ensures
        r == matches_at(v@, i as int, p@),
{
    if p.len() > v.len() - i {
        return false;
    }
    let mut k: usize = 0;
    while k < p.len()
        invariant
            k <= p.len(),
            i + p.len() <= v.len(),
            forall|j: int| 0 <= j < k ==> v@[i + j] == p@[j],
        decreases p.len() - k,
    {
        if v[i + k] != p[k] {
            assert(v@.subrange(i as int, i + p.len())[k as int] != p@[k as int]);
            return false;
        }
        k += 1;
    }
    assert(v@.subrange(i as int, i + p.len()) =~= p@);
    true
}

/// Whether `v` begins with the phrase `p`.
pub fn begins_with(v: &[char], p: &[char]) -> (r: bool)
    ensures
        r == starts_with(v@, p@),
{
    phrase_at(v, 0, p)
}

/// Whether the phrase `p` occurs anywhere in `v`.
pub fn has_phrase(v: &[char], p: &[char]) -> (r: bool)
    ensures
        r == contains_phrase(v@, p@),
{
    let mut i: usize = 0;
    while i < v.len()
        invariant
            i <= v.len(),
            forall|j: int| 0 <= j < i ==> !matches_at(v@, j, p@),
        decreases v.len() - i,
    {
        if phrase_at(v, i, p) {
            return true;
        }
        i += 1;
    }
    phrase_at(v, i, p)
}

/// A copy of the characters `v[from..to]`.
pub fn copy_range(v: &[char], from: usize, to: usize) -> (r: Vec<char>)
    requires
        from <= to <= v.len(),
    ensures
        r@ == v@.subrange(from as int, to as int),
{
    let mut r: Vec<char> = Vec::new();
    let mut i: usize = from;
    while i < to
        invariant
            from <= i <= to <= v.len(),
            r@ == v@.subrange(from as int, i as int),
        decreases to - i,
    {
        r.push(v[i]);
        i += 1;
    }
    r
}

/// `v` without the white space at its two ends.
pub fn trim(v: &[char]) -> (r: Vec<char>)
    ensures
        r@ == trimmed(v@),
{
    let from = scan_spaces(v, 0);
    let to = scan_trailing_spaces(v, v.len());
    if from <= to {
        copy_range(v, from, to)
    } else {
        Vec::new()
    }
}

/// Whether two character sequences are the same.
pub fn same_chars(a: &[char], b: &[char]) -> (r: bool)
    ensures
        r == (a@ == b@),
{
    if a.len() != b.len() {
        return false;
    }
    let r = phrase_at(a, 0, b);
    assert(a@.subrange(0, a@.len() as int) =~= a@);
    r
}

/// The text cut at every `sep`. A text without `sep` is one piece; a `sep`
/// at the end is followed by an empty piece.
pub open spec fn pieces(text: Seq<char>, sep: char) -> Seq<Seq<char>>
    decreases text.len(),
{
    if text.len() == 0 {
        seq![Seq::empty()]
    } else {
        let before = pieces(text.drop_last(), sep);
        if text.last() == sep {
            before.push(Seq::empty())
        } else {
            before.drop_last().push(before.last().push(text.last()))
        }
    }
}

/// There is always a piece, and no piece holds `sep`.
pub proof fn lemma_pieces(text: Seq<char>, sep: char)
    ensures
        pieces(text, sep).len() >= 1,
        forall|i: int, j: int|
            0 <= i < pieces(text, sep).len() && 0 <= j < pieces(text, sep)[i].len()
                ==> #[trigger] pieces(text, sep)[i][j] != sep,
    decreases text.len(),
{
    if text.len() > 0 {
        lemma_pieces(text.drop_last(), sep);
    }
}

/// Cuts `v` at every `sep`.
pub fn split(v: &[char], sep: char) -> (parts: Vec<Vec<char>>)
    ensures
        parts.deep_view() == pieces(v@, sep),
{
    let mut parts: Vec<Vec<char>> = Vec::new();
    let mut current: Vec<char> = Vec::new();
    let mut i: usize = 0;
    assert(v@.take(0) =~= Seq::empty());
    assert(pieces(v@.take(0), sep) =~= parts.deep_view().push(current@));
    while i < v.len()
        invariant
            i <= v.len(),
            pieces(v@.take(i as int), sep) == parts.deep_view().push(current@),
        decreases v.len() - i,
    {
        let ghost done = parts.deep_view();
        assert(v@.take(i + 1).drop_last() =~= v@.take(i as int));
        assert(done.push(current@).drop_last() =~= done);
        if v[i] == sep {
            let ghost cv = current@;
            assert(current.deep_view() =~= cv);
            parts.push(current);
            assert(parts.deep_view() =~= done.push(cv));
            current = Vec::new();
        } else {
            current.push(v[i]);
        }
        i += 1;
    }
    assert(v@.take(i as int) =~= v@);
    let ghost done = parts.deep_view();
    let ghost cv = current@;
    assert(current.deep_view() =~= cv);
    parts.push(current);
    assert(parts.deep_view() =~= done.push(cv));
    parts
}

/// Whether two texts are the same.
pub fn same_text(a: &str, b: &str) -> (r: bool)
    ensures
        r == (a@ == b@),
{
    let x = chars_of(a);
    let y = chars_of(b);
    same_chars(x.as_slice(), y.as_slice())
}

} // verus!
