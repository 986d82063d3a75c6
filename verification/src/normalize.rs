//! The title normalizer: from the raw text of a candidate to a clean title.
//!
//! Two passes, in this order. The first removes a date stamp that ends the
//! text: an optional tilde or wave dash, a month and a day of one or two
//! digits each with a slash between them, white space, and a time of day
//! written as two digits, a colon and two digits; white space may stand
//! before the tilde, after it, and at the very end. The second removes the
//! bullets and white space that the text begins with. What is left is
//! trimmed. Nothing is ever rejected here; a caller decides what to do with
//! a title that came out empty.

use vstd::prelude::*;
use crate::chars::{
    char_is_bullet, char_is_digit, char_is_space, char_is_tilde, chars_of, copy_range,
    drop_trailing_spaces, is_bullet, is_digit, is_space, is_tilde, lemma_drop_trailing_spaces,
    lemma_skip_spaces, scan_spaces, skip_spaces, string_of, trim, trimmed,
};

verus! {

/// The index after the number of one or two digits that begins at `i`, where
/// one does. A second digit is always taken.
pub open spec fn after_short_number(s: Seq<char>, i: int) -> Option<int> {
    if 0 <= i < s.len() && is_digit(s[i]) {
        if i + 1 < s.len() && is_digit(s[i + 1]) {
            Some(i + 2)
        } else {
            Some(i + 1)
        }
    } else {
        None
    }
}

/// Whether a time of day stands at `i`: two digits, a colon, two digits.
pub open spec fn clock_at(s: Seq<char>, i: int) -> bool {
    &&& 0 <= i
    &&& i + 5 <= s.len()
    &&& is_digit(s[i])
    &&& is_digit(s[i + 1])
    &&& s[i + 2] == ':'
    &&& is_digit(s[i + 3])
    &&& is_digit(s[i + 4])
}

/// Whether `s` from `i` to its end is a date stamp and nothing else.
pub open spec fn date_stamp_at(s: Seq<char>, i: int) -> bool {
    let tilde = skip_spaces(s, i);
    let after_tilde = if 0 <= tilde < s.len() && is_tilde(s[tilde]) {
        tilde + 1
    } else {
        tilde
    };
    let month = skip_spaces(s, after_tilde);
    match after_short_number(s, month) {
        None => false,
        Some(slash) => slash < s.len() && s[slash] == '/' && match after_short_number(
            s,
            slash + 1,
        ) {
            None => false,
            Some(gap) => {
                let clock = skip_spaces(s, gap);
                gap < clock && clock_at(s, clock) && skip_spaces(s, clock + 5) == s.len()
            },
        },
    }
}

/// The least index at or after `from` at which a date stamp begins that runs
/// to the end of `s`; the length of `s` where there is none.
pub open spec fn date_stamp_start(s: Seq<char>, from: int) -> int
    decreases s.len() - from,
{
    if from < 0 || from >= s.len() {
        s.len() as int
    } else if date_stamp_at(s, from) {
        from
    } else {
        date_stamp_start(s, from + 1)
    }
}

/// `s` without the date stamp that ends it, if one does.
pub open spec fn without_date_stamp(s: Seq<char>) -> Seq<char> {
    s.take(date_stamp_start(s, 0))
}

/// A character that the second pass removes from the front of a title.
pub open spec fn is_lead(c: char) -> bool {
    is_bullet(c) || is_space(c)
}

/// The first index at or after `i` that holds neither a bullet nor white
/// space.
pub open spec fn skip_lead(s: Seq<char>, i: int) -> int
    decreases s.len() - i,
{
    if 0 <= i < s.len() && is_lead(s[i]) {
        skip_lead(s, i + 1)
    } else {
        i
    }
}

/// `s` without the bullets and white space that it begins with.
pub open spec fn without_lead(s: Seq<char>) -> Seq<char> {
    s.skip(skip_lead(s, 0))
}

/// The clean title of the raw text `s`.
pub open spec fn normalized_title(s: Seq<char>) -> Seq<char> {
    trimmed(without_lead(without_date_stamp(s)))
}

/// `date_stamp_start` is the least index at which a date stamp begins that
/// runs to the end of the text.
pub proof fn lemma_date_stamp_start(s: Seq<char>, from: int)
    requires
        0 <= from <= s.len(),
    ensures
        from <= date_stamp_start(s, from) <= s.len(),
        forall|k: int| from <= k < date_stamp_start(s, from) ==> !date_stamp_at(s, k),
        date_stamp_start(s, from) < s.len() ==> date_stamp_at(s, date_stamp_start(s, from)),
    decreases s.len() - from,
{
    if from < s.len() && !date_stamp_at(s, from) {
        lemma_date_stamp_start(s, from + 1);
    }
}

/// `skip_lead` stops at the first character that is neither a bullet nor
/// white space, and not before.
pub proof fn lemma_skip_lead(s: Seq<char>, i: int)
    requires
        0 <= i <= s.len(),
    ensures
        i <= skip_lead(s, i) <= s.len(),
        forall|k: int| i <= k < skip_lead(s, i) ==> is_lead(#[trigger] s[k]),
        skip_lead(s, i) < s.len() ==> !is_lead(s[skip_lead(s, i)]),
    decreases s.len() - i,
{
    if i < s.len() && is_lead(s[i]) {
        lemma_skip_lead(s, i + 1);
    }
}

/// A clean title is a part of the raw text that begins with neither a bullet
/// nor white space and does not end with white space.
pub proof fn lemma_normalized_title(s: Seq<char>)
    ensures
        normalized_title(s).len() <= s.len(),
        normalized_title(s).len() > 0 ==> !is_lead(normalized_title(s)[0]) && !is_space(
            normalized_title(s).last(),
        ),
        exists|from: int, to: int|
            0 <= from <= to <= s.len() && normalized_title(s) == #[trigger] s.subrange(from, to),
{
    let cut = date_stamp_start(s, 0);
    lemma_date_stamp_start(s, 0);
    let head = without_date_stamp(s);
    let lead = skip_lead(head, 0);
    lemma_skip_lead(head, 0);
    let rest = without_lead(head);
    lemma_skip_spaces(rest, 0);
    lemma_drop_trailing_spaces(rest, rest.len() as int);
    let to = drop_trailing_spaces(rest, rest.len() as int);
    let title = normalized_title(s);
    if rest.len() > 0 {
        assert(rest[0] == head[lead]);
        assert(skip_spaces(rest, 0) == 0);
    }
    if 0 < to {
        assert(title =~= rest.subrange(0, to));
        assert(title[0] == rest[0]);
        assert(title.last() == rest[to - 1]);
        assert(title =~= s.subrange(lead, lead + to));
    } else {
        assert(title =~= Seq::empty());
        assert(title =~= s.subrange(0, 0));
    }
}

fn short_number(v: &[char], i: usize) -> (r: Option<usize>)
    requires
        i <= v.len(),
    ensures
        match r {
            Some(j) => after_short_number(v@, i as int) == Some(j as int) && j <= v.len(),
            None => after_short_number(v@, i as int) is None,
        },
{
    if i < v.len() && char_is_digit(v[i]) {
        if i + 1 < v.len() && char_is_digit(v[i + 1]) {
            Some(i + 2)
        } else {
            Some(i + 1)
        }
    } else {
        None
    }
}

fn clock(v: &[char], i: usize) -> (r: bool)
    requires
        i <= v.len(),
    ensures
        r == clock_at(v@, i as int),
{
    v.len() - i >= 5 && char_is_digit(v[i]) && char_is_digit(v[i + 1]) && v[i + 2] == ':'
        && char_is_digit(v[i + 3]) && char_is_digit(v[i + 4])
}

fn date_stamp(v: &[char], i: usize) -> (r: bool)
    requires
        i <= v.len(),
    ensures
        r == date_stamp_at(v@, i as int),
{
    let tilde = scan_spaces(v, i);
    let after_tilde = if tilde < v.len() && char_is_tilde(v[tilde]) {
        tilde + 1
    } else {
        tilde
    };
    let month = scan_spaces(v, after_tilde);
    match short_number(v, month) {
        None => false,
        Some(slash) => {
            if slash < v.len() && v[slash] == '/' {
                match short_number(v, slash + 1) {
                    None => false,
                    Some(gap) => {
                        let at = scan_spaces(v, gap);
                        gap < at && clock(v, at) && scan_spaces(v, at + 5) == v.len()
                    },
                }
            } else {
                false
            }
        },
    }
}

/// Where the date stamp that ends `v` begins; the length of `v` if none does.
pub fn find_date_stamp(v: &[char]) -> (r: usize)
    ensures
        r == date_stamp_start(v@, 0),
        r <= v.len(),
{
    let mut i: usize = 0;
    while i < v.len()
        invariant
            i <= v.len(),
            date_stamp_start(v@, i as int) == date_stamp_start(v@, 0),
        decreases v.len() - i,
    {
        if date_stamp(v, i) {
            return i;
        }
        i += 1;
    }
    i
}

fn scan_lead(v: &[char], i: usize) -> (r: usize)
    requires
        i <= v.len(),
    ensures
        r == skip_lead(v@, i as int),
        i <= r <= v.len(),
{
    let mut k = i;
    while k < v.len() && (char_is_bullet(v[k]) || char_is_space(v[k]))
        invariant
            i <= k <= v.len(),
            skip_lead(v@, k as int) == skip_lead(v@, i as int),
        decreases v.len() - k,
    {
        k += 1;
    }
    k
}

/// The clean title of the raw text `v`.
pub fn normalize_chars(v: &[char]) -> (title: Vec<char>)
    ensures
        title@ == normalized_title(v@),
{
    let cut = find_date_stamp(v);
    let head = copy_range(v, 0, cut);
    assert(head@ =~= without_date_stamp(v@));
    let lead = scan_lead(head.as_slice(), 0);
    let rest = copy_range(head.as_slice(), lead, head.len());
    assert(rest@ =~= without_lead(head@));
    trim(rest.as_slice())
}

/// The clean title of the raw text `text`: the date stamp that ends it is
/// removed, then the bullets and white space that it begins with, and the
/// rest is trimmed.
pub fn normalize(text: &str) -> (title: String)
    ensures
        title@ == normalized_title(text@),
{
    let v = chars_of(text);
    let t = normalize_chars(v.as_slice());
    let title = string_of(t.as_slice(), 0, t.len());
    assert(t@.subrange(0, t@.len() as int) =~= t@);
    title
}

} // verus!
