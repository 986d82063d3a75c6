//! The candidate filter: which units can be goals at all.
//!
//! A unit is rejected when its trimmed text is too short, when it is a date
//! stamp, when it is the search box, and, depending on the strategy, when it
//! is a heading of the section (plain text) or is not rendered (geometry).
//! Each of these alone rejects the unit.

use vstd::prelude::*;
use crate::chars::{
    begins_with, char_is_digit, char_is_space, char_is_tilde, chars_of, is_digit, is_space,
    is_tilde, scan_spaces, skip_spaces, starts_with, trim, trimmed,
};
use crate::markers::{is_line_heading, line_heading, search_word};
use crate::model::{is_rendered, rendered, Frame, RawUnit, RawUnitView, Strategy};

verus! {

/// The least number of characters in a line that can be a goal.
pub const MIN_LINE_LENGTH: usize = 4;

/// The least number of characters in the text of an element that can be a
/// goal.
pub const MIN_ELEMENT_LENGTH: usize = 3;

/// The least number of characters in a title.
pub const MIN_TITLE_LENGTH: usize = 2;

/// Whether `s` begins with a month and a day: one or two digits, a slash,
/// and a digit.
pub open spec fn begins_with_month_day(s: Seq<char>) -> bool {
    ||| s.len() >= 3 && is_digit(s[0]) && s[1] == '/' && is_digit(s[2])
    ||| s.len() >= 4 && is_digit(s[0]) && is_digit(s[1]) && s[2] == '/' && is_digit(s[3])
}

/// Whether `s` looks like a date: a tilde or wave dash, white space or none,
/// and a digit; or a month and a day at its beginning.
pub open spec fn is_date_like(s: Seq<char>) -> bool {
    ||| s.len() >= 1 && is_tilde(s[0]) && skip_spaces(s, 1) < s.len() && is_digit(
        s[skip_spaces(s, 1)],
    )
    ||| begins_with_month_day(s)
}

/// Whether `s` is the search box: it begins with the word for "search", or
/// with a `Q` and white space.
pub open spec fn is_search_box(s: Seq<char>) -> bool {
    ||| starts_with(s, search_word())
    ||| s.len() >= 2 && s[0] == 'Q' && is_space(s[1])
}

/// Whether the text `text`, already trimmed, together with `frame` can be a
/// goal under `strategy`.
pub open spec fn text_passes(text: Seq<char>, frame: Option<Frame>, strategy: Strategy) -> bool {
    match strategy {
        Strategy::PlainText => {
            &&& text.len() >= MIN_LINE_LENGTH
            &&& !is_date_like(text)
            &&& !is_search_box(text)
            &&& !is_line_heading(text)
        },
        Strategy::Geometry => {
            &&& text.len() >= MIN_ELEMENT_LENGTH
            &&& !is_date_like(text)
            &&& !is_search_box(text)
            &&& is_rendered(frame)
        },
    }
}

/// Whether `unit` can be a goal under `strategy`.
pub open spec fn passes_filter(unit: RawUnitView, strategy: Strategy) -> bool {
    text_passes(trimmed(unit.text), unit.frame, strategy)
}

/// Whether `v` looks like a date.
pub fn date_like(v: &[char]) -> (r: bool)
    ensures
        r == is_date_like(v@),
{
    let n = v.len();
    if n >= 1 && char_is_tilde(v[0]) {
        let k = scan_spaces(v, 1);
        if k < n && char_is_digit(v[k]) {
            return true;
        }
    }
    (n >= 3 && char_is_digit(v[0]) && v[1] == '/' && char_is_digit(v[2])) || (n >= 4
        && char_is_digit(v[0]) && char_is_digit(v[1]) && v[2] == '/' && char_is_digit(v[3]))
}

/// Whether `v` is the search box.
pub fn search_box(v: &[char]) -> (r: bool)
    ensures
        r == is_search_box(v@),
{
    let search = chars_of("検索");
    begins_with(v, search.as_slice()) || (v.len() >= 2 && v[0] == 'Q' && char_is_space(v[1]))
}

/// The filter on a text that is already trimmed.
pub fn passes(text: &[char], frame: &Option<Frame>, strategy: Strategy) -> (r: bool)
    ensures
        r == text_passes(text@, *frame, strategy),
{
    match strategy {
        Strategy::PlainText => {
            text.len() >= MIN_LINE_LENGTH && !date_like(text) && !search_box(text)
                && !line_heading(text)
        },
        Strategy::Geometry => {
            text.len() >= MIN_ELEMENT_LENGTH && !date_like(text) && !search_box(text) && rendered(
                frame,
            )
        },
    }
}

/// Whether `unit` can be a goal under `strategy`: its trimmed text has at
/// least 4 characters as a line and 3 as an element, is no date stamp and
/// not the search box, and the unit is no heading (plain text) and is
/// rendered (geometry).
pub fn is_candidate(unit: &RawUnit, strategy: Strategy) -> (r: bool)
    ensures
        r == passes_filter(unit@, strategy),
{
    let v = chars_of(unit.text.as_str());
    let text = trim(v.as_slice());
    passes(text.as_slice(), &unit.frame, strategy)
}

} // verus!
