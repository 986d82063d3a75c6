//! The form in which the page reports to the receiving side.
//!
//! A sample of the text length is a number of one to nine digits. A captured
//! page is its visible text followed by its elements, each introduced by a
//! record separator (U+001E); an element is its left edge, top edge, width
//! and height, counted in parts of a layout unit and written as whole
//! numbers of one to nine digits with a minus sign before them where they
//! are negative, and the text it owns, with a unit separator (U+001F)
//! between each two of the five. A report that is not of this form
//! stands for no page at all.

use vstd::prelude::*;
use crate::chars::{
    char_is_digit, chars_of, is_digit, lemma_pieces, pieces, split, string_of,
};
use crate::model::{Frame, RawUnit, RawUnitView};
use crate::strategy::{PageSnapshot, PageView};

verus! {

/// The character before each element of a captured page.
pub const RECORD_SEPARATOR: char = '\u{1E}';

/// The character between the parts of an element.
pub const UNIT_SEPARATOR: char = '\u{1F}';

/// The most digits that a number may have.
pub const MAX_DIGITS: usize = 9;

/// The number that the digits `s` write.
pub open spec fn digits_value(s: Seq<char>) -> int
    decreases s.len(),
{
    if s.len() == 0 {
        0
    } else {
        digits_value(s.drop_last()) * 10 + (s.last() as int - '0' as int)
    }
}

/// Whether `s` holds digits only.
pub open spec fn all_digits(s: Seq<char>) -> bool {
    forall|i: int| 0 <= i < s.len() ==> is_digit(#[trigger] s[i])
}

/// The greatest number that `n` digits write.
pub open spec fn greatest_of(n: int) -> int
    decreases n,
{
    if n <= 0 {
        0
    } else {
        greatest_of(n - 1) * 10 + 9
    }
}

/// The number that `s` writes without a sign: one to nine digits.
pub open spec fn parsed_length(s: Seq<char>) -> Option<int> {
    if 1 <= s.len() <= MAX_DIGITS && all_digits(s) {
        Some(digits_value(s))
    } else {
        None
    }
}

/// The number that `s` writes: one to nine digits, after a minus sign where
/// it is negative.
pub open spec fn parsed_offset(s: Seq<char>) -> Option<int> {
    if s.len() > 0 && s[0] == '-' {
        match parsed_length(s.skip(1)) {
            Some(v) => Some(-v),
            None => None,
        }
    } else {
        parsed_length(s)
    }
}

/// The element that the record `record` writes.
pub open spec fn parsed_element(record: Seq<char>) -> Option<RawUnitView> {
    let parts = pieces(record, UNIT_SEPARATOR);
    if parts.len() == 5 {
        match (
            parsed_offset(parts[0]),
            parsed_offset(parts[1]),
            parsed_offset(parts[2]),
            parsed_offset(parts[3]),
        ) {
            (Some(left), Some(top), Some(width), Some(height)) => Some(
                RawUnitView {
                    text: parts[4],
                    frame: Some(
                        Frame {
                            left: left as i32,
                            top: top as i32,
                            width: width as i32,
                            height: height as i32,
                        },
                    ),
                },
            ),
            _ => None,
        }
    } else {
        None
    }
}

/// The elements that the records after the first and before the `n`-th
/// write; none at all where one of them writes no element.
pub open spec fn parsed_elements(records: Seq<Seq<char>>, n: int) -> Option<Seq<RawUnitView>>
    decreases n,
{
    if n <= 1 || n > records.len() {
        Some(Seq::empty())
    } else {
        match (parsed_elements(records, n - 1), parsed_element(records[n - 1])) {
            (Some(before), Some(element)) => Some(before.push(element)),
            _ => None,
        }
    }
}

/// The page that `report` writes.
pub open spec fn parsed_page(report: Seq<char>) -> Option<PageView> {
    let records = pieces(report, RECORD_SEPARATOR);
    match parsed_elements(records, records.len() as int) {
        Some(units) => Some(PageView { text: records[0], units }),
        None => None,
    }
}

/// The view of a page that may be missing.
pub open spec fn page_view(page: Option<PageSnapshot>) -> Option<PageView> {
    match page {
        Some(p) => Some(p@),
        None => None,
    }
}

proof fn lemma_greatest_of_nine()
    ensures
        greatest_of(9) == 999_999_999,
        forall|n: int| 0 <= n <= 9 ==> #[trigger] greatest_of(n) <= 999_999_999,
{
    reveal_with_fuel(greatest_of, 10);
}

proof fn lemma_digits_value(s: Seq<char>)
    requires
        all_digits(s),
    ensures
        0 <= digits_value(s) <= greatest_of(s.len() as int),
    decreases s.len(),
{
    if s.len() > 0 {
        assert(all_digits(s.drop_last())) by {
            assert forall|i: int| 0 <= i < s.drop_last().len() implies is_digit(
                #[trigger] s.drop_last()[i],
            ) by {
                assert(s.drop_last()[i] == s[i]);
            }
        }
        lemma_digits_value(s.drop_last());
        assert(is_digit(s[s.len() - 1]));
    }
}

/// A number of one to nine digits is less than a thousand million.
pub proof fn lemma_parsed_length_bound(s: Seq<char>)
    ensures
        parsed_length(s) matches Some(v) ==> 0 <= v <= 999_999_999,
        parsed_offset(s) matches Some(v) ==> -999_999_999 <= v <= 999_999_999,
{
    lemma_greatest_of_nine();
    if 1 <= s.len() <= MAX_DIGITS && all_digits(s) {
        lemma_digits_value(s);
    }
    let t = s.skip(1);
    if s.len() > 0 && 1 <= t.len() <= MAX_DIGITS && all_digits(t) {
        lemma_digits_value(t);
    }
}

fn digit_of(c: char) -> (d: u32)
    requires
        is_digit(c),
    ensures
        d == c as int - '0' as int,
        d <= 9,
{
    c as u32 - '0' as u32
}

fn read_digits(v: &[char], from: usize) -> (r: Option<u32>)
    requires
        from <= v.len(),
    ensures
        match r {
            Some(n) => parsed_length(v@.skip(from as int)) == Some(n as int) && n <= 999_999_999,
            None => parsed_length(v@.skip(from as int)) is None,
        },
{
    let ghost s = v@.skip(from as int);
    let count = v.len() - from;
    if count < 1 || count > MAX_DIGITS {
        return None;
    }
    let mut acc: u32 = 0;
    let mut i: usize = 0;
    assert(s.take(0) =~= Seq::empty());
    while i < count
        invariant
            i <= count <= MAX_DIGITS,
            count == v.len() - from,
            s == v@.skip(from as int),
            all_digits(s.take(i as int)),
            acc == digits_value(s.take(i as int)),
        decreases count - i,
    {
        let c = v[from + i];
        assert(c == s[i as int]);
        if !char_is_digit(c) {
            return None;
        }
        proof {
            lemma_digits_value(s.take(i as int));
            lemma_greatest_of_nine();
            assert(s.take(i + 1).drop_last() =~= s.take(i as int));
            assert forall|k: int| 0 <= k < i + 1 implies is_digit(#[trigger] s.take(i + 1)[k]) by {
                if k < i {
                    assert(s.take(i as int)[k] == s.take(i + 1)[k]);
                }
            }
            lemma_digits_value(s.take(i + 1));
        }
        acc = acc * 10 + digit_of(c);
        i += 1;
    }
    assert(s.take(i as int) =~= s);
    proof {
        lemma_digits_value(s);
        lemma_greatest_of_nine();
    }
    Some(acc)
}

/// Reads a sample of the text length.
pub fn parse_length(text: &str) -> (r: Option<usize>)
    ensures
        match r {
            Some(n) => parsed_length(text@) == Some(n as int),
            None => parsed_length(text@) is None,
        },
{
    let v = chars_of(text);
    assert(v@.skip(0) =~= v@);
    match read_digits(v.as_slice(), 0) {
        Some(n) => Some(n as usize),
        None => None,
    }
}

fn read_offset(v: &[char]) -> (r: Option<i32>)
    ensures
        match r {
            Some(n) => parsed_offset(v@) == Some(n as int),
            None => parsed_offset(v@) is None,
        },
{
    if v.len() > 0 && v[0] == '-' {
        match read_digits(v, 1) {
            Some(n) => Some(0 - (n as i32)),
            None => None,
        }
    } else {
        assert(v@.skip(0) =~= v@);
        match read_digits(v, 0) {
            Some(n) => Some(n as i32),
            None => None,
        }
    }
}

fn read_element(record: &[char]) -> (r: Option<RawUnit>)
    ensures
        match r {
            Some(unit) => parsed_element(record@) == Some(unit.deep_view()),
            None => parsed_element(record@) is None,
        },
{
    let parts = split(record, UNIT_SEPARATOR);
    if parts.len() != 5 {
        return None;
    }
    let ghost ps = pieces(record@, UNIT_SEPARATOR);
    assert(forall|k: int| 0 <= k < 5 ==> (#[trigger] parts@[k])@ == ps[k]) by {
        assert forall|k: int| 0 <= k < 5 implies (#[trigger] parts@[k])@ == ps[k] by {
            assert(parts.deep_view()[k] == ps[k]);
            assert(parts@[k].deep_view() =~= parts@[k]@);
        }
    }
    let left = read_offset(parts[0].as_slice());
    let top = read_offset(parts[1].as_slice());
    let width = read_offset(parts[2].as_slice());
    let height = read_offset(parts[3].as_slice());
    match (left, top, width, height) {
        (Some(left), Some(top), Some(width), Some(height)) => {
            let text = string_of(parts[4].as_slice(), 0, parts[4].len());
            assert(parts@[4]@.subrange(0, parts@[4]@.len() as int) =~= parts@[4]@);
            Some(RawUnit { text, frame: Some(Frame { left, top, width, height }) })
        },
        _ => None,
    }
}

/// Reads a captured page; `None` where the report is not in form.
pub fn parse_page(report: &str) -> (page: Option<PageSnapshot>)
    ensures
        page_view(page) == parsed_page(report@),
{
    let v = chars_of(report);
    let records = split(v.as_slice(), RECORD_SEPARATOR);
    let ghost rs = pieces(report@, RECORD_SEPARATOR);
    proof {
        lemma_pieces(report@, RECORD_SEPARATOR);
    }
    let mut units: Vec<RawUnit> = Vec::new();
    let mut i: usize = 1;
    assert(units.deep_view() =~= Seq::empty());
    while i < records.len()
        invariant
            1 <= i <= records.len(),
            rs == records.deep_view(),
            rs == pieces(report@, RECORD_SEPARATOR),
            parsed_elements(rs, i as int) == Some(units.deep_view()),
        decreases records.len() - i,
    {
        assert(records@[i as int].deep_view() =~= records@[i as int]@);
        assert(rs[i as int] == records@[i as int]@);
        match read_element(records[i].as_slice()) {
            Some(unit) => {
                let ghost made = unit.deep_view();
                let ghost before = units.deep_view();
                units.push(unit);
                assert(units.deep_view() =~= before.push(made));
            },
            None => {
                proof {
                    assert(parsed_elements(rs, i + 1) is None);
                    lemma_elements_stay_missing(rs, i + 1, records.len() as int);
                }
                return None;
            },
        }
        i += 1;
    }
    let text = string_of(records[0].as_slice(), 0, records[0].len());
    assert(records@[0]@.subrange(0, records@[0]@.len() as int) =~= records@[0]@);
    assert(records@[0].deep_view() =~= records@[0]@);
    Some(PageSnapshot { text, units })
}

proof fn lemma_elements_stay_missing(records: Seq<Seq<char>>, n: int, m: int)
    requires
        1 <= n <= m <= records.len(),
        parsed_elements(records, n) is None,
    ensures
        parsed_elements(records, m) is None,
    decreases m - n,
{
    if n < m {
        lemma_elements_stay_missing(records, n, m - 1);
    }
}

} // verus!
