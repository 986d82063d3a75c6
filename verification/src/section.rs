//! The section locator: where the section of current goals begins and ends.
//!
//! In the plain-text strategy the units are lines and the bounds are indices:
//! the section begins after the first heading line and ends before the first
//! line from there on that closes it. In the geometry strategy the units are
//! rendered elements and the bounds are vertical offsets: the section begins
//! at the bottom edge of the first heading element and ends at the top edge
//! of the nearest element below that edge that closes it. Without a heading
//! there is no section.

use vstd::prelude::*;
use crate::chars::{chars_of, trim, trimmed};
use crate::markers::{
    element_closing, element_heading, is_element_closing, is_element_heading, is_line_closing,
    is_line_heading, line_closing, line_heading,
};
use crate::model::{is_rendered, rendered, RawUnit, RawUnitView, Strategy};

verus! {

/// The bounds of the section. `Lines` holds indices into the units: the
/// section is the units from `start` up to, not including, `end`. `Band`
/// holds vertical offsets: the section is the elements whose top edge is at
/// or below `top` and above `bottom`; without a `bottom` it has no lower end.
#[derive(Clone, Copy, Debug, PartialEq, Eq)]
pub enum SectionBounds {
    Lines { start: usize, end: usize },
    Band { top: i64, bottom: Option<i64> },
}

/// The bounds of the section as mathematical integers.
pub enum SectionView {
    Lines { start: int, end: int },
    Band { top: int, bottom: Option<int> },
}

impl View for SectionBounds {
    type V = SectionView;

    open spec fn view(&self) -> SectionView {
        match *self {
            SectionBounds::Lines { start, end } => SectionView::Lines {
                start: start as int,
                end: end as int,
            },
            SectionBounds::Band { top, bottom } => SectionView::Band {
                top: top as int,
                bottom: match bottom {
                    Some(b) => Some(b as int),
                    None => None,
                },
            },
        }
    }
}

/// The view of bounds that may be missing.
pub open spec fn bounds_view(bounds: Option<SectionBounds>) -> Option<SectionView> {
    match bounds {
        Some(b) => Some(b@),
        None => None,
    }
}

/// Whether the line `u` is a heading of the section.
pub open spec fn opens_lines(u: RawUnitView) -> bool {
    is_line_heading(trimmed(u.text))
}

/// Whether the line `u` closes the section.
pub open spec fn closes_lines(u: RawUnitView) -> bool {
    is_line_closing(trimmed(u.text))
}

/// The index of the first heading line at or after `from`; the number of
/// units where there is none.
pub open spec fn first_heading_line(units: Seq<RawUnitView>, from: int) -> int
    decreases units.len() - from,
{
    if from < 0 || from >= units.len() {
        units.len() as int
    } else if opens_lines(units[from]) {
        from
    } else {
        first_heading_line(units, from + 1)
    }
}

/// The index of the first closing line at or after `from`; the number of
/// units where there is none.
pub open spec fn first_closing_line(units: Seq<RawUnitView>, from: int) -> int
    decreases units.len() - from,
{
    if from < 0 || from >= units.len() {
        units.len() as int
    } else if closes_lines(units[from]) {
        from
    } else {
        first_closing_line(units, from + 1)
    }
}

/// The section of the plain-text strategy, as a first index and an index
/// past the last.
pub open spec fn line_bounds(units: Seq<RawUnitView>) -> Option<(int, int)> {
    let heading = first_heading_line(units, 0);
    if heading < units.len() {
        Some((heading + 1, first_closing_line(units, heading + 1)))
    } else {
        None
    }
}

/// Whether the element `u` is a heading of the section.
pub open spec fn opens_band(u: RawUnitView) -> bool {
    is_rendered(u.frame) && is_element_heading(trimmed(u.text))
}

/// Whether the element `u` closes a section whose upper bound is `top`.
pub open spec fn closes_band(u: RawUnitView, top: int) -> bool {
    is_rendered(u.frame) && u.frame->0.top > top && is_element_closing(trimmed(u.text))
}

/// The index of the first heading element at or after `from`; the number of
/// units where there is none.
pub open spec fn first_heading_element(units: Seq<RawUnitView>, from: int) -> int
    decreases units.len() - from,
{
    if from < 0 || from >= units.len() {
        units.len() as int
    } else if opens_band(units[from]) {
        from
    } else {
        first_heading_element(units, from + 1)
    }
}

/// The least top edge among those of the first `n` units that close a
/// section whose upper bound is `top`.
pub open spec fn nearest_closing(units: Seq<RawUnitView>, top: int, n: int) -> Option<int>
    decreases n,
{
    if n <= 0 || n > units.len() {
        None
    } else {
        let before = nearest_closing(units, top, n - 1);
        let u = units[n - 1];
        if closes_band(u, top) && (before is None || u.frame->0.top < before->0) {
            Some(u.frame->0.top as int)
        } else {
            before
        }
    }
}

/// The section of the geometry strategy, as an upper offset and, where an
/// element closes it, a lower one.
pub open spec fn band_bounds(units: Seq<RawUnitView>) -> Option<(int, Option<int>)> {
    let heading = first_heading_element(units, 0);
    if heading < units.len() {
        let frame = units[heading].frame->0;
        let top = frame.top + frame.height;
        Some((top, nearest_closing(units, top, units.len() as int)))
    } else {
        None
    }
}

/// The bounds of the section under `strategy`.
pub open spec fn section_bounds(units: Seq<RawUnitView>, strategy: Strategy) -> Option<
    SectionView,
> {
    match strategy {
        Strategy::PlainText => match line_bounds(units) {
            Some((start, end)) => Some(SectionView::Lines { start, end }),
            None => None,
        },
        Strategy::Geometry => match band_bounds(units) {
            Some((top, bottom)) => Some(SectionView::Band { top, bottom }),
            None => None,
        },
    }
}

/// Whether the unit `u`, which stands at `index`, lies in the section.
pub open spec fn in_section(bounds: SectionView, index: int, u: RawUnitView) -> bool {
    match bounds {
        SectionView::Lines { start, end } => start <= index < end,
        SectionView::Band { top, bottom } => {
            &&& u.frame is Some
            &&& top <= u.frame->0.top
            &&& (bottom matches Some(b) ==> u.frame->0.top < b)
        },
    }
}

/// `first_heading_line` is the index of a heading line with none before it
/// from `from` on.
pub proof fn lemma_first_heading_line(units: Seq<RawUnitView>, from: int)
    requires
        0 <= from <= units.len(),
    ensures
        from <= first_heading_line(units, from) <= units.len(),
        forall|k: int| from <= k < first_heading_line(units, from) ==> !opens_lines(units[k]),
        first_heading_line(units, from) < units.len() ==> opens_lines(
            units[first_heading_line(units, from)],
        ),
    decreases units.len() - from,
{
    if from < units.len() && !opens_lines(units[from]) {
        lemma_first_heading_line(units, from + 1);
    }
}

/// `first_closing_line` is the index of a closing line with none before it
/// from `from` on.
pub proof fn lemma_first_closing_line(units: Seq<RawUnitView>, from: int)
    requires
        0 <= from <= units.len(),
    ensures
        from <= first_closing_line(units, from) <= units.len(),
        forall|k: int| from <= k < first_closing_line(units, from) ==> !closes_lines(units[k]),
        first_closing_line(units, from) < units.len() ==> closes_lines(
            units[first_closing_line(units, from)],
        ),
    decreases units.len() - from,
{
    if from < units.len() && !closes_lines(units[from]) {
        lemma_first_closing_line(units, from + 1);
    }
}

/// `first_heading_element` is the index of a heading element with none
/// before it from `from` on.
pub proof fn lemma_first_heading_element(units: Seq<RawUnitView>, from: int)
    requires
        0 <= from <= units.len(),
    ensures
        from <= first_heading_element(units, from) <= units.len(),
        forall|k: int| from <= k < first_heading_element(units, from) ==> !opens_band(units[k]),
        first_heading_element(units, from) < units.len() ==> opens_band(
            units[first_heading_element(units, from)],
        ),
    decreases units.len() - from,
{
    if from < units.len() && !opens_band(units[from]) {
        lemma_first_heading_element(units, from + 1);
    }
}

/// The lower bound is the top edge of a closing element, and no closing
/// element has its top edge above it.
pub proof fn lemma_nearest_closing(units: Seq<RawUnitView>, top: int, n: int)
    requires
        0 <= n <= units.len(),
    ensures
        nearest_closing(units, top, n) is None <==> forall|k: int|
            0 <= k < n ==> !closes_band(units[k], top),
        nearest_closing(units, top, n) matches Some(b) ==> {
            &&& exists|k: int|
                0 <= k < n && closes_band(units[k], top) && units[k].frame->0.top == b
            &&& forall|k: int|
                0 <= k < n && closes_band(units[k], top) ==> b <= units[k].frame->0.top
        },
    decreases n,
{
    if n > 0 {
        lemma_nearest_closing(units, top, n - 1);
        let before = nearest_closing(units, top, n - 1);
        let u = units[n - 1];
        if closes_band(u, top) && (before is None || u.frame->0.top < before->0) {
            assert(closes_band(units[n - 1], top) && units[n - 1].frame->0.top == u.frame->0.top);
        } else if before is Some {
            let k = choose|k: int|
                0 <= k < n - 1 && closes_band(units[k], top) && units[k].frame->0.top
                    == before->0;
            assert(0 <= k < n && closes_band(units[k], top));
        }
    }
}

/// The trimmed text of each unit, in the order of the units.
pub open spec fn trimmed_texts(texts: Seq<Vec<char>>, units: Seq<RawUnitView>) -> bool {
    &&& texts.len() == units.len()
    &&& forall|i: int| 0 <= i < texts.len() ==> (#[trigger] texts[i])@ == trimmed(units[i].text)
}

/// Trims the text of each unit.
pub(crate) fn trim_texts(units: &Vec<RawUnit>) -> (texts: Vec<Vec<char>>)
    ensures
        trimmed_texts(texts@, units.deep_view()),
{
    let mut texts: Vec<Vec<char>> = Vec::new();
    let mut i: usize = 0;
    while i < units.len()
        invariant
            i <= units.len(),
            texts.len() == i,
            forall|k: int|
                0 <= k < i ==> (#[trigger] texts@[k])@ == trimmed(units.deep_view()[k].text),
        decreases units.len() - i,
    {
        let v = chars_of(units[i].text.as_str());
        texts.push(trim(v.as_slice()));
        i += 1;
    }
    texts
}

/// The section of the plain-text strategy.
fn find_line_bounds(texts: &Vec<Vec<char>>, units: &Vec<RawUnit>) -> (r: Option<
    (usize, usize),
>)
    requires
        trimmed_texts(texts@, units.deep_view()),
    ensures
        match r {
            Some((start, end)) => line_bounds(units.deep_view()) == Some(
                (start as int, end as int),
            ) && start <= end <= units.len(),
            None => line_bounds(units.deep_view()) is None,
        },
{
    let n = texts.len();
    let ghost us = units.deep_view();
    let mut h: usize = 0;
    while h < n && !line_heading(texts[h].as_slice())
        invariant
            h <= n,
            n == texts.len(),
            trimmed_texts(texts@, us),
            first_heading_line(us, h as int) == first_heading_line(us, 0),
        decreases n - h,
    {
        h += 1;
    }
    if h >= n {
        return None;
    }
    let start = h + 1;
    let mut e: usize = start;
    while e < n && !line_closing(texts[e].as_slice())
        invariant
            start <= e <= n,
            n == texts.len(),
            trimmed_texts(texts@, us),
            first_closing_line(us, e as int) == first_closing_line(us, start as int),
        decreases n - e,
    {
        e += 1;
    }
    Some((start, e))
}

/// The section of the geometry strategy.
fn find_band_bounds(texts: &Vec<Vec<char>>, units: &Vec<RawUnit>) -> (r: Option<
    (i64, Option<i64>),
>)
    requires
        trimmed_texts(texts@, units.deep_view()),
    ensures
        match r {
            Some((top, bottom)) => band_bounds(units.deep_view()) == Some(
                (
                    top as int,
                    match bottom {
                        Some(b) => Some(b as int),
                        None => None,
                    },
                ),
            ),
            None => band_bounds(units.deep_view()) is None,
        },
{
    let n = texts.len();
    let ghost us = units.deep_view();
    let mut h: usize = 0;
    while h < n && !(rendered(&units[h].frame) && element_heading(texts[h].as_slice()))
        invariant
            h <= n,
            n == texts.len(),
            trimmed_texts(texts@, us),
            us == units.deep_view(),
            first_heading_element(us, h as int) == first_heading_element(us, 0),
        decreases n - h,
    {
        h += 1;
    }
    if h >= n {
        return None;
    }
    let top: i64 = match units[h].frame {
        Some(f) => f.top as i64 + f.height as i64,
        None => 0,
    };
    let mut bottom: Option<i64> = None;
    let mut i: usize = 0;
    while i < n
        invariant
            i <= n,
            n == texts.len(),
            trimmed_texts(texts@, us),
            us == units.deep_view(),
            match bottom {
                Some(b) => nearest_closing(us, top as int, i as int) == Some(b as int),
                None => nearest_closing(us, top as int, i as int) is None,
            },
        decreases n - i,
    {
        match units[i].frame {
            Some(f) => {
                if f.width > 0 && f.height > 0 && f.top as i64 > top && element_closing(
                    texts[i].as_slice(),
                ) {
                    let nearer = match bottom {
                        Some(b) => (f.top as i64) < b,
                        None => true,
                    };
                    if nearer {
                        bottom = Some(f.top as i64);
                    }
                }
            },
            None => {},
        }
        i += 1;
    }
    Some((top, bottom))
}

/// Finds the bounds of the section of current goals among `units` under
/// `strategy`; `None` where no heading opens one.
pub fn find_section_bounds(units: &Vec<RawUnit>, strategy: Strategy) -> (r: Option<SectionBounds>)
    ensures
        bounds_view(r) == section_bounds(units.deep_view(), strategy),
{
    let texts = trim_texts(units);
    find_bounds(&texts, units, strategy)
}

/// The bounds of the section, from texts that are already trimmed.
pub(crate) fn find_bounds(texts: &Vec<Vec<char>>, units: &Vec<RawUnit>, strategy: Strategy) -> (r: Option<
    SectionBounds,
>)
    requires
        trimmed_texts(texts@, units.deep_view()),
    ensures
        bounds_view(r) == section_bounds(units.deep_view(), strategy),
{
    match strategy {
        Strategy::PlainText => match find_line_bounds(texts, units) {
            Some((start, end)) => Some(SectionBounds::Lines { start, end }),
            None => None,
        },
        Strategy::Geometry => match find_band_bounds(texts, units) {
            Some((top, bottom)) => Some(SectionBounds::Band { top, bottom }),
            None => None,
        },
    }
}

} // verus!
