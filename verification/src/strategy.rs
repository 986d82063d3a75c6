//! The two extraction strategies and the selector that runs them in turn.
//!
//! Either strategy finds the section, keeps the units in it that pass the
//! filter, cleans their titles, drops titles that came out shorter than
//! `MIN_TITLE_LENGTH` and titles already seen, and turns what is left into
//! goals. The geometry strategy reads the frames of the elements and builds
//! a hierarchy; the plain-text strategy reads the lines of the page text and
//! builds none. The selector tries the geometry strategy first and falls
//! back on the plain-text strategy when that found nothing.

use vstd::prelude::*;
use crate::chars::{chars_of, pieces, string_of, trim, trimmed};
use crate::dedupe::{dedupe, first_occurrences};
use crate::filter::{passes, passes_filter, MIN_TITLE_LENGTH};
use crate::hierarchy::{
    build_flat, build_hierarchy, flat_goals, hierarchy_of, parents_precede, sequential_ids,
    unique_titles,
};
use crate::laws::{law_layout_goals_are_sound, law_results_are_sound, law_text_goals_are_sound};
use crate::model::{Candidate, CandidateView, Goal, GoalView, RawUnit, RawUnitView, Strategy};
use crate::normalize::{normalize_chars, normalized_title};
use crate::section::{
    find_bounds, in_section, section_bounds, trim_texts, trimmed_texts, SectionBounds, SectionView,
};

verus! {

/// What is observed of a page at one moment: its visible text, and its
/// elements in document order.
#[derive(Clone, Debug, PartialEq, Eq)]
pub struct PageSnapshot {
    pub text: String,
    pub units: Vec<RawUnit>,
}

/// A page as contracts see it.
pub struct PageView {
    pub text: Seq<char>,
    pub units: Seq<RawUnitView>,
}

impl View for PageSnapshot {
    type V = PageView;

    open spec fn view(&self) -> PageView {
        PageView { text: self.text@, units: self.units.deep_view() }
    }
}

/// The text cut at every line feed.
pub open spec fn raw_lines(text: Seq<char>) -> Seq<Seq<char>> {
    pieces(text, '\n')
}

/// The lines of `raw`, each trimmed, without those that are then empty.
pub open spec fn clean_lines(raw: Seq<Seq<char>>) -> Seq<Seq<char>>
    decreases raw.len(),
{
    if raw.len() == 0 {
        Seq::empty()
    } else if trimmed(raw.last()).len() > 0 {
        clean_lines(raw.drop_last()).push(trimmed(raw.last()))
    } else {
        clean_lines(raw.drop_last())
    }
}

/// The lines of the page text: trimmed, and none empty.
pub open spec fn page_lines(text: Seq<char>) -> Seq<Seq<char>> {
    clean_lines(raw_lines(text))
}

/// The lines of the page text as units without a frame.
pub open spec fn line_units(text: Seq<char>) -> Seq<RawUnitView> {
    let lines = page_lines(text);
    Seq::new(lines.len(), |i: int| RawUnitView { text: lines[i], frame: None })
}

/// The title that the unit `u` would have as a goal.
pub open spec fn title_of(u: RawUnitView) -> Seq<char> {
    normalized_title(trimmed(u.text))
}

/// Whether the unit at `index` becomes a candidate: it lies in the section,
/// passes the filter, and its title is long enough.
pub open spec fn is_kept(
    units: Seq<RawUnitView>,
    bounds: SectionView,
    strategy: Strategy,
    index: int,
) -> bool {
    &&& in_section(bounds, index, units[index])
    &&& passes_filter(units[index], strategy)
    &&& title_of(units[index]).len() >= MIN_TITLE_LENGTH
}

/// The candidate that the unit `u` becomes: its clean title and, under the
/// geometry strategy, the left and top edges of its frame.
pub open spec fn candidate_of(u: RawUnitView, strategy: Strategy) -> CandidateView {
    match (strategy, u.frame) {
        (Strategy::Geometry, Some(f)) => CandidateView {
            text: title_of(u),
            left: f.left as int,
            top: f.top as int,
        },
        _ => CandidateView { text: title_of(u), left: 0, top: 0 },
    }
}

/// The candidates among the first `n` units, in the order of the units.
pub open spec fn candidates_upto(
    units: Seq<RawUnitView>,
    bounds: SectionView,
    strategy: Strategy,
    n: int,
) -> Seq<CandidateView>
    decreases n,
{
    if n <= 0 || n > units.len() {
        Seq::empty()
    } else if is_kept(units, bounds, strategy, n - 1) {
        candidates_upto(units, bounds, strategy, n - 1).push(candidate_of(units[n - 1], strategy))
    } else {
        candidates_upto(units, bounds, strategy, n - 1)
    }
}

/// The candidates among `units` under `strategy`; none where there is no
/// section.
pub open spec fn candidates_in(units: Seq<RawUnitView>, strategy: Strategy) -> Seq<
    CandidateView,
> {
    match section_bounds(units, strategy) {
        Some(bounds) => candidates_upto(units, bounds, strategy, units.len() as int),
        None => Seq::empty(),
    }
}

/// The goals that the plain-text strategy finds in the page text `text`.
pub open spec fn text_goals(text: Seq<char>) -> Seq<GoalView> {
    flat_goals(first_occurrences(candidates_in(line_units(text), Strategy::PlainText)))
}

/// The goals that the geometry strategy finds among the elements `units`.
pub open spec fn layout_goals(units: Seq<RawUnitView>) -> Seq<GoalView> {
    hierarchy_of(first_occurrences(candidates_in(units, Strategy::Geometry)))
}

/// The goals that `strategy` finds on `page`.
pub open spec fn goals_by(strategy: Strategy, page: PageView) -> Seq<GoalView> {
    match strategy {
        Strategy::Geometry => layout_goals(page.units),
        Strategy::PlainText => text_goals(page.text),
    }
}

/// The goals of `page`: those of the geometry strategy where it finds any,
/// else those of the plain-text strategy.
pub open spec fn selected_goals(page: PageView) -> Seq<GoalView> {
    if layout_goals(page.units).len() > 0 {
        layout_goals(page.units)
    } else {
        text_goals(page.text)
    }
}

/// The goals `goals` are a sound result: their identifiers are their
/// positions, no two share a title, no title is shorter than
/// `MIN_TITLE_LENGTH`, none is completed, and every parent named is an
/// earlier goal without a parent.
pub open spec fn sound_result(goals: Seq<GoalView>) -> bool {
    &&& sequential_ids(goals)
    &&& unique_titles(goals)
    &&& parents_precede(goals)
    &&& forall|i: int|
        0 <= i < goals.len() ==> (#[trigger] goals[i]).title.len() >= MIN_TITLE_LENGTH
            && !goals[i].completed
}

/// Where the selector stands.
#[derive(Clone, Copy, Debug, PartialEq, Eq)]
pub enum SelectorState {
    TryGeometry,
    TryPlainText,
    Done,
}

/// The state that follows `state` once the strategy tried in it has found
/// `found` goals. No state is entered twice.
pub open spec fn state_after(state: SelectorState, found: nat) -> SelectorState {
    match state {
        SelectorState::TryGeometry => if found > 0 {
            SelectorState::Done
        } else {
            SelectorState::TryPlainText
        },
        SelectorState::TryPlainText => SelectorState::Done,
        SelectorState::Done => SelectorState::Done,
    }
}

/// How many steps the selector can still take from `state`.
pub open spec fn steps_left(state: SelectorState) -> nat {
    match state {
        SelectorState::TryGeometry => 2,
        SelectorState::TryPlainText => 1,
        SelectorState::Done => 0,
    }
}

/// The strategy that is tried in `state`.
pub open spec fn strategy_in(state: SelectorState) -> Option<Strategy> {
    match state {
        SelectorState::TryGeometry => Some(Strategy::Geometry),
        SelectorState::TryPlainText => Some(Strategy::PlainText),
        SelectorState::Done => None,
    }
}

/// The selector's step: from the state and the number of goals that the
/// strategy tried in it has found to the next state.
pub fn advance(state: SelectorState, found: usize) -> (next: SelectorState)
    ensures
        next == state_after(state, found as nat),
        state != SelectorState::Done ==> steps_left(next) < steps_left(state),
{
    match state {
        SelectorState::TryGeometry => if found > 0 {
            SelectorState::Done
        } else {
            SelectorState::TryPlainText
        },
        SelectorState::TryPlainText => SelectorState::Done,
        SelectorState::Done => SelectorState::Done,
    }
}

/// Cuts the page text into its lines: trimmed, and none empty.
pub fn split_lines(text: &str) -> (lines: Vec<Vec<char>>)
    ensures
        lines.deep_view() == page_lines(text@),
{
    let v = chars_of(text);
    let mut lines: Vec<Vec<char>> = Vec::new();
    let mut current: Vec<char> = Vec::new();
    let ghost mut done: Seq<Seq<char>> = Seq::empty();
    let mut i: usize = 0;
    assert(v@.take(0) =~= Seq::empty());
    assert(raw_lines(v@.take(0)) =~= done.push(current@));
    while i < v.len()
        invariant
            i <= v.len(),
            raw_lines(v@.take(i as int)) == done.push(current@),
            lines.deep_view() == clean_lines(done),
        decreases v.len() - i,
    {
        let ghost upto = v@.take(i + 1);
        assert(upto.drop_last() =~= v@.take(i as int));
        assert(upto.last() == v@[i as int]);
        assert(done.push(current@).drop_last() =~= done);
        if v[i] == '\n' {
            let line = trim(current.as_slice());
            proof {
                let ghost closed = done.push(current@);
                assert(closed.drop_last() =~= done);
                assert(closed.last() == current@);
                done = closed;
            }
            if line.len() > 0 {
                let ghost before = lines.deep_view();
                let ghost lv = line@;
                assert(line.deep_view() =~= lv);
                lines.push(line);
                assert(lines.deep_view() =~= before.push(lv));
            }
            current = Vec::new();
        } else {
            current.push(v[i]);
        }
        i += 1;
    }
    assert(v@.take(i as int) =~= v@);
    let line = trim(current.as_slice());
    proof {
        let ghost closed = done.push(current@);
        assert(closed.drop_last() =~= done);
        assert(closed.last() == current@);
    }
    if line.len() > 0 {
        let ghost before = lines.deep_view();
        let ghost lv = line@;
        assert(line.deep_view() =~= lv);
        lines.push(line);
        assert(lines.deep_view() =~= before.push(lv));
    }
    lines
}

/// The lines of the page text as units without a frame.
pub fn units_of_text(text: &str) -> (units: Vec<RawUnit>)
    ensures
        units.deep_view() == line_units(text@),
{
    let lines = split_lines(text);
    let mut units: Vec<RawUnit> = Vec::new();
    let mut i: usize = 0;
    while i < lines.len()
        invariant
            i <= lines.len(),
            units.len() == i,
            lines.deep_view() == page_lines(text@),
            forall|k: int|
                0 <= k < i ==> (#[trigger] units.deep_view()[k]) == line_units(text@)[k],
        decreases lines.len() - i,
    {
        let line = &lines[i];
        let s = string_of(line.as_slice(), 0, line.len());
        assert(line@.subrange(0, line@.len() as int) =~= line@);
        assert(line.deep_view() =~= line@);
        assert(lines.deep_view()[i as int] == line@);
        let unit = RawUnit { text: s, frame: None };
        let ghost made = unit.deep_view();
        let ghost before = units.deep_view();
        units.push(unit);
        assert(units.deep_view() =~= before.push(made));
        i += 1;
    }
    assert(units.deep_view() =~= line_units(text@));
    units
}

fn within(bounds: &SectionBounds, index: usize, unit: &RawUnit) -> (r: bool)
    ensures
        r == in_section(bounds@, index as int, unit.deep_view()),
{
    match bounds {
        SectionBounds::Lines { start, end } => *start <= index && index < *end,
        SectionBounds::Band { top, bottom } => match unit.frame {
            Some(f) => {
                *top <= f.top as i64 && match bottom {
                    Some(b) => (f.top as i64) < *b,
                    None => true,
                }
            },
            None => false,
        },
    }
}

/// The candidates among `units` under `strategy`, in the order of the units.
pub fn collect_candidates(units: &Vec<RawUnit>, strategy: Strategy) -> (candidates: Vec<
    Candidate,
>)
    ensures
        candidates.deep_view() == candidates_in(units.deep_view(), strategy),
{
    let texts = trim_texts(units);
    let mut candidates: Vec<Candidate> = Vec::new();
    let bounds = match find_bounds(&texts, units, strategy) {
        Some(b) => b,
        None => {
            assert(candidates.deep_view() =~= Seq::empty());
            return candidates;
        },
    };
    let ghost us = units.deep_view();
    let mut i: usize = 0;
    assert(candidates.deep_view() =~= Seq::empty());
    while i < units.len()
        invariant
            i <= units.len(),
            us == units.deep_view(),
            trimmed_texts(texts@, us),
            candidates.deep_view() == candidates_upto(us, bounds@, strategy, i as int),
        decreases units.len() - i,
    {
        let unit = &units[i];
        assert(unit.deep_view() == us[i as int]);
        if within(&bounds, i, unit) && passes(texts[i].as_slice(), &unit.frame, strategy) {
            let title = normalize_chars(texts[i].as_slice());
            if title.len() >= MIN_TITLE_LENGTH {
                let text = string_of(title.as_slice(), 0, title.len());
                assert(title@.subrange(0, title@.len() as int) =~= title@);
                let candidate = match (strategy, unit.frame) {
                    (Strategy::Geometry, Some(f)) => Candidate { text, left: f.left, top: f.top },
                    _ => Candidate { text, left: 0, top: 0 },
                };
                let ghost made = candidate.deep_view();
                let ghost before = candidates.deep_view();
                candidates.push(candidate);
                assert(candidates.deep_view() =~= before.push(made));
            }
        }
        i += 1;
    }
    candidates
}

/// The plain-text strategy: the goals in the page text `text`, in the order
/// of their lines, each title once, none with a parent.
pub fn extract_from_text(text: &str) -> (goals: Vec<Goal>)
    ensures
        goals.deep_view() == text_goals(text@),
        sound_result(goals.deep_view()),
{
    proof {
        law_text_goals_are_sound(text@);
    }
    let units = units_of_text(text);
    let candidates = collect_candidates(&units, Strategy::PlainText);
    let kept = dedupe(&candidates);
    build_flat(&kept)
}

/// The geometry strategy: the goals among the elements `units`, from top to
/// bottom, each title once, children under the last top-level goal above
/// them.
pub fn extract_from_layout(units: &Vec<RawUnit>) -> (goals: Vec<Goal>)
    ensures
        goals.deep_view() == layout_goals(units.deep_view()),
        sound_result(goals.deep_view()),
{
    proof {
        law_layout_goals_are_sound(units.deep_view());
    }
    let candidates = collect_candidates(units, Strategy::Geometry);
    let kept = dedupe(&candidates);
    build_hierarchy(&kept)
}

/// Runs one strategy on the page.
pub fn extract(strategy: Strategy, page: &PageSnapshot) -> (goals: Vec<Goal>)
    ensures
        goals.deep_view() == goals_by(strategy, page@),
        sound_result(goals.deep_view()),
{
    match strategy {
        Strategy::Geometry => extract_from_layout(&page.units),
        Strategy::PlainText => extract_from_text(page.text.as_str()),
    }
}

/// Runs the selector on the page: the geometry strategy, and the plain-text
/// strategy if that found no goal. An empty result is a result like any
/// other.
pub fn extract_goals(page: &PageSnapshot) -> (goals: Vec<Goal>)
    ensures
        goals.deep_view() == selected_goals(page@),
        sound_result(goals.deep_view()),
{
    proof {
        law_results_are_sound(page@);
    }
    let mut state = SelectorState::TryGeometry;
    let mut goals: Vec<Goal> = Vec::new();
    loop
        invariant_except_break
            state != SelectorState::Done,
            state == SelectorState::TryPlainText ==> layout_goals(page@.units).len() == 0,
        ensures
            goals.deep_view() == selected_goals(page@),
        decreases steps_left(state),
    {
        let strategy = match state {
            SelectorState::TryGeometry => Strategy::Geometry,
            _ => Strategy::PlainText,
        };
        goals = extract(strategy, page);
        state = advance(state, goals.len());
        if let SelectorState::Done = state {
            break;
        }
    }
    goals
}

} // verus!
