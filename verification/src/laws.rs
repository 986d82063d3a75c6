//! What holds of every extraction, proved from the definitions.

use vstd::prelude::*;
use crate::chars::trimmed;
use crate::dedupe::{first_occurrences, lemma_first_occurrences};
use crate::emit::{delivery_of, lemma_empty_delivery, lemma_empty_payload, payload_of};
use crate::filter::{is_date_like, passes_filter, MIN_LINE_LENGTH, MIN_TITLE_LENGTH};
use crate::hierarchy::{
    lemma_flat_goals, lemma_hierarchy_of, lemma_sorted_by_top, parents_precede, sorted_by_top,
    unique_titles,
};
use crate::model::{CandidateView, GoalView, RawUnitView, Strategy};
use crate::pass::{
    awaits_answer, emissions, empty_delivery, failures, fresh_pass, handovers, in_extraction,
    message_text, moved, pass_after, step, Pass, PassActionView, PassErrorView, PassEventView,
    Phase,
};
use crate::section::{band_bounds, section_bounds, SectionView};
use crate::strategy::{
    candidate_of, candidates_in, candidates_upto, is_kept, layout_goals, line_units,
    selected_goals, sound_result, text_goals, PageView,
};

verus! {

/// Whether `c` is the candidate that one of the first `n` units becomes,
/// a unit that lies in the section, passes the filter and has a title of
/// `MIN_TITLE_LENGTH` characters or more.
pub open spec fn comes_from(
    units: Seq<RawUnitView>,
    bounds: SectionView,
    strategy: Strategy,
    n: int,
    c: CandidateView,
) -> bool {
    exists|k: int|
        0 <= k < n && #[trigger] is_kept(units, bounds, strategy, k) && c == candidate_of(
            units[k],
            strategy,
        )
}

proof fn lemma_candidates_upto(
    units: Seq<RawUnitView>,
    bounds: SectionView,
    strategy: Strategy,
    n: int,
)
    requires
        0 <= n <= units.len(),
    ensures
        candidates_upto(units, bounds, strategy, n).len() <= n,
        forall|i: int|
            0 <= i < candidates_upto(units, bounds, strategy, n).len() ==> comes_from(
                units,
                bounds,
                strategy,
                n,
                #[trigger] candidates_upto(units, bounds, strategy, n)[i],
            ),
    decreases n,
{
    if n > 0 {
        lemma_candidates_upto(units, bounds, strategy, n - 1);
        let before = candidates_upto(units, bounds, strategy, n - 1);
        let all = candidates_upto(units, bounds, strategy, n);
        assert forall|i: int| 0 <= i < all.len() implies comes_from(
            units,
            bounds,
            strategy,
            n,
            #[trigger] all[i],
        ) by {
            if i < before.len() {
                assert(comes_from(units, bounds, strategy, n - 1, before[i]));
                let k = choose|k: int|
                    0 <= k < n - 1 && #[trigger] is_kept(units, bounds, strategy, k) && before[i]
                        == candidate_of(units[k], strategy);
                assert(is_kept(units, bounds, strategy, k));
            } else {
                assert(is_kept(units, bounds, strategy, n - 1));
            }
        }
    }
}

/// Where a goal comes from: each candidate that a strategy works on is the
/// clean title of a unit that lies in the section, passes the filter and
/// has a title of `MIN_TITLE_LENGTH` characters or more.
pub proof fn law_candidates_come_from_the_section(
    units: Seq<RawUnitView>,
    strategy: Strategy,
    i: int,
)
    requires
        0 <= i < candidates_in(units, strategy).len(),
    ensures
        section_bounds(units, strategy) is Some,
        comes_from(
            units,
            section_bounds(units, strategy)->0,
            strategy,
            units.len() as int,
            candidates_in(units, strategy)[i],
        ),
        candidates_in(units, strategy)[i].text.len() >= MIN_TITLE_LENGTH,
{
    let bounds = section_bounds(units, strategy)->0;
    lemma_candidates_upto(units, bounds, strategy, units.len() as int);
    let c = candidates_in(units, strategy)[i];
    assert(c == candidates_upto(units, bounds, strategy, units.len() as int)[i]);
    assert(comes_from(units, bounds, strategy, units.len() as int, c));
}

/// A line that looks like a date, or that has fewer than `MIN_LINE_LENGTH`
/// characters once trimmed, is no candidate, so no goal comes from it.
pub proof fn law_dates_and_short_lines_are_rejected(unit: RawUnitView)
    requires
        is_date_like(trimmed(unit.text)) || trimmed(unit.text).len() < MIN_LINE_LENGTH,
    ensures
        !passes_filter(unit, Strategy::PlainText),
        forall|units: Seq<RawUnitView>, bounds: SectionView, k: int|
            0 <= k < units.len() && units[k] == unit ==> !#[trigger] is_kept(
                units,
                bounds,
                Strategy::PlainText,
                k,
            ),
{
}

proof fn lemma_long_titles(units: Seq<RawUnitView>, strategy: Strategy)
    ensures
        forall|i: int|
            0 <= i < candidates_in(units, strategy).len() ==> (#[trigger] candidates_in(
                units,
                strategy,
            )[i]).text.len() >= MIN_TITLE_LENGTH,
{
    let cands = candidates_in(units, strategy);
    assert forall|i: int| 0 <= i < cands.len() implies (#[trigger] cands[i]).text.len()
        >= MIN_TITLE_LENGTH by {
        law_candidates_come_from_the_section(units, strategy, i);
    }
}

/// What the plain-text strategy finds is a sound result.
pub proof fn law_text_goals_are_sound(text: Seq<char>)
    ensures
        sound_result(text_goals(text)),
        forall|i: int| 0 <= i < text_goals(text).len() ==> (#[trigger] text_goals(text)[i]).parent_id is None,
{
    let cands = candidates_in(line_units(text), Strategy::PlainText);
    let kept = first_occurrences(cands);
    lemma_long_titles(line_units(text), Strategy::PlainText);
    lemma_first_occurrences(cands);
    lemma_flat_goals(kept);
    let goals = text_goals(text);
    assert forall|i: int| 0 <= i < goals.len() implies (#[trigger] goals[i]).title.len()
        >= MIN_TITLE_LENGTH && !goals[i].completed by {
        assert(cands.contains(kept[i]));
    }
}

/// What the geometry strategy finds is a sound result.
pub proof fn law_layout_goals_are_sound(units: Seq<RawUnitView>)
    ensures
        sound_result(layout_goals(units)),
{
    let cands = candidates_in(units, Strategy::Geometry);
    let kept = first_occurrences(cands);
    let sorted = sorted_by_top(kept);
    lemma_long_titles(units, Strategy::Geometry);
    lemma_first_occurrences(cands);
    lemma_sorted_by_top(kept);
    lemma_hierarchy_of(kept);
    let goals = layout_goals(units);
    assert forall|i: int| 0 <= i < goals.len() implies (#[trigger] goals[i]).title.len()
        >= MIN_TITLE_LENGTH && !goals[i].completed by {
        assert(kept.contains(sorted[i]));
        let j = choose|j: int| 0 <= j < kept.len() && kept[j] == sorted[i];
        assert(cands.contains(kept[j]));
    }
}

/// In every result no two goals share a title, and every goal that names a
/// parent names an earlier goal that has no parent itself.
pub proof fn law_results_are_sound(page: PageView)
    ensures
        sound_result(selected_goals(page)),
        unique_titles(selected_goals(page)),
        parents_precede(selected_goals(page)),
{
    law_text_goals_are_sound(page.text);
    law_layout_goals_are_sound(page.units);
}

/// Extraction is a function of the page: two runs on the same page give the
/// same goals, with the same identifiers, in the same order.
pub proof fn law_extraction_is_repeatable(
    first_page: PageView,
    second_page: PageView,
    first: Seq<GoalView>,
    second: Seq<GoalView>,
)
    requires
        first_page == second_page,
        first == selected_goals(first_page),
        second == selected_goals(second_page),
    ensures
        first == second,
        payload_of(first) == payload_of(second),
{
}

/// Where no element opens the section, the geometry strategy finds nothing
/// and the result is that of the plain-text strategy, empty or not.
pub proof fn law_fallback_on_missing_heading(page: PageView)
    requires
        band_bounds(page.units) is None,
    ensures
        layout_goals(page.units).len() == 0,
        selected_goals(page) == text_goals(page.text),
{
    let cands = candidates_in(page.units, Strategy::Geometry);
    assert(cands =~= Seq::empty());
    assert(first_occurrences(cands) =~= Seq::empty());
    assert(sorted_by_top(Seq::<CandidateView>::empty()) =~= Seq::empty());
}

/// More generally, the result is that of the plain-text strategy whenever
/// the geometry strategy finds no goal.
pub proof fn law_fallback_on_empty_layout(page: PageView)
    ensures
        layout_goals(page.units).len() > 0 ==> selected_goals(page) == layout_goals(page.units),
        layout_goals(page.units).len() == 0 ==> selected_goals(page) == text_goals(page.text),
{
}

/// A fault while extraction is under way ends the pass with the emission of
/// the empty payload `[]`.
pub proof fn law_fault_emits_the_empty_payload(pass: Pass)
    requires
        in_extraction(pass.phase),
    ensures
        step(pass, PassEventView::Fault) == (
            moved(pass, Phase::Done),
            PassActionView::Emit { address: empty_delivery() },
        ),
        empty_delivery() == delivery_of(Seq::empty()),
        empty_delivery() == "http://localhost:19837?data=%5B%5D"@,
{
    lemma_empty_payload();
    lemma_empty_delivery();
}

/// A page that does not answer the question asked last ends the pass with
/// the emission of the empty payload; its silence on an earlier question
/// changes nothing.
pub proof fn law_silence_emits_the_empty_payload(pass: Pass, ticket: u64)
    requires
        awaits_answer(pass.phase),
    ensures
        step(pass, PassEventView::Unanswered { ticket }) == if ticket == pass.ticket {
            (moved(pass, Phase::Done), PassActionView::Emit { address: empty_delivery() })
        } else {
            (pass, PassActionView::Ignore)
        },
{
}

/// A transport that fails ends a pass that is not over with an error that
/// carries the reason word for word, and with nothing else.
pub proof fn law_transport_failure_is_an_error(pass: Pass, reason: Seq<char>)
    requires
        pass.phase != Phase::Done,
    ensures
        step(pass, PassEventView::TransportFailed { reason }) == (
            moved(pass, Phase::Done),
            PassActionView::Fail { error: PassErrorView::Transport { reason } },
        ),
        message_text(PassErrorView::Transport { reason }) == reason,
{
}

/// A pass that finds no session window when it is to begin fails with
/// `ContextMissing` and asks for nothing: no reload, no question, no
/// emission.
pub proof fn law_missing_window_ends_the_pass(custom: bool, events: Seq<PassEventView>)
    ensures
        step(fresh_pass(custom), PassEventView::ContextLost) == (
            moved(fresh_pass(custom), Phase::Done),
            PassActionView::Fail { error: PassErrorView::ContextMissing },
        ),
        emissions(moved(fresh_pass(custom), Phase::Done), events) == 0,
        pass_after(moved(fresh_pass(custom), Phase::Done), events) == moved(
            fresh_pass(custom),
            Phase::Done,
        ),
{
    lemma_done_is_final(moved(fresh_pass(custom), Phase::Done), events);
}

proof fn lemma_done_is_final(pass: Pass, events: Seq<PassEventView>)
    requires
        pass.phase == Phase::Done,
    ensures
        emissions(pass, events) == 0,
        failures(pass, events) == 0,
        handovers(pass, events) == 0,
        pass_after(pass, events) == pass,
    decreases events.len(),
{
    if events.len() > 0 {
        lemma_done_is_final(pass, events.skip(1));
    }
}

/// However the events fall, a pass ends in one way only: it emits once, or
/// fails once, or hands over once, and it has done one of the three exactly
/// when it is over.
pub proof fn law_one_outcome_per_pass(pass: Pass, events: Seq<PassEventView>)
    requires
        pass.phase != Phase::Done,
    ensures
        emissions(pass, events) + failures(pass, events) + handovers(pass, events) <= 1,
        pass_after(pass, events).phase == Phase::Done <==> emissions(pass, events) + failures(
            pass,
            events,
        ) + handovers(pass, events) == 1,
    decreases events.len(),
{
    if events.len() > 0 {
        let (next, action) = step(pass, events[0]);
        if next.phase == Phase::Done {
            lemma_done_is_final(next, events.skip(1));
        } else {
            law_one_outcome_per_pass(next, events.skip(1));
        }
    }
}

/// Whether `event` says that the window is gone or that the transport
/// failed.
pub open spec fn is_boundary_failure(event: PassEventView) -> bool {
    event is ContextLost || event is TransportFailed
}

/// Once extraction by the built-in strategies is under way, a pass that is
/// over without a failure of window or transport has emitted exactly once.
pub proof fn law_extraction_ends_in_one_emission(pass: Pass, events: Seq<PassEventView>)
    requires
        in_extraction(pass.phase),
        !pass.custom,
        forall|i: int| 0 <= i < events.len() ==> !is_boundary_failure(#[trigger] events[i]),
    ensures
        failures(pass, events) == 0,
        handovers(pass, events) == 0,
        emissions(pass, events) <= 1,
        pass_after(pass, events).phase == Phase::Done <==> emissions(pass, events) == 1,
        pass_after(pass, events).phase != Phase::Done ==> in_extraction(
            pass_after(pass, events).phase,
        ),
    decreases events.len(),
{
    if events.len() > 0 {
        let (next, action) = step(pass, events[0]);
        assert(!is_boundary_failure(events[0]));
        if next.phase == Phase::Done {
            lemma_done_is_final(next, events.skip(1));
        } else {
            assert forall|i: int| 0 <= i < events.skip(1).len() implies !is_boundary_failure(
                #[trigger] events.skip(1)[i],
            ) by {
                assert(events.skip(1)[i] == events[i + 1]);
            }
            law_extraction_ends_in_one_emission(next, events.skip(1));
        }
    }
}

} // verus!
