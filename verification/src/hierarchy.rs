//! The hierarchy builder: from candidates with a place on the page to goals
//! with a parent.
//!
//! The candidates are put in the order of their top edges, those with the
//! same top edge staying in the order in which they were found. A candidate
//! is a child when its left edge lies more than `INDENT_THRESHOLD_UNITS`
//! layout units to the right of the left-most candidate. A child's parent is
//! the last candidate above it that is no child; a child with none above it
//! has no parent. Nothing is nested deeper than that.

use vstd::prelude::*;
use crate::dedupe::{distinct_titles, has_title};
use crate::ident::{goal_id, lemma_goal_id_injective, make_id};
use crate::model::{Candidate, CandidateView, Goal, GoalView, PARTS_PER_UNIT};

verus! {

/// A candidate is a child when its left edge lies more than this many
/// layout units to the right of the left-most candidate.
pub const INDENT_THRESHOLD_UNITS: i64 = 15;

/// The same in the parts in which edges are counted.
pub const INDENT_THRESHOLD: i64 = INDENT_THRESHOLD_UNITS * PARTS_PER_UNIT;

/// `sorted` with `c` put in behind the last candidate whose top edge is not
/// below that of `c`.
pub open spec fn insert_by_top(sorted: Seq<CandidateView>, c: CandidateView) -> Seq<
    CandidateView,
>
    decreases sorted.len(),
{
    if sorted.len() > 0 && sorted.last().top > c.top {
        insert_by_top(sorted.drop_last(), c).push(sorted.last())
    } else {
        sorted.push(c)
    }
}

/// The candidates of `s` in the order of their top edges; candidates with
/// the same top edge keep the order they have in `s`.
pub open spec fn sorted_by_top(s: Seq<CandidateView>) -> Seq<CandidateView>
    decreases s.len(),
{
    if s.len() == 0 {
        Seq::empty()
    } else {
        insert_by_top(sorted_by_top(s.drop_last()), s.last())
    }
}

/// The top edges never go up along `s`.
pub open spec fn ascending_tops(s: Seq<CandidateView>) -> bool {
    forall|i: int, j: int| 0 <= i < j < s.len() ==> (#[trigger] s[i]).top <= (#[trigger] s[j]).top
}

/// The candidates of `s` whose top edge is `top`, in the order of `s`.
pub open spec fn with_top(s: Seq<CandidateView>, top: int) -> Seq<CandidateView>
    decreases s.len(),
{
    if s.len() == 0 {
        Seq::empty()
    } else if s.last().top == top {
        with_top(s.drop_last(), top).push(s.last())
    } else {
        with_top(s.drop_last(), top)
    }
}

/// The least left edge in `s`; 0 where `s` is empty.
pub open spec fn least_left(s: Seq<CandidateView>) -> int
    decreases s.len(),
{
    if s.len() == 0 {
        0
    } else if s.len() == 1 {
        s[0].left
    } else {
        let before = least_left(s.drop_last());
        if s.last().left < before {
            s.last().left
        } else {
            before
        }
    }
}

/// Whether a candidate with the left edge `left` is a child, where the
/// left-most candidate has the left edge `min_left`.
pub open spec fn is_child(left: int, min_left: int) -> bool {
    left > min_left + INDENT_THRESHOLD
}

/// The position of the last candidate before position `i` that is no child.
pub open spec fn last_top_level(s: Seq<CandidateView>, min_left: int, i: int) -> Option<int>
    decreases i,
{
    if i <= 0 || i > s.len() {
        None
    } else if !is_child(s[i - 1].left, min_left) {
        Some(i - 1)
    } else {
        last_top_level(s, min_left, i - 1)
    }
}

/// The goal that the candidate at position `i` of the sorted candidates `s`
/// becomes.
pub open spec fn goal_at(s: Seq<CandidateView>, i: int) -> GoalView {
    let min_left = least_left(s);
    GoalView {
        id: goal_id(i as nat),
        title: s[i].text,
        completed: false,
        parent_id: if is_child(s[i].left, min_left) {
            match last_top_level(s, min_left, i) {
                Some(j) => Some(goal_id(j as nat)),
                None => None,
            }
        } else {
            None
        },
    }
}

/// The goals that the candidates `candidates` become.
pub open spec fn hierarchy_of(candidates: Seq<CandidateView>) -> Seq<GoalView> {
    let s = sorted_by_top(candidates);
    Seq::new(s.len(), |i: int| goal_at(s, i))
}

/// The goals that candidates without a place on the page become: one each,
/// in their order, none with a parent.
pub open spec fn flat_goals(candidates: Seq<CandidateView>) -> Seq<GoalView> {
    Seq::new(
        candidates.len(),
        |i: int|
            GoalView {
                id: goal_id(i as nat),
                title: candidates[i].text,
                completed: false,
                parent_id: None,
            },
    )
}

/// No two goals of `goals` share a title.
pub open spec fn unique_titles(goals: Seq<GoalView>) -> bool {
    forall|i: int, j: int|
        0 <= i < j < goals.len() ==> (#[trigger] goals[i]).title != (#[trigger] goals[j]).title
}

/// Every parent that a goal of `goals` names is an earlier goal of `goals`
/// that has no parent itself.
pub open spec fn parents_precede(goals: Seq<GoalView>) -> bool {
    forall|i: int|
        0 <= i < goals.len() && (#[trigger] goals[i]).parent_id is Some ==> exists|j: int|
            0 <= j < i && (#[trigger] goals[j]).id == goals[i].parent_id->0
                && goals[j].parent_id is None
}

/// Each goal's identifier is the prefix and the goal's position, so no two
/// goals share one.
pub open spec fn sequential_ids(goals: Seq<GoalView>) -> bool {
    forall|i: int| 0 <= i < goals.len() ==> (#[trigger] goals[i]).id == goal_id(i as nat)
}

proof fn lemma_insert_by_top(sorted: Seq<CandidateView>, c: CandidateView)
    ensures
        insert_by_top(sorted, c).len() == sorted.len() + 1,
        forall|t: Seq<char>|
            #![trigger has_title(insert_by_top(sorted, c), t)]
            #![trigger has_title(sorted, t)]
            has_title(insert_by_top(sorted, c), t) <==> has_title(sorted, t) || c.text == t,
        ascending_tops(sorted) ==> ascending_tops(insert_by_top(sorted, c)),
        distinct_titles(sorted) && !has_title(sorted, c.text) ==> distinct_titles(
            insert_by_top(sorted, c),
        ),
    decreases sorted.len(),
{
    let out = insert_by_top(sorted, c);
    if sorted.len() > 0 && sorted.last().top > c.top {
        let init = sorted.drop_last();
        let last = sorted.last();
        let inner = insert_by_top(init, c);
        lemma_insert_by_top(init, c);
        assert forall|t: Seq<char>| has_title(out, t) <==> has_title(sorted, t) || c.text
            == t by {
            if has_title(out, t) {
                let k = choose|k: int| 0 <= k < out.len() && (#[trigger] out[k]).text == t;
                if k < inner.len() {
                    assert(inner[k].text == t);
                    assert(has_title(inner, t));
                    if has_title(init, t) {
                        let i = choose|i: int| 0 <= i < init.len() && (#[trigger] init[i]).text == t;
                        assert(sorted[i].text == t);
                    }
                } else {
                    assert(sorted[sorted.len() - 1].text == t);
                }
            }
            if has_title(sorted, t) {
                let i = choose|i: int| 0 <= i < sorted.len() && (#[trigger] sorted[i]).text == t;
                if i < init.len() {
                    assert(init[i].text == t);
                    assert(has_title(init, t));
                    let k = choose|k: int| 0 <= k < inner.len() && (#[trigger] inner[k]).text == t;
                    assert(out[k].text == t);
                } else {
                    assert(out[out.len() - 1].text == t);
                }
            }
            if c.text == t {
                assert(has_title(inner, t));
                let k = choose|k: int| 0 <= k < inner.len() && (#[trigger] inner[k]).text == t;
                assert(out[k].text == t);
            }
        }
        if ascending_tops(sorted) {
            assert(ascending_tops(init)) by {
                assert forall|i: int, j: int| 0 <= i < j < init.len() implies (
                #[trigger] init[i]).top <= (#[trigger] init[j]).top by {
                    assert(sorted[i].top <= sorted[j].top);
                }
            }
            assert forall|i: int, j: int| 0 <= i < j < out.len() implies (#[trigger] out[i]).top
                <= (#[trigger] out[j]).top by {
                if j < inner.len() {
                    assert(inner[i].top <= inner[j].top);
                } else {
                    // every candidate of `inner` is `c` or one of `init`
                    lemma_insert_members(init, c, i);
                    if inner[i] != c {
                        let k = choose|k: int| 0 <= k < init.len() && init[k] == inner[i];
                        assert(sorted[k].top <= sorted[sorted.len() - 1].top);
                    }
                }
            }
        }
        if distinct_titles(sorted) && !has_title(sorted, c.text) {
            assert(distinct_titles(init)) by {
                assert forall|i: int, j: int| 0 <= i < j < init.len() implies (
                #[trigger] init[i]).text != (#[trigger] init[j]).text by {
                    assert(sorted[i].text != sorted[j].text);
                }
            }
            assert(!has_title(init, c.text)) by {
                if has_title(init, c.text) {
                    let i = choose|i: int|
                        0 <= i < init.len() && (#[trigger] init[i]).text == c.text;
                    assert(sorted[i].text == c.text);
                }
            }
            assert forall|i: int, j: int| 0 <= i < j < out.len() implies (#[trigger] out[i]).text
                != (#[trigger] out[j]).text by {
                if j < inner.len() {
                    assert(inner[i].text != inner[j].text);
                } else {
                    lemma_insert_members(init, c, i);
                    if inner[i] == c {
                        assert(sorted[sorted.len() - 1].text == last.text);
                    } else {
                        let k = choose|k: int| 0 <= k < init.len() && init[k] == inner[i];
                        assert(sorted[k].text != sorted[sorted.len() - 1].text);
                    }
                }
            }
        }
    } else {
        assert forall|t: Seq<char>| has_title(out, t) <==> has_title(sorted, t) || c.text
            == t by {
            if has_title(out, t) {
                let k = choose|k: int| 0 <= k < out.len() && (#[trigger] out[k]).text == t;
                if k < sorted.len() {
                    assert(sorted[k].text == t);
                }
            }
            if has_title(sorted, t) {
                let i = choose|i: int| 0 <= i < sorted.len() && (#[trigger] sorted[i]).text == t;
                assert(out[i].text == t);
            }
            if c.text == t {
                assert(out[out.len() - 1].text == t);
            }
        }
        if ascending_tops(sorted) {
            assert forall|i: int, j: int| 0 <= i < j < out.len() implies (#[trigger] out[i]).top
                <= (#[trigger] out[j]).top by {
                if j < sorted.len() {
                    assert(sorted[i].top <= sorted[j].top);
                } else if sorted.len() > 0 {
                    assert(sorted[i].top <= sorted[sorted.len() - 1].top);
                }
            }
        }
        if distinct_titles(sorted) && !has_title(sorted, c.text) {
            assert forall|i: int, j: int| 0 <= i < j < out.len() implies (#[trigger] out[i]).text
                != (#[trigger] out[j]).text by {
                if j < sorted.len() {
                    assert(sorted[i].text != sorted[j].text);
                } else {
                    assert(sorted[i].text == out[i].text);
                }
            }
        }
    }
}

proof fn lemma_insert_members(sorted: Seq<CandidateView>, c: CandidateView, i: int)
    requires
        0 <= i < insert_by_top(sorted, c).len(),
    ensures
        insert_by_top(sorted, c)[i] == c || exists|k: int|
            0 <= k < sorted.len() && sorted[k] == insert_by_top(sorted, c)[i],
    decreases sorted.len(),
{
    let out = insert_by_top(sorted, c);
    if sorted.len() > 0 && sorted.last().top > c.top {
        let init = sorted.drop_last();
        let inner = insert_by_top(init, c);
        lemma_insert_by_top(init, c);
        if i < inner.len() {
            lemma_insert_members(init, c, i);
            if inner[i] != c {
                let k = choose|k: int| 0 <= k < init.len() && init[k] == inner[i];
                assert(sorted[k] == out[i]);
            }
        } else {
            assert(sorted[sorted.len() - 1] == out[i]);
        }
    } else {
        if i < sorted.len() {
            assert(sorted[i] == out[i]);
        }
    }
}

proof fn lemma_insert_keeps_order(sorted: Seq<CandidateView>, c: CandidateView, top: int)
    ensures
        with_top(insert_by_top(sorted, c), top) == if c.top == top {
            with_top(sorted, top).push(c)
        } else {
            with_top(sorted, top)
        },
    decreases sorted.len(),
{
    if sorted.len() > 0 && sorted.last().top > c.top {
        let init = sorted.drop_last();
        let inner = insert_by_top(init, c);
        lemma_insert_keeps_order(init, c, top);
        assert(inner.push(sorted.last()).drop_last() =~= inner);
    } else {
        assert(sorted.push(c).drop_last() =~= sorted);
    }
}

/// Sorting is stable: for each top edge, the candidates that have it come
/// out in the order in which they went in.
pub proof fn lemma_sort_is_stable(s: Seq<CandidateView>, top: int)
    ensures
        with_top(sorted_by_top(s), top) == with_top(s, top),
    decreases s.len(),
{
    if s.len() > 0 {
        lemma_sort_is_stable(s.drop_last(), top);
        lemma_insert_keeps_order(sorted_by_top(s.drop_last()), s.last(), top);
    }
}

proof fn lemma_with_top_of_last(s: Seq<CandidateView>)
    requires
        s.len() > 0,
    ensures
        with_top(s, s.last().top).len() > 0,
        with_top(s, s.last().top).last() == s.last(),
        with_top(s, s.last().top).drop_last() == with_top(s.drop_last(), s.last().top),
        forall|t: int| t != s.last().top ==> with_top(s, t) == with_top(s.drop_last(), t),
{
    let t = s.last().top;
    assert(with_top(s.drop_last(), t).push(s.last()).drop_last() =~= with_top(s.drop_last(), t));
}

/// There is one way only to sort stably: two sequences with ascending top
/// edges in which, for each top edge, the same candidates stand in the same
/// order are the same sequence.
pub proof fn lemma_stable_order_is_unique(a: Seq<CandidateView>, b: Seq<CandidateView>)
    requires
        ascending_tops(a),
        ascending_tops(b),
        forall|t: int| with_top(a, t) == with_top(b, t),
    ensures
        a == b,
    decreases a.len(),
{
    if a.len() == 0 {
        if b.len() > 0 {
            lemma_with_top_of_last(b);
            assert(with_top(a, b.last().top).len() == 0);
        }
        assert(a =~= b);
    } else {
        let x = a.last();
        lemma_with_top_of_last(a);
        assert(with_top(b, x.top).len() > 0);
        assert(b.len() > 0);
        let y = b.last();
        lemma_with_top_of_last(b);
        // the last of `b` lies at the top edge of the last of `a`
        assert(with_top(a, y.top).len() > 0);
        assert(y.top <= x.top) by {
            if y.top > x.top {
                lemma_no_top_above_last(a, y.top);
            }
        }
        assert(x.top <= y.top) by {
            if x.top > y.top {
                lemma_no_top_above_last(b, x.top);
            }
        }
        assert(y == x);
        let a0 = a.drop_last();
        let b0 = b.drop_last();
        assert(ascending_tops(a0)) by {
            assert forall|i: int, j: int| 0 <= i < j < a0.len() implies (#[trigger] a0[i]).top <= (
            #[trigger] a0[j]).top by {
                assert(a[i].top <= a[j].top);
            }
        }
        assert(ascending_tops(b0)) by {
            assert forall|i: int, j: int| 0 <= i < j < b0.len() implies (#[trigger] b0[i]).top <= (
            #[trigger] b0[j]).top by {
                assert(b[i].top <= b[j].top);
            }
        }
        assert forall|t: int| with_top(a0, t) == with_top(b0, t) by {
            assert(with_top(a, t) == with_top(b, t));
        }
        lemma_stable_order_is_unique(a0, b0);
        assert(a =~= a0.push(x));
        assert(b =~= b0.push(y));
    }
}

proof fn lemma_no_top_above_last(s: Seq<CandidateView>, top: int)
    requires
        ascending_tops(s),
        s.len() > 0,
        top > s.last().top,
    ensures
        with_top(s, top).len() == 0,
    decreases s.len(),
{
    if s.len() > 1 {
        let init = s.drop_last();
        assert(ascending_tops(init)) by {
            assert forall|i: int, j: int| 0 <= i < j < init.len() implies (
            #[trigger] init[i]).top <= (#[trigger] init[j]).top by {
                assert(s[i].top <= s[j].top);
            }
        }
        assert(s[s.len() - 2].top <= s[s.len() - 1].top);
        assert(init.last() == s[s.len() - 2]);
        lemma_no_top_above_last(init, top);
    } else {
        assert(with_top(s.drop_last(), top) =~= Seq::empty());
    }
}

/// What `sorted_by_top` gives is the stable order of the candidates, and
/// nothing else is.
pub proof fn lemma_sorted_is_the_stable_order(s: Seq<CandidateView>, other: Seq<CandidateView>)
    requires
        ascending_tops(other),
        forall|t: int| with_top(other, t) == with_top(s, t),
    ensures
        other == sorted_by_top(s),
{
    lemma_sorted_by_top(s);
    assert forall|t: int| with_top(other, t) == with_top(sorted_by_top(s), t) by {
        lemma_sort_is_stable(s, t);
    }
    lemma_stable_order_is_unique(other, sorted_by_top(s));
}

/// Sorting what is sorted changes nothing.
pub proof fn lemma_sort_is_idempotent(s: Seq<CandidateView>)
    ensures
        sorted_by_top(sorted_by_top(s)) == sorted_by_top(s),
{
    lemma_sorted_by_top(s);
    lemma_sorted_is_the_stable_order(sorted_by_top(s), sorted_by_top(s));
}

/// Sorting keeps every title, each as often as before, and leaves the top
/// edges in ascending order.
pub proof fn lemma_sorted_by_top(s: Seq<CandidateView>)
    ensures
        sorted_by_top(s).len() == s.len(),
        ascending_tops(sorted_by_top(s)),
        forall|t: Seq<char>| has_title(sorted_by_top(s), t) <==> has_title(s, t),
        distinct_titles(s) ==> distinct_titles(sorted_by_top(s)),
        forall|i: int| 0 <= i < s.len() ==> s.contains(#[trigger] sorted_by_top(s)[i]),
    decreases s.len(),
{
    let out = sorted_by_top(s);
    if s.len() > 0 {
        let init = s.drop_last();
        let last = s.last();
        lemma_sorted_by_top(init);
        lemma_insert_by_top(sorted_by_top(init), last);
        assert forall|i: int| 0 <= i < s.len() implies s.contains(#[trigger] out[i]) by {
            lemma_insert_members(sorted_by_top(init), last, i);
            if out[i] == last {
                assert(s[s.len() - 1] == out[i]);
            } else {
                let k = choose|k: int|
                    0 <= k < sorted_by_top(init).len() && sorted_by_top(init)[k] == out[i];
                assert(init.contains(sorted_by_top(init)[k]));
                let j = choose|j: int| 0 <= j < init.len() && init[j] == out[i];
                assert(s[j] == out[i]);
            }
        }
        assert forall|t: Seq<char>| has_title(out, t) <==> has_title(s, t) by {
            if has_title(s, t) {
                let i = choose|i: int| 0 <= i < s.len() && (#[trigger] s[i]).text == t;
                if i < init.len() {
                    assert(init[i].text == t);
                    assert(has_title(init, t));
                }
            }
            if has_title(init, t) {
                let i = choose|i: int| 0 <= i < init.len() && (#[trigger] init[i]).text == t;
                assert(s[i].text == t);
            }
            if last.text == t {
                assert(s[s.len() - 1].text == t);
            }
        }
        if distinct_titles(s) {
            assert(distinct_titles(init)) by {
                assert forall|i: int, j: int| 0 <= i < j < init.len() implies (
                #[trigger] init[i]).text != (#[trigger] init[j]).text by {
                    assert(s[i].text != s[j].text);
                }
            }
            assert(!has_title(init, last.text)) by {
                if has_title(init, last.text) {
                    let i = choose|i: int|
                        0 <= i < init.len() && (#[trigger] init[i]).text == last.text;
                    assert(s[i].text == s[s.len() - 1].text);
                }
            }
        }
    }
}

proof fn lemma_last_top_level(s: Seq<CandidateView>, min_left: int, i: int)
    requires
        0 <= i <= s.len(),
    ensures
        last_top_level(s, min_left, i) matches Some(j) ==> 0 <= j < i && !is_child(
            s[j].left,
            min_left,
        ),
    decreases i,
{
    if i > 0 && is_child(s[i - 1].left, min_left) {
        lemma_last_top_level(s, min_left, i - 1);
    }
}

/// The goals that come out of the hierarchy builder are as many as the
/// candidates, carry their positions as identifiers, and name as parents
/// only earlier goals that have none; where no two candidates share a
/// title, no two goals do.
pub proof fn lemma_hierarchy_of(candidates: Seq<CandidateView>)
    ensures
        hierarchy_of(candidates).len() == candidates.len(),
        sequential_ids(hierarchy_of(candidates)),
        parents_precede(hierarchy_of(candidates)),
        distinct_titles(candidates) ==> unique_titles(hierarchy_of(candidates)),
{
    let s = sorted_by_top(candidates);
    let goals = hierarchy_of(candidates);
    let min_left = least_left(s);
    lemma_sorted_by_top(candidates);
    assert forall|i: int| 0 <= i < goals.len() && (#[trigger] goals[i]).parent_id is Some implies exists|
        j: int,
    |
        0 <= j < i && (#[trigger] goals[j]).id == goals[i].parent_id->0 && goals[j].parent_id
            is None by {
        lemma_last_top_level(s, min_left, i);
        let j = last_top_level(s, min_left, i)->0;
        assert(goals[j].id == goal_id(j as nat));
        assert(goals[j].parent_id is None);
    }
    if distinct_titles(candidates) {
        assert forall|i: int, j: int| 0 <= i < j < goals.len() implies (#[trigger] goals[i]).title
            != (#[trigger] goals[j]).title by {
            assert(s[i].text != s[j].text);
        }
    }
}

/// Flat goals carry their positions as identifiers and have no parents;
/// where no two candidates share a title, no two goals do.
pub proof fn lemma_flat_goals(candidates: Seq<CandidateView>)
    ensures
        flat_goals(candidates).len() == candidates.len(),
        sequential_ids(flat_goals(candidates)),
        parents_precede(flat_goals(candidates)),
        distinct_titles(candidates) ==> unique_titles(flat_goals(candidates)),
{
    let goals = flat_goals(candidates);
    if distinct_titles(candidates) {
        assert forall|i: int, j: int| 0 <= i < j < goals.len() implies (#[trigger] goals[i]).title
            != (#[trigger] goals[j]).title by {
            assert(candidates[i].text != candidates[j].text);
        }
    }
}

/// Goals with sequential identifiers have pairwise different identifiers.
pub proof fn lemma_ids_unique(goals: Seq<GoalView>, i: int, j: int)
    requires
        sequential_ids(goals),
        0 <= i < goals.len(),
        0 <= j < goals.len(),
        goals[i].id == goals[j].id,
    ensures
        i == j,
{
    lemma_goal_id_injective(i as nat, j as nat);
}

fn copy_candidate(c: &Candidate) -> (r: Candidate)
    ensures
        r.deep_view() == c.deep_view(),
{
    Candidate { text: c.text.clone(), left: c.left, top: c.top }
}

/// The candidates in the order of their top edges; candidates with the same
/// top edge keep their order.
pub fn sort_by_top(candidates: &Vec<Candidate>) -> (sorted: Vec<Candidate>)
    ensures
        sorted.deep_view() == sorted_by_top(candidates.deep_view()),
{
    let mut sorted: Vec<Candidate> = Vec::new();
    let mut i: usize = 0;
    let ghost all = candidates.deep_view();
    assert(all.take(0) =~= Seq::empty());
    while i < candidates.len()
        invariant
            i <= candidates.len(),
            all == candidates.deep_view(),
            sorted.len() == i,
            sorted.deep_view() == sorted_by_top(all.take(i as int)),
        decreases candidates.len() - i,
    {
        let c = copy_candidate(&candidates[i]);
        let ghost cv = c.deep_view();
        let ghost sv = sorted.deep_view();
        let mut p: usize = sorted.len();
        assert(sv.take(p as int) =~= sv);
        assert(insert_by_top(sv, cv) =~= insert_by_top(sv.take(p as int), cv) + sv.skip(p as int));
        while p > 0 && sorted[p - 1].top > c.top
            invariant
                p <= sorted.len(),
                sv == sorted.deep_view(),
                cv == c.deep_view(),
                insert_by_top(sv, cv) == insert_by_top(sv.take(p as int), cv) + sv.skip(p as int),
            decreases p,
        {
            assert(sv.take(p as int).drop_last() =~= sv.take(p - 1));
            assert(sv.take(p as int).last() == sv[p - 1]);
            assert(insert_by_top(sv.take(p - 1), cv).push(sv[p - 1]) + sv.skip(p as int)
                =~= insert_by_top(sv.take(p - 1), cv) + sv.skip(p - 1));
            p -= 1;
        }
        assert(insert_by_top(sv.take(p as int), cv) == sv.take(p as int).push(cv)) by {
            if p > 0 {
                assert(sv.take(p as int).last() == sv[p - 1]);
            }
        }
        assert(sv.take(p as int).push(cv) + sv.skip(p as int) =~= sv.insert(p as int, cv));
        sorted.insert(p, c);
        assert(sorted.deep_view() =~= sv.insert(p as int, cv));
        assert(all.take(i + 1).drop_last() =~= all.take(i as int));
        assert(all.take(i + 1).last() == cv);
        i += 1;
    }
    assert(all.take(i as int) =~= all);
    sorted
}

fn min_left_of(sorted: &Vec<Candidate>) -> (m: i32)
    requires
        sorted.len() > 0,
    ensures
        m == least_left(sorted.deep_view()),
{
    let ghost s = sorted.deep_view();
    let mut m: i32 = sorted[0].left;
    let mut i: usize = 1;
    assert(s.take(1).len() == 1);
    while i < sorted.len()
        invariant
            1 <= i <= sorted.len(),
            s == sorted.deep_view(),
            m == least_left(s.take(i as int)),
        decreases sorted.len() - i,
    {
        assert(s.take(i + 1).drop_last() =~= s.take(i as int));
        if sorted[i].left < m {
            m = sorted[i].left;
        }
        i += 1;
    }
    assert(s.take(i as int) =~= s);
    m
}

/// Builds the goals from the candidates: sorts them by their top edges,
/// numbers them, and gives each child the last top-level goal above it as
/// its parent.
pub fn build_hierarchy(candidates: &Vec<Candidate>) -> (goals: Vec<Goal>)
    ensures
        goals.deep_view() == hierarchy_of(candidates.deep_view()),
{
    let sorted = sort_by_top(candidates);
    let mut goals: Vec<Goal> = Vec::new();
    if sorted.len() == 0 {
        assert(goals.deep_view() =~= hierarchy_of(candidates.deep_view()));
        return goals;
    }
    let min_left = min_left_of(&sorted);
    let ghost s = sorted.deep_view();
    let mut last_parent: Option<usize> = None;
    let mut i: usize = 0;
    while i < sorted.len()
        invariant
            i <= sorted.len(),
            s == sorted.deep_view(),
            min_left == least_left(s),
            goals.len() == i,
            forall|k: int| 0 <= k < i ==> (#[trigger] goals.deep_view()[k]) == goal_at(s, k),
            match last_parent {
                Some(j) => last_top_level(s, min_left as int, i as int) == Some(j as int),
                None => last_top_level(s, min_left as int, i as int) is None,
            },
        decreases sorted.len() - i,
    {
        let c = &sorted[i];
        let child = c.left as i64 > min_left as i64 + INDENT_THRESHOLD;
        let parent_id = if child {
            match last_parent {
                Some(j) => Some(make_id(j)),
                None => None,
            }
        } else {
            None
        };
        let goal = Goal { id: make_id(i), title: c.text.clone(), completed: false, parent_id };
        let ghost made = goal.deep_view();
        assert(made == goal_at(s, i as int));
        let ghost before = goals.deep_view();
        goals.push(goal);
        assert(goals.deep_view() =~= before.push(made));
        if !child {
            last_parent = Some(i);
        }
        i += 1;
    }
    assert(goals.deep_view() =~= hierarchy_of(candidates.deep_view()));
    goals
}

/// One goal for each candidate, in their order, none with a parent.
pub fn build_flat(candidates: &Vec<Candidate>) -> (goals: Vec<Goal>)
    ensures
        goals.deep_view() == flat_goals(candidates.deep_view()),
{
    let mut goals: Vec<Goal> = Vec::new();
    let ghost s = candidates.deep_view();
    let mut i: usize = 0;
    while i < candidates.len()
        invariant
            i <= candidates.len(),
            s == candidates.deep_view(),
            goals.len() == i,
            forall|k: int| 0 <= k < i ==> (#[trigger] goals.deep_view()[k]) == flat_goals(s)[k],
        decreases candidates.len() - i,
    {
        let goal = Goal {
            id: make_id(i),
            title: candidates[i].text.clone(),
            completed: false,
            parent_id: None,
        };
        let ghost made = goal.deep_view();
        assert(made == flat_goals(s)[i as int]);
        let ghost before = goals.deep_view();
        goals.push(goal);
        assert(goals.deep_view() =~= before.push(made));
        i += 1;
    }
    assert(goals.deep_view() =~= flat_goals(s));
    goals
}

} // verus!
