//! The deduplicator: of the candidates that share a title, only the first
//! stays. Titles are compared exactly, character by character.

use vstd::prelude::*;
use crate::model::{Candidate, CandidateView};

verus! {

/// Whether some candidate in `s` has the title `title`.
pub open spec fn has_title(s: Seq<CandidateView>, title: Seq<char>) -> bool {
    exists|i: int| 0 <= i < s.len() && (#[trigger] s[i]).text == title
}

/// The candidates of `s` whose title no earlier candidate of `s` has, in the
/// order of `s`.
pub open spec fn first_occurrences(s: Seq<CandidateView>) -> Seq<CandidateView>
    decreases s.len(),
{
    if s.len() == 0 {
        Seq::empty()
    } else if has_title(s.drop_last(), s.last().text) {
        first_occurrences(s.drop_last())
    } else {
        first_occurrences(s.drop_last()).push(s.last())
    }
}

/// No two candidates of `s` share a title.
pub open spec fn distinct_titles(s: Seq<CandidateView>) -> bool {
    forall|i: int, j: int| 0 <= i < j < s.len() ==> (#[trigger] s[i]).text != (#[trigger] s[j]).text
}

/// What the deduplicator keeps has the same titles as what it was given,
/// each once.
pub proof fn lemma_first_occurrences(s: Seq<CandidateView>)
    ensures
        distinct_titles(first_occurrences(s)),
        first_occurrences(s).len() <= s.len(),
        forall|t: Seq<char>| has_title(first_occurrences(s), t) <==> has_title(s, t),
        forall|i: int|
            0 <= i < first_occurrences(s).len() ==> s.contains(#[trigger] first_occurrences(s)[i]),
    decreases s.len(),
{
    if s.len() > 0 {
        let init = s.drop_last();
        let last = s.last();
        let kept = first_occurrences(init);
        lemma_first_occurrences(init);
        let out = first_occurrences(s);
        assert forall|t: Seq<char>| has_title(out, t) <==> has_title(s, t) by {
            if has_title(s, t) {
                let i = choose|i: int| 0 <= i < s.len() && (#[trigger] s[i]).text == t;
                if i < s.len() - 1 {
                    assert(init[i].text == t);
                    assert(has_title(init, t));
                    let k = choose|k: int| 0 <= k < kept.len() && (#[trigger] kept[k]).text == t;
                    assert(out[k].text == t);
                } else if has_title(init, last.text) {
                    let k = choose|k: int| 0 <= k < kept.len() && (#[trigger] kept[k]).text == t;
                    assert(out[k].text == t);
                } else {
                    assert(out[out.len() - 1].text == t);
                }
            }
            if has_title(out, t) {
                let k = choose|k: int| 0 <= k < out.len() && (#[trigger] out[k]).text == t;
                if k < kept.len() {
                    assert(kept[k].text == t);
                    assert(has_title(kept, t));
                    let i = choose|i: int| 0 <= i < init.len() && (#[trigger] init[i]).text == t;
                    assert(s[i].text == t);
                } else {
                    assert(s[s.len() - 1].text == t);
                }
            }
        }
        assert forall|i: int| 0 <= i < out.len() implies s.contains(#[trigger] out[i]) by {
            if i < kept.len() {
                assert(init.contains(kept[i]));
                let j = choose|j: int| 0 <= j < init.len() && init[j] == kept[i];
                assert(s[j] == out[i]);
            } else {
                assert(s[s.len() - 1] == out[i]);
            }
        }
        assert forall|i: int, j: int| 0 <= i < j < out.len() implies (#[trigger] out[i]).text != (
        #[trigger] out[j]).text by {
            if j < kept.len() {
                assert(kept[i].text != kept[j].text);
            } else {
                assert(kept[i].text == out[i].text);
                assert(has_title(kept, out[i].text));
            }
        }
    }
}

/// Where no two candidates share a title, nothing is dropped; so
/// deduplicating a second time changes nothing.
pub proof fn lemma_dedupe_is_idempotent(s: Seq<CandidateView>)
    ensures
        distinct_titles(s) ==> first_occurrences(s) == s,
        first_occurrences(first_occurrences(s)) == first_occurrences(s),
{
    if distinct_titles(s) {
        lemma_dedupe_fixes_distinct(s);
    }
    lemma_first_occurrences(s);
    lemma_dedupe_fixes_distinct(first_occurrences(s));
}

proof fn lemma_dedupe_fixes_distinct(s: Seq<CandidateView>)
    requires
        distinct_titles(s),
    ensures
        first_occurrences(s) == s,
    decreases s.len(),
{
    if s.len() > 0 {
        let init = s.drop_last();
        assert(distinct_titles(init)) by {
            assert forall|i: int, j: int| 0 <= i < j < init.len() implies (
            #[trigger] init[i]).text != (#[trigger] init[j]).text by {
                assert(s[i].text != s[j].text);
            }
        }
        lemma_dedupe_fixes_distinct(init);
        assert(!has_title(init, s.last().text)) by {
            if has_title(init, s.last().text) {
                let i = choose|i: int|
                    0 <= i < init.len() && (#[trigger] init[i]).text == s.last().text;
                assert(s[i].text == s[s.len() - 1].text);
            }
        }
        assert(init.push(s.last()) =~= s);
    } else {
        assert(first_occurrences(s) =~= s);
    }
}

fn seen(kept: &Vec<Candidate>, title: &String) -> (r: bool)
    ensures
        r == has_title(kept.deep_view(), title@),
{
    let mut j: usize = 0;
    while j < kept.len()
        invariant
            j <= kept.len(),
            forall|k: int| 0 <= k < j ==> (#[trigger] kept.deep_view()[k]).text != title@,
        decreases kept.len() - j,
    {
        if kept[j].text == *title {
            assert(kept.deep_view()[j as int].text == title@);
            return true;
        }
        j += 1;
    }
    false
}

/// Drops every candidate whose title an earlier candidate has; what stays
/// keeps its order.
pub fn dedupe(candidates: &Vec<Candidate>) -> (kept: Vec<Candidate>)
    ensures
        kept.deep_view() == first_occurrences(candidates.deep_view()),
{
    let mut kept: Vec<Candidate> = Vec::new();
    let mut i: usize = 0;
    assert(candidates.deep_view().take(0) =~= Seq::empty());
    while i < candidates.len()
        invariant
            i <= candidates.len(),
            kept.deep_view() == first_occurrences(candidates.deep_view().take(i as int)),
        decreases candidates.len() - i,
    {
        let c = &candidates[i];
        let ghost before = candidates.deep_view().take(i as int);
        let ghost upto = candidates.deep_view().take(i + 1);
        assert(upto.drop_last() =~= before);
        assert(upto.last() == c.deep_view());
        proof {
            lemma_first_occurrences(before);
        }
        if !seen(&kept, &c.text) {
            let ghost old_kept = kept.deep_view();
            kept.push(Candidate { text: c.text.clone(), left: c.left, top: c.top });
            assert(kept.deep_view() =~= old_kept.push(c.deep_view()));
        }
        i += 1;
    }
    assert(candidates.deep_view().take(i as int) =~= candidates.deep_view());
    kept
}

} // verus!
