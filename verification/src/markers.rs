//! The fixed vocabulary of the page: the phrases that delimit the section of
//! current goals and that mark lines which are never goals.

use vstd::prelude::*;
use crate::chars::{begins_with, chars_of, contains_phrase, has_phrase, matches_at, same_chars, starts_with};

verus! {

/// The word for "goal".
pub open spec fn goal_word() -> Seq<char> {
    "ゴール"@
}

/// The words for "to work on".
pub open spec fn to_work_on_word() -> Seq<char> {
    "やるべき"@
}

/// The compact heading of the section: "goals to work on now".
pub open spec fn compact_heading() -> Seq<char> {
    "今やるべきゴール"@
}

/// The word for "completed".
pub open spec fn completed_word() -> Seq<char> {
    "完了"@
}

/// The word for "archive".
pub open spec fn archive_word() -> Seq<char> {
    "アーカイブ"@
}

/// The word for "habit".
pub open spec fn habit_word() -> Seq<char> {
    "習慣"@
}

/// The word for "results".
pub open spec fn results_word() -> Seq<char> {
    "成果"@
}

/// The words for "goal list".
pub open spec fn goal_list_word() -> Seq<char> {
    "ゴール一覧"@
}

/// The word for "search".
pub open spec fn search_word() -> Seq<char> {
    "検索"@
}

/// A line of the page text opens the section when it holds the word for
/// "goal" and either the words for "to work on" or nothing else.
pub open spec fn is_line_heading(line: Seq<char>) -> bool {
    contains_phrase(line, goal_word()) && (contains_phrase(line, to_work_on_word()) || line
        == goal_word())
}

/// The text of an element opens the section when it holds both the words for
/// "to work on" and the word for "goal", or is the compact heading itself.
pub open spec fn is_element_heading(text: Seq<char>) -> bool {
    (contains_phrase(text, to_work_on_word()) && contains_phrase(text, goal_word())) || text
        == compact_heading()
}

/// A line closes the section when it begins with the word for "completed",
/// "archive", "habit", "results" or "goal list".
pub open spec fn is_line_closing(line: Seq<char>) -> bool {
    ||| starts_with(line, completed_word())
    ||| starts_with(line, archive_word())
    ||| starts_with(line, habit_word())
    ||| starts_with(line, results_word())
    ||| starts_with(line, goal_list_word())
}

/// The text of an element closes the section when it holds the word for
/// "completed", "archive", "habit" or "results".
pub open spec fn is_element_closing(text: Seq<char>) -> bool {
    ||| contains_phrase(text, completed_word())
    ||| contains_phrase(text, archive_word())
    ||| contains_phrase(text, habit_word())
    ||| contains_phrase(text, results_word())
}

/// Whether the line `line` opens the section.
pub fn line_heading(line: &[char]) -> (r: bool)
    ensures
        r == is_line_heading(line@),
{
    let goal = chars_of("ゴール");
    let to_work_on = chars_of("やるべき");
    has_phrase(line, goal.as_slice()) && (has_phrase(line, to_work_on.as_slice()) || same_chars(
        line,
        goal.as_slice(),
    ))
}

/// Whether the text `text` of an element opens the section.
pub fn element_heading(text: &[char]) -> (r: bool)
    ensures
        r == is_element_heading(text@),
{
    let goal = chars_of("ゴール");
    let to_work_on = chars_of("やるべき");
    let compact = chars_of("今やるべきゴール");
    (has_phrase(text, to_work_on.as_slice()) && has_phrase(text, goal.as_slice())) || same_chars(
        text,
        compact.as_slice(),
    )
}

/// Whether the line `line` closes the section.
pub fn line_closing(line: &[char]) -> (r: bool)
    ensures
        r == is_line_closing(line@),
{
    let completed = chars_of("完了");
    let archive = chars_of("アーカイブ");
    let habit = chars_of("習慣");
    let results = chars_of("成果");
    let goal_list = chars_of("ゴール一覧");
    begins_with(line, completed.as_slice()) || begins_with(line, archive.as_slice())
        || begins_with(line, habit.as_slice()) || begins_with(line, results.as_slice())
        || begins_with(line, goal_list.as_slice())
}

/// Whether the text `text` of an element closes the section.
pub fn element_closing(text: &[char]) -> (r: bool)
    ensures
        r == is_element_closing(text@),
{
    let completed = chars_of("完了");
    let archive = chars_of("アーカイブ");
    let habit = chars_of("習慣");
    let results = chars_of("成果");
    has_phrase(text, completed.as_slice()) || has_phrase(text, archive.as_slice()) || has_phrase(
        text,
        habit.as_slice(),
    ) || has_phrase(text, results.as_slice())
}

/// The compact heading holds both of the words that make an element a
/// heading, so the second way of being a heading adds nothing to the first.
pub proof fn lemma_compact_heading_holds_both_words()
    ensures
        contains_phrase(compact_heading(), to_work_on_word()),
        contains_phrase(compact_heading(), goal_word()),
        forall|text: Seq<char>|
            is_element_heading(text) <==> contains_phrase(text, to_work_on_word())
                && contains_phrase(text, goal_word()),
{
    reveal_strlit("ゴール");
    reveal_strlit("やるべき");
    reveal_strlit("今やるべきゴール");
    assert(matches_at(compact_heading(), 1, to_work_on_word())) by {
        assert(compact_heading().subrange(1, 5) =~= to_work_on_word());
    }
    assert(matches_at(compact_heading(), 5, goal_word())) by {
        assert(compact_heading().subrange(5, 8) =~= goal_word());
    }
}

} // verus!
