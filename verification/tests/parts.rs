use goal_extract::chars::{
    begins_with, char_is_bullet, char_is_digit, char_is_space, char_is_tilde, chars_of,
    has_phrase, phrase_at, same_text, split, string_of, trim,
};
use goal_extract::dedupe::dedupe;
use goal_extract::filter::{date_like, search_box};
use goal_extract::hierarchy::{build_flat, build_hierarchy, sort_by_top};
use goal_extract::ident::make_id;
use goal_extract::markers::{element_closing, element_heading, line_closing, line_heading};
use goal_extract::model::{Candidate, Goal};
use goal_extract::normalize::find_date_stamp;
use goal_extract::window::{toggle_action, WindowAction};

fn text(v: &[char]) -> String {
    v.iter().collect()
}

fn candidate(title: &str, left: i32, top: i32) -> Candidate {
    Candidate { text: title.to_string(), left, top }
}

fn titles(goals: &[Goal]) -> Vec<&str> {
    goals.iter().map(|g| g.title.as_str()).collect()
}

#[test]
fn chars_and_strings_convert_both_ways() {
    let v = chars_of("▶ Study");
    assert_eq!(v.len(), 7);
    assert_eq!(string_of(&v, 2, 7), "Study");
    assert_eq!(string_of(&v, 0, 0), "");
    assert_eq!(string_of(&v, 0, 7), "▶ Study");
}

#[test]
fn character_classes() {
    for c in ['\t', '\n', '\u{0B}', '\u{0C}', '\r', ' ', '\u{A0}', '\u{1680}', '\u{2000}',
        '\u{2005}', '\u{200A}', '\u{2028}', '\u{2029}', '\u{202F}', '\u{205F}', '\u{3000}',
        '\u{FEFF}']
    {
        assert!(char_is_space(c), "{:?}", c);
    }
    for c in ['a', '0', '\u{200B}', '\u{1FFF}', '\u{85}', '_'] {
        assert!(!char_is_space(c), "{:?}", c);
    }
    assert!(char_is_digit('0') && char_is_digit('9') && !char_is_digit('/') && !char_is_digit(':'));
    assert!(!char_is_digit('٣'));
    assert!(char_is_tilde('~') && char_is_tilde('〜') && !char_is_tilde('～') && !char_is_tilde('-'));
    for c in ['▶', '▷', '►', '▸', '△', '▲', '↻', '◉', '○', '●', '◎', '■', '□'] {
        assert!(char_is_bullet(c), "{:?}", c);
    }
    for c in ['•', '-', '*', '◆', '▼', ' '] {
        assert!(!char_is_bullet(c), "{:?}", c);
    }
}

#[test]
fn trim_drops_white_space_at_both_ends_only() {
    assert_eq!(text(&trim(&chars_of("  a b \t\n"))), "a b");
    assert_eq!(text(&trim(&chars_of("a"))), "a");
    assert_eq!(text(&trim(&chars_of(" \u{3000} "))), "");
    assert_eq!(text(&trim(&chars_of(""))), "");
}

#[test]
fn split_keeps_empty_pieces() {
    let parts: Vec<String> = split(&chars_of("a,,b,"), ',').iter().map(|p| text(p)).collect();
    assert_eq!(parts, vec!["a", "", "b", ""]);
    let parts: Vec<String> = split(&chars_of(""), ',').iter().map(|p| text(p)).collect();
    assert_eq!(parts, vec![""]);
    let parts: Vec<String> = split(&chars_of("abc"), ',').iter().map(|p| text(p)).collect();
    assert_eq!(parts, vec!["abc"]);
}

#[test]
fn phrases_are_found_where_they_stand() {
    let v = chars_of("今やるべきゴール");
    assert!(phrase_at(&v, 5, &chars_of("ゴール")));
    assert!(!phrase_at(&v, 4, &chars_of("ゴール")));
    assert!(!phrase_at(&v, 6, &chars_of("ゴール")));
    assert!(phrase_at(&v, 8, &chars_of("")));
    assert!(has_phrase(&v, &chars_of("やるべき")));
    assert!(has_phrase(&v, &chars_of("")));
    assert!(!has_phrase(&v, &chars_of("ゴールド")));
    assert!(begins_with(&v, &chars_of("今")));
    assert!(!begins_with(&v, &chars_of("やる")));
    assert!(!begins_with(&chars_of("ab"), &chars_of("abc")));
    assert!(same_text("完了", "完了") && !same_text("完了", "完") && !same_text("a", "b"));
}

#[test]
fn headings_and_closing_words() {
    assert!(line_heading(&chars_of("今やるべきゴール")));
    assert!(line_heading(&chars_of("ゴール")));
    assert!(line_heading(&chars_of("ゴール: やるべきこと")));
    assert!(!line_heading(&chars_of("ゴール一覧")));
    assert!(!line_heading(&chars_of("やるべき")));
    assert!(element_heading(&chars_of("今やるべきゴール")));
    assert!(element_heading(&chars_of("ゴール (やるべき)")));
    assert!(!element_heading(&chars_of("ゴール")));
    assert!(line_closing(&chars_of("完了したゴール")));
    assert!(line_closing(&chars_of("ゴール一覧")));
    assert!(!line_closing(&chars_of("未完了")));
    assert!(element_closing(&chars_of("未完了")));
    assert!(element_closing(&chars_of("過去のアーカイブ")));
    assert!(!element_closing(&chars_of("ゴール一覧")));
}

#[test]
fn dates_and_search_boxes() {
    assert!(date_like(&chars_of("~3/25")));
    assert!(date_like(&chars_of("〜  3")));
    assert!(date_like(&chars_of("3/5")));
    assert!(date_like(&chars_of("12/31 party")));
    assert!(!date_like(&chars_of("~ soon")));
    assert!(!date_like(&chars_of("~")));
    assert!(!date_like(&chars_of("123/4")));
    assert!(!date_like(&chars_of("1/")));
    assert!(!date_like(&chars_of("Do 3/5")));
    assert!(search_box(&chars_of("検索")));
    assert!(search_box(&chars_of("Q\u{3000}x")));
    assert!(!search_box(&chars_of("Q")));
    assert!(!search_box(&chars_of("Query")));
}

#[test]
fn date_stamp_is_found_at_its_leftmost_start() {
    assert_eq!(find_date_stamp(&chars_of("Plan ~3/25 14:30")), 4);
    assert_eq!(find_date_stamp(&chars_of("Plan   3/25   14:30  ")), 4);
    assert_eq!(find_date_stamp(&chars_of("Plan")), 4);
    assert_eq!(find_date_stamp(&chars_of("")), 0);
    assert_eq!(find_date_stamp(&chars_of("Plan ~ 03/05 00:00")), 4);
    assert_eq!(find_date_stamp(&chars_of("Plan ~3/25 14:3")), 15);
    assert_eq!(find_date_stamp(&chars_of("Plan ~3/25 14:30x")), 17);
    assert_eq!(find_date_stamp(&chars_of("Plan ~3/2514:30")), 15);
    assert_eq!(find_date_stamp(&chars_of("Plan ~~3/25 14:30")), 6);
}

#[test]
fn identifiers_are_prefix_and_position() {
    assert_eq!(make_id(0), "addness-0");
    assert_eq!(make_id(9), "addness-9");
    assert_eq!(make_id(10), "addness-10");
    assert_eq!(make_id(1234567890), "addness-1234567890");
}

#[test]
fn dedupe_keeps_first_occurrences_in_order() {
    let kept = dedupe(&vec![
        candidate("b", 1, 1),
        candidate("a", 2, 2),
        candidate("b", 3, 3),
        candidate("c", 4, 4),
        candidate("a", 5, 5),
    ]);
    assert_eq!(kept, vec![candidate("b", 1, 1), candidate("a", 2, 2), candidate("c", 4, 4)]);
    assert_eq!(dedupe(&vec![]), vec![]);
}

#[test]
fn sort_is_stable() {
    let sorted = sort_by_top(&vec![
        candidate("c", 0, 30),
        candidate("a1", 0, 10),
        candidate("b", 0, 20),
        candidate("a2", 0, 10),
        candidate("z", 0, -5),
        candidate("a3", 0, 10),
    ]);
    let order: Vec<&str> = sorted.iter().map(|c| c.text.as_str()).collect();
    assert_eq!(order, vec!["z", "a1", "a2", "a3", "b", "c"]);
}

#[test]
fn hierarchy_of_nothing_is_nothing() {
    assert_eq!(build_hierarchy(&vec![]), vec![]);
    assert_eq!(build_flat(&vec![]), vec![]);
}

#[test]
fn hierarchy_measures_indent_from_the_leftmost_candidate() {
    let goals = build_hierarchy(&vec![
        candidate("top", 100 * 64, 0),
        candidate("child", 116 * 64, 10),
        candidate("leftmost", 90 * 64, 20),
        candidate("edge", 105 * 64, 30),
    ]);
    assert_eq!(titles(&goals), vec!["top", "child", "leftmost", "edge"]);
    let parents: Vec<Option<&str>> = goals.iter().map(|g| g.parent_id.as_deref()).collect();
    assert_eq!(parents, vec![None, Some("addness-0"), None, None]);
}

#[test]
fn hierarchy_with_extreme_edges_does_not_overflow() {
    let goals = build_hierarchy(&vec![
        candidate("far left", i32::MIN, i32::MAX),
        candidate("far right", i32::MAX, i32::MIN),
    ]);
    assert_eq!(titles(&goals), vec!["far right", "far left"]);
    assert_eq!(goals[0].parent_id, None);
    assert_eq!(goals[1].parent_id, None);
}

#[test]
fn flat_goals_have_no_parents() {
    let goals = build_flat(&vec![candidate("x", 5000, 9), candidate("y", 0, 1)]);
    assert_eq!(titles(&goals), vec!["x", "y"]);
    assert!(goals.iter().all(|g| g.parent_id.is_none() && !g.completed));
    assert_eq!(goals[1].id, "addness-1");
}

#[test]
fn toggle_hides_only_a_window_known_to_be_visible() {
    assert_eq!(toggle_action(Some(true)), WindowAction::Hide);
    assert_eq!(toggle_action(Some(false)), WindowAction::ShowAndFocus);
    assert_eq!(toggle_action(None), WindowAction::ShowAndFocus);
}
