use goal_extract::filter::is_candidate;
use goal_extract::model::{Frame, Goal, RawUnit, Strategy};
use goal_extract::section::{find_section_bounds, SectionBounds};
use goal_extract::strategy::{
    advance, extract, extract_from_layout, extract_from_text, extract_goals, split_lines,
    PageSnapshot, SelectorState,
};

fn line(text: &str) -> RawUnit {
    RawUnit { text: text.to_string(), frame: None }
}

/// An element whose frame is given in whole layout units.
fn element(text: &str, left: i32, top: i32, width: i32, height: i32) -> RawUnit {
    let frame = Frame { left: left * 64, top: top * 64, width: width * 64, height: height * 64 };
    RawUnit { text: text.to_string(), frame: Some(frame) }
}

/// An element whose frame is given in parts of a layout unit.
fn fine_element(text: &str, left: i32, top: i32, width: i32, height: i32) -> RawUnit {
    RawUnit { text: text.to_string(), frame: Some(Frame { left, top, width, height }) }
}

fn goal(id: &str, title: &str, parent: Option<&str>) -> Goal {
    Goal {
        id: id.to_string(),
        title: title.to_string(),
        completed: false,
        parent_id: parent.map(|p| p.to_string()),
    }
}

#[test]
fn end_to_end_text_scenario() {
    let text = "今やるべきゴール\n▶ Write spec ~3/20 10:00\nWrite spec\n完了";
    let goals = extract_from_text(text);
    assert_eq!(goals, vec![goal("addness-0", "Write spec", None)]);
}

#[test]
fn text_section_bounds_exclude_heading_and_closing_line() {
    let units = vec![
        line("今やるべきゴール"),
        line("▶ Write spec ~3/20 10:00"),
        line("Write spec"),
        line("完了"),
    ];
    assert_eq!(
        find_section_bounds(&units, Strategy::PlainText),
        Some(SectionBounds::Lines { start: 1, end: 3 })
    );
}

#[test]
fn text_without_heading_has_no_section() {
    let units = vec![line("Write spec"), line("完了")];
    assert_eq!(find_section_bounds(&units, Strategy::PlainText), None);
    assert_eq!(extract_from_text("Write spec\n完了"), vec![]);
}

#[test]
fn text_section_without_closing_line_runs_to_the_end() {
    let units = vec![line("intro"), line("ゴール"), line("First goal"), line("Second goal")];
    assert_eq!(
        find_section_bounds(&units, Strategy::PlainText),
        Some(SectionBounds::Lines { start: 2, end: 4 })
    );
}

#[test]
fn closing_line_before_the_heading_is_ignored() {
    let goals = extract_from_text("完了\n今やるべきゴール\nShip it now\n成果 reports\nLater");
    assert_eq!(goals, vec![goal("addness-0", "Ship it now", None)]);
}

#[test]
fn every_closing_word_closes_the_text_section() {
    for word in ["完了", "アーカイブ", "習慣", "成果", "ゴール一覧"] {
        let text = format!("今やるべきゴール\nKeep this\n{}した\nDrop this", word);
        assert_eq!(extract_from_text(&text), vec![goal("addness-0", "Keep this", None)]);
    }
}

#[test]
fn pure_date_range_is_never_a_goal() {
    assert!(!is_candidate(&line("~3/25"), Strategy::PlainText));
    assert!(!is_candidate(&line("〜 3/25 10:00"), Strategy::PlainText));
    assert!(!is_candidate(&line("3/25 meeting"), Strategy::PlainText));
    assert!(!is_candidate(&line("12/5 meeting"), Strategy::PlainText));
    let goals = extract_from_text("今やるべきゴール\n~3/25\nReal goal");
    assert_eq!(goals, vec![goal("addness-0", "Real goal", None)]);
}

#[test]
fn line_of_three_characters_is_never_a_goal() {
    assert!(!is_candidate(&line("abc"), Strategy::PlainText));
    assert!(is_candidate(&line("abcd"), Strategy::PlainText));
    assert!(!is_candidate(&line("  abc  "), Strategy::PlainText));
    let goals = extract_from_text("今やるべきゴール\nabc\nabcd");
    assert_eq!(goals, vec![goal("addness-0", "abcd", None)]);
}

#[test]
fn element_needs_three_characters() {
    assert!(!is_candidate(&element("ab", 0, 0, 10, 10), Strategy::Geometry));
    assert!(is_candidate(&element("abc", 0, 0, 10, 10), Strategy::Geometry));
}

#[test]
fn element_that_is_not_rendered_is_rejected() {
    assert!(!is_candidate(&element("Visible goal", 0, 0, 0, 10), Strategy::Geometry));
    assert!(!is_candidate(&element("Visible goal", 0, 0, 10, 0), Strategy::Geometry));
    assert!(!is_candidate(&element("Visible goal", 0, 0, -5, 10), Strategy::Geometry));
    assert!(is_candidate(&fine_element("Visible goal", 0, 0, 1, 1), Strategy::Geometry));
    assert!(!is_candidate(&line("Visible goal"), Strategy::Geometry));
    assert!(is_candidate(&element("Visible goal", 0, 0, 1, 1), Strategy::Geometry));
}

#[test]
fn search_box_is_rejected() {
    assert!(!is_candidate(&line("検索する"), Strategy::PlainText));
    assert!(!is_candidate(&line("Q search"), Strategy::PlainText));
    assert!(is_candidate(&line("Quit smoking"), Strategy::PlainText));
    assert!(!is_candidate(&element("Q search", 0, 0, 10, 10), Strategy::Geometry));
}

#[test]
fn heading_line_inside_the_section_is_no_goal() {
    let goals = extract_from_text("今やるべきゴール\nFirst goal\nやるべきゴール\nSecond goal");
    assert_eq!(
        goals,
        vec![goal("addness-0", "First goal", None), goal("addness-1", "Second goal", None)]
    );
}

#[test]
fn title_shorter_than_two_characters_is_dropped() {
    let goals = extract_from_text("今やるべきゴール\n▶ ▶ x\n▶ ▶ xy");
    assert_eq!(goals, vec![goal("addness-0", "xy", None)]);
}

#[test]
fn duplicate_titles_keep_the_first_place() {
    let goals = extract_from_text("ゴール\nAlpha goal\nBeta goal\n● Alpha goal\nGamma goal");
    assert_eq!(
        goals,
        vec![
            goal("addness-0", "Alpha goal", None),
            goal("addness-1", "Beta goal", None),
            goal("addness-2", "Gamma goal", None),
        ]
    );
}

#[test]
fn titles_are_compared_case_sensitively() {
    let goals = extract_from_text("ゴール\nAlpha goal\nalpha goal");
    assert_eq!(goals.len(), 2);
}

#[test]
fn lines_are_trimmed_and_empty_lines_dropped() {
    let lines = split_lines("  one \n\n\t\ntwo\r\n three");
    let lines: Vec<String> = lines.iter().map(|l| l.iter().collect()).collect();
    assert_eq!(lines, vec!["one", "two", "three"]);
    assert_eq!(split_lines("").len(), 0);
    assert_eq!(split_lines("\n\n").len(), 0);
}

#[test]
fn ids_count_past_nine() {
    let mut text = String::from("ゴール\n");
    for i in 0..12 {
        text.push_str(&format!("Goal number {}\n", i));
    }
    let goals = extract_from_text(&text);
    assert_eq!(goals.len(), 12);
    assert_eq!(goals[9].id, "addness-9");
    assert_eq!(goals[10].id, "addness-10");
    assert_eq!(goals[11].id, "addness-11");
}

fn sample_layout() -> Vec<RawUnit> {
    vec![
        element("Sidebar item", 0, 0, 100, 20),
        element("今やるべきゴール", 10, 100, 200, 30),
        element("▶ Project A ~3/20 10:00", 10, 140, 200, 20),
        element("Task A1", 40, 170, 200, 20),
        element("Task A2", 40, 200, 200, 20),
        element("Project B", 12, 230, 200, 20),
        element("Task B1", 40, 260, 200, 20),
        element("完了したゴール", 10, 300, 200, 30),
        element("Old goal", 10, 340, 200, 20),
    ]
}

#[test]
fn layout_builds_a_two_level_hierarchy() {
    let goals = extract_from_layout(&sample_layout());
    assert_eq!(
        goals,
        vec![
            goal("addness-0", "Project A", None),
            goal("addness-1", "Task A1", Some("addness-0")),
            goal("addness-2", "Task A2", Some("addness-0")),
            goal("addness-3", "Project B", None),
            goal("addness-4", "Task B1", Some("addness-3")),
        ]
    );
}

#[test]
fn layout_section_bounds_are_edges() {
    assert_eq!(
        find_section_bounds(&sample_layout(), Strategy::Geometry),
        Some(SectionBounds::Band { top: 130 * 64, bottom: Some(300 * 64) })
    );
}

#[test]
fn layout_bottom_is_the_nearest_closing_element() {
    let units = vec![
        element("やるべき ゴール", 0, 0, 100, 10),
        element("成果を見る", 0, 500, 100, 10),
        element("習慣リスト", 0, 200, 100, 10),
        element("完了", 0, 5, 100, 10),
    ];
    assert_eq!(
        find_section_bounds(&units, Strategy::Geometry),
        Some(SectionBounds::Band { top: 10 * 64, bottom: Some(200 * 64) })
    );
}

#[test]
fn layout_without_closing_element_has_no_bottom() {
    let units = vec![element("今やるべきゴール", 0, 0, 100, 10), element("A goal", 0, 20, 10, 10)];
    assert_eq!(
        find_section_bounds(&units, Strategy::Geometry),
        Some(SectionBounds::Band { top: 10 * 64, bottom: None })
    );
}

#[test]
fn layout_heading_that_is_not_rendered_opens_nothing() {
    let units = vec![element("今やるべきゴール", 0, 0, 0, 0), element("A goal", 0, 20, 10, 10)];
    assert_eq!(find_section_bounds(&units, Strategy::Geometry), None);
    assert_eq!(extract_from_layout(&units), vec![]);
}

#[test]
fn layout_sorts_by_top_and_keeps_ties_in_order() {
    let units = vec![
        element("今やるべきゴール", 0, 0, 100, 10),
        element("Third", 0, 50, 100, 10),
        element("First", 0, 20, 100, 10),
        element("Second", 0, 20, 100, 10),
    ];
    let goals = extract_from_layout(&units);
    let titles: Vec<&str> = goals.iter().map(|g| g.title.as_str()).collect();
    assert_eq!(titles, vec!["First", "Second", "Third"]);
    let ids: Vec<&str> = goals.iter().map(|g| g.id.as_str()).collect();
    assert_eq!(ids, vec!["addness-0", "addness-1", "addness-2"]);
}

#[test]
fn indent_of_exactly_the_threshold_is_top_level() {
    let units = vec![
        element("今やるべきゴール", 0, 0, 100, 10),
        element("Parent", 10, 20, 100, 10),
        element("Same level", 25, 40, 100, 10),
        element("Child", 26, 60, 100, 10),
    ];
    let goals = extract_from_layout(&units);
    assert_eq!(
        goals,
        vec![
            goal("addness-0", "Parent", None),
            goal("addness-1", "Same level", None),
            goal("addness-2", "Child", Some("addness-1")),
        ]
    );
}

#[test]
fn child_before_any_top_level_goal_is_an_orphan() {
    let units = vec![
        element("今やるべきゴール", 0, 0, 100, 10),
        element("Early child", 60, 20, 100, 10),
        element("Parent", 10, 40, 100, 10),
        element("Late child", 60, 60, 100, 10),
    ];
    let goals = extract_from_layout(&units);
    assert_eq!(
        goals,
        vec![
            goal("addness-0", "Early child", None),
            goal("addness-1", "Parent", None),
            goal("addness-2", "Late child", Some("addness-1")),
        ]
    );
}

#[test]
fn layout_drops_duplicates_before_sorting() {
    let units = vec![
        element("今やるべきゴール", 0, 0, 100, 10),
        element("Same title", 0, 60, 100, 10),
        element("Same title", 0, 20, 100, 10),
        element("Other title", 0, 40, 100, 10),
    ];
    let goals = extract_from_layout(&units);
    assert_eq!(
        goals,
        vec![goal("addness-0", "Other title", None), goal("addness-1", "Same title", None)]
    );
}

#[test]
fn selector_prefers_geometry() {
    let page = PageSnapshot {
        text: "今やるべきゴール\nFrom text".to_string(),
        units: sample_layout(),
    };
    let goals = extract_goals(&page);
    assert_eq!(goals.len(), 5);
    assert_eq!(goals, extract(Strategy::Geometry, &page));
}

#[test]
fn selector_falls_back_on_text() {
    let page = PageSnapshot {
        text: "今やるべきゴール\nFrom text".to_string(),
        units: vec![element("No heading here", 0, 0, 10, 10)],
    };
    assert_eq!(extract_goals(&page), vec![goal("addness-0", "From text", None)]);
}

#[test]
fn selector_hands_out_an_empty_text_result() {
    let page = PageSnapshot { text: "nothing to see".to_string(), units: vec![] };
    assert_eq!(extract_goals(&page), vec![]);
}

#[test]
fn selector_states_follow_in_line() {
    assert_eq!(advance(SelectorState::TryGeometry, 3), SelectorState::Done);
    assert_eq!(advance(SelectorState::TryGeometry, 0), SelectorState::TryPlainText);
    assert_eq!(advance(SelectorState::TryPlainText, 0), SelectorState::Done);
    assert_eq!(advance(SelectorState::TryPlainText, 2), SelectorState::Done);
    assert_eq!(advance(SelectorState::Done, 0), SelectorState::Done);
}

#[test]
fn extraction_is_repeatable() {
    let page = PageSnapshot {
        text: "今やるべきゴール\nFrom text".to_string(),
        units: sample_layout(),
    };
    assert_eq!(extract_goals(&page), extract_goals(&page));
}

fn busy_page() -> PageSnapshot {
    let mut units = vec![element("今やるべきゴール", 20, 0, 300, 24)];
    let rows = [
        ("● Launch site ~4/1 09:00", 20, 40),
        ("Write copy", 48, 60),
        ("Write copy", 48, 80),
        ("○ Design logo", 48, 100),
        ("~4/2", 48, 110),
        ("Hire team", 22, 120),
        ("□ Post ad 4/3 12:00", 60, 140),
        ("Launch site", 20, 160),
        ("Q search", 20, 170),
        ("x", 20, 180),
        ("Interview", 36, 200),
    ];
    for (text, left, top) in rows {
        units.push(element(text, left, top, 200, 18));
    }
    units.push(element("完了 (3)", 20, 400, 300, 24));
    units.push(element("Old stuff", 20, 430, 300, 24));
    PageSnapshot { text: String::new(), units }
}

#[test]
fn titles_are_unique_in_a_busy_result() {
    let goals = extract_goals(&busy_page());
    let titles: Vec<&str> = goals.iter().map(|g| g.title.as_str()).collect();
    assert_eq!(
        titles,
        vec!["Launch site", "Write copy", "Design logo", "Hire team", "Post ad", "Interview"]
    );
    for i in 0..goals.len() {
        for j in 0..i {
            assert_ne!(goals[i].title, goals[j].title);
        }
        assert!(goals[i].title.chars().count() >= 2);
        assert!(!goals[i].completed);
        assert_eq!(goals[i].id, format!("addness-{}", i));
    }
}

#[test]
fn parents_come_first_and_have_no_parent() {
    let goals = extract_goals(&busy_page());
    let parents: Vec<Option<&str>> = goals.iter().map(|g| g.parent_id.as_deref()).collect();
    assert_eq!(
        parents,
        vec![None, Some("addness-0"), Some("addness-0"), None, Some("addness-3"), Some("addness-3")]
    );
    for (i, goal) in goals.iter().enumerate() {
        if let Some(parent) = &goal.parent_id {
            let at = goals.iter().position(|g| &g.id == parent);
            assert!(matches!(at, Some(j) if j < i && goals[j].parent_id.is_none()));
        }
    }
}

#[test]
fn indent_is_measured_in_parts_of_a_layout_unit() {
    let units = vec![
        fine_element("今やるべきゴール", 0, 0, 6400, 640),
        fine_element("Parent", 640, 1280, 6400, 640),
        fine_element("Fifteen units", 640 + 15 * 64, 2560, 6400, 640),
        fine_element("A little more", 640 + 15 * 64 + 6, 3840, 6400, 640),
    ];
    let goals = extract_from_layout(&units);
    assert_eq!(
        goals,
        vec![
            goal("addness-0", "Parent", None),
            goal("addness-1", "Fifteen units", None),
            goal("addness-2", "A little more", Some("addness-1")),
        ]
    );
}
