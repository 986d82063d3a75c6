use goal_extract::model::{Frame, RawUnit};
use goal_extract::strategy::PageSnapshot;
use goal_extract::wire::{parse_length, parse_page};

#[test]
fn lengths_have_one_to_nine_digits() {
    assert_eq!(parse_length("0"), Some(0));
    assert_eq!(parse_length("50"), Some(50));
    assert_eq!(parse_length("007"), Some(7));
    assert_eq!(parse_length("999999999"), Some(999_999_999));
    assert_eq!(parse_length("1000000000"), None);
    assert_eq!(parse_length(""), None);
    assert_eq!(parse_length("-5"), None);
    assert_eq!(parse_length("5 "), None);
    assert_eq!(parse_length("٣"), None);
}

#[test]
fn page_without_elements_is_its_text() {
    assert_eq!(
        parse_page("just text\nmore"),
        Some(PageSnapshot { text: "just text\nmore".to_string(), units: vec![] })
    );
    assert_eq!(parse_page(""), Some(PageSnapshot { text: String::new(), units: vec![] }));
}

#[test]
fn elements_follow_the_text() {
    let report = "T\u{1E}1\u{1F}2\u{1F}3\u{1F}4\u{1F}first\u{1E}-10\u{1F}-999999999\u{1F}0\u{1F}5\u{1F}今やるべきゴール";
    assert_eq!(
        parse_page(report),
        Some(PageSnapshot {
            text: "T".to_string(),
            units: vec![
                RawUnit {
                    text: "first".to_string(),
                    frame: Some(Frame { left: 1, top: 2, width: 3, height: 4 }),
                },
                RawUnit {
                    text: "今やるべきゴール".to_string(),
                    frame: Some(Frame { left: -10, top: -999_999_999, width: 0, height: 5 }),
                },
            ],
        })
    );
}

#[test]
fn element_with_too_few_or_too_many_parts_spoils_the_page() {
    assert_eq!(parse_page("T\u{1E}1\u{1F}2\u{1F}3\u{1F}4"), None);
    assert_eq!(parse_page("T\u{1E}1\u{1F}2\u{1F}3\u{1F}4\u{1F}a\u{1F}b"), None);
    assert_eq!(parse_page("T\u{1E}"), None);
}

#[test]
fn element_with_a_bad_number_spoils_the_page() {
    assert_eq!(parse_page("T\u{1E}1.5\u{1F}2\u{1F}3\u{1F}4\u{1F}a"), None);
    assert_eq!(parse_page("T\u{1E}1\u{1F}--2\u{1F}3\u{1F}4\u{1F}a"), None);
    assert_eq!(parse_page("T\u{1E}1\u{1F}2\u{1F}\u{1F}4\u{1F}a"), None);
    assert_eq!(parse_page("T\u{1E}1\u{1F}2\u{1F}3\u{1F}1234567890\u{1F}a"), None);
    assert_eq!(parse_page("T\u{1E}1\u{1F}2\u{1F}3\u{1F}-\u{1F}a"), None);
}
