use goal_extract::emit::{address_for, emit, encode_goals};
use goal_extract::model::Goal;

fn goal(id: &str, title: &str, completed: bool, parent: Option<&str>) -> Goal {
    Goal {
        id: id.to_string(),
        title: title.to_string(),
        completed,
        parent_id: parent.map(|p| p.to_string()),
    }
}

#[test]
fn no_goals_encode_as_the_empty_array() {
    assert_eq!(encode_goals(&vec![]), "[]");
}

#[test]
fn one_goal_encodes_with_all_four_keys_in_order() {
    let goals = vec![goal("addness-0", "Write spec", false, None)];
    assert_eq!(
        encode_goals(&goals),
        "[{\"id\":\"addness-0\",\"title\":\"Write spec\",\"completed\":false,\"parentId\":null}]"
    );
}

#[test]
fn goals_are_separated_by_commas_and_parents_are_strings() {
    let goals = vec![
        goal("addness-0", "Parent", false, None),
        goal("addness-1", "Child", true, Some("addness-0")),
    ];
    assert_eq!(
        encode_goals(&goals),
        "[{\"id\":\"addness-0\",\"title\":\"Parent\",\"completed\":false,\"parentId\":null},\
         {\"id\":\"addness-1\",\"title\":\"Child\",\"completed\":true,\"parentId\":\"addness-0\"}]"
    );
}

#[test]
fn quotes_and_reverse_solidus_are_escaped() {
    let goals = vec![goal("a", "say \"hi\" \\ bye", false, None)];
    assert_eq!(
        encode_goals(&goals),
        "[{\"id\":\"a\",\"title\":\"say \\\"hi\\\" \\\\ bye\",\"completed\":false,\"parentId\":null}]"
    );
}

#[test]
fn control_characters_are_escaped() {
    let goals = vec![goal("a", "x\u{08}\u{0C}\n\r\t\u{01}\u{1f}\u{7f}y", false, None)];
    assert_eq!(
        encode_goals(&goals),
        "[{\"id\":\"a\",\"title\":\"x\\b\\f\\n\\r\\t\\u0001\\u001f\u{7f}y\",\"completed\":false,\"parentId\":null}]"
    );
}

#[test]
fn other_characters_stay_as_they_are_in_the_payload() {
    let goals = vec![goal("a", "ゴール/é", false, None)];
    assert_eq!(
        encode_goals(&goals),
        "[{\"id\":\"a\",\"title\":\"ゴール/é\",\"completed\":false,\"parentId\":null}]"
    );
}

#[test]
fn empty_payload_travels_as_escaped_brackets() {
    assert_eq!(address_for("[]"), "http://localhost:19837?data=%5B%5D");
    assert_eq!(emit(&vec![]), "http://localhost:19837?data=%5B%5D");
}

#[test]
fn unreserved_characters_are_not_escaped() {
    assert_eq!(
        address_for("AZaz09-_.!~*'()"),
        "http://localhost:19837?data=AZaz09-_.!~*'()"
    );
}

#[test]
fn reserved_characters_are_escaped_in_upper_case() {
    assert_eq!(
        address_for(" \"{}:,/?#&=+%@[]"),
        "http://localhost:19837?data=%20%22%7B%7D%3A%2C%2F%3F%23%26%3D%2B%25%40%5B%5D"
    );
}

#[test]
fn other_scripts_are_escaped_byte_by_byte() {
    assert_eq!(address_for("ゴ"), "http://localhost:19837?data=%E3%82%B4");
    assert_eq!(address_for("é"), "http://localhost:19837?data=%C3%A9");
    assert_eq!(address_for("👾"), "http://localhost:19837?data=%F0%9F%91%BE");
}

#[test]
fn one_goal_is_emitted_as_one_address() {
    let goals = vec![goal("addness-0", "Write spec", false, None)];
    assert_eq!(
        emit(&goals),
        "http://localhost:19837?data=%5B%7B%22id%22%3A%22addness-0%22%2C%22title%22%3A%22Write%20spec%22%2C%22completed%22%3Afalse%2C%22parentId%22%3Anull%7D%5D"
    );
}
