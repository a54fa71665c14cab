use label_wires::utils::json::same_text;
use label_wires::utils::json::JsonObject;

fn sample() -> JsonObject {
    JsonObject {
        members: vec![
            ("a".to_string(), Some("first".to_string())),
            ("b".to_string(), None),
            ("a".to_string(), Some("second".to_string())),
            ("".to_string(), Some("unnamed".to_string())),
        ],
    }
}

#[test]
fn get_finds_the_first_member_of_a_name() {
    let object = sample();
    assert_eq!(object.get("a"), Some(&Some("first".to_string())));
    assert_eq!(object.get("b"), Some(&None));
    assert_eq!(object.get(""), Some(&Some("unnamed".to_string())));
    assert_eq!(object.get("c"), None);
}

#[test]
fn get_text_wants_a_text() {
    let object = sample();
    assert_eq!(object.get_text("a"), Some(&"first".to_string()));
    assert_eq!(object.get_text("b"), None);
    assert_eq!(object.get_text("c"), None);
}

#[test]
fn get_on_an_empty_object_finds_nothing() {
    let object = JsonObject { members: vec![] };
    assert_eq!(object.get("a"), None);
    assert_eq!(object.get_text(""), None);
}

#[test]
fn same_text_compares_characters() {
    assert!(same_text("abc", "abc"));
    assert!(same_text("", ""));
    assert!(!same_text("abc", "abd"));
    assert!(!same_text("abc", "ab"));
    assert!(!same_text("abc", "ABC"));
}
