use label_wires::utils::json::JsonObject;
use label_wires::utils::localizer::Localizer;

#[test]
fn a_new_localizer_has_no_texts() {
    let localizer = Localizer::new("en");
    assert_eq!(localizer.get("save"), "Missing");
    assert_eq!(localizer.get(""), "Missing");
}

#[test]
fn resource_path_names_the_language() {
    assert_eq!(Localizer::new("en").resource_path(), "resources/locales/en.json");
    assert_eq!(Localizer::new("shakespeare").resource_path(), "resources/locales/shakespeare.json");
    assert_eq!(Localizer::new("").resource_path(), "resources/locales/.json");
}

#[test]
fn load_resources_takes_the_texts_of_the_object() {
    let mut localizer = Localizer::new("en");
    localizer.load_resources(r#"{"save": "Save", "cancel": "Cancel", "count": 3, "deep": {"a": "b"}}"#);
    assert_eq!(localizer.get("save"), "Save");
    assert_eq!(localizer.get("cancel"), "Cancel");
    assert_eq!(localizer.get("count"), "Missing");
    assert_eq!(localizer.get("deep"), "Missing");
    assert_eq!(localizer.get("a"), "Missing");
}

#[test]
fn load_resources_replaces_what_was_loaded() {
    let mut localizer = Localizer::new("en");
    localizer.load_resources(r#"{"save": "Save", "cancel": "Cancel"}"#);
    localizer.load_resources(r#"{"save": "Sauver"}"#);
    assert_eq!(localizer.get("save"), "Sauver");
    assert_eq!(localizer.get("cancel"), "Missing");
}

#[test]
fn load_resources_leaves_the_texts_on_bad_contents() {
    let mut localizer = Localizer::new("en");
    localizer.load_resources(r#"{"save": "Save"}"#);
    localizer.load_resources("not json");
    assert_eq!(localizer.get("save"), "Save");
    localizer.load_resources("[\"save\"]");
    assert_eq!(localizer.get("save"), "Save");
    localizer.load_resources("");
    assert_eq!(localizer.get("save"), "Save");
}

#[test]
fn load_resources_of_an_empty_object_clears() {
    let mut localizer = Localizer::new("en");
    localizer.load_resources(r#"{"save": "Save"}"#);
    localizer.load_resources("{}");
    assert_eq!(localizer.get("save"), "Missing");
}

#[test]
fn set_language_changes_the_path_and_keeps_the_texts() {
    let mut localizer = Localizer::new("en");
    localizer.load_resources(r#"{"save": "Save"}"#);
    localizer.set_language("fr");
    assert_eq!(localizer.resource_path(), "resources/locales/fr.json");
    assert_eq!(localizer.get("save"), "Save");
}

#[test]
fn set_resources_lets_a_later_member_win() {
    let mut localizer = Localizer::new("en");
    localizer.set_resources(&JsonObject {
        members: vec![
            ("save".to_string(), Some("Save".to_string())),
            ("quit".to_string(), None),
            ("save".to_string(), Some("Store".to_string())),
        ],
    });
    assert_eq!(localizer.get("save"), "Store");
    assert_eq!(localizer.get("quit"), "Missing");
}
