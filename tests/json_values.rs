use consulx::handlers::{edit_file_name, editor_choice, show_keys, show_value};
use consulx::json::{compact_json, json_entry, show_json, JsonShow};
use consulx::ConsulXError;

#[test]
fn put_json_stores_compact_text() {
    assert_eq!(compact_json("{ \"x\" : 1 ,\n \"y\": [1, 2] }").unwrap(), "{\"x\":1,\"y\":[1,2]}");
    assert!(matches!(compact_json("{x:1}"), Err(ConsulXError::Json(_))));
}

#[test]
fn put_json_then_get_json_round_trips() {
    let literal = "{ \"b\": [true, null],   \"a\": {\"c\": \"d\"} }";
    let stored = compact_json(literal).unwrap();
    let shown = match show_json(Some(stored)).unwrap() {
        JsonShow::Pretty(p) => p,
        other => panic!("unexpected {other:?}"),
    };
    let a: serde_json::Value = serde_json::from_str(&shown).unwrap();
    let b: serde_json::Value = serde_json::from_str(literal).unwrap();
    assert_eq!(a, b);
}

#[test]
fn get_json_display_choices() {
    assert!(matches!(show_json(None), Ok(JsonShow::Absent)));
    assert!(matches!(show_json(Some("not json".to_string())), Ok(JsonShow::Raw(r)) if r == "not json"));
    match show_json(Some("{\"x\":1}".to_string())) {
        Ok(JsonShow::Pretty(p)) => assert_eq!(p, "{\n  \"x\": 1\n}"),
        other => panic!("unexpected {other:?}"),
    }
}

#[test]
fn listing_entries_skip_blank_values() {
    assert!(matches!(json_entry(None), Ok(None)));
    assert!(matches!(json_entry(Some("  \n\t".to_string())), Ok(None)));
    assert!(matches!(json_entry(Some(" [1] ".to_string())), Ok(Some(t)) if t == " [1] "));
    assert!(matches!(json_entry(Some("[1".to_string())), Err(ConsulXError::Json(_))));
}

#[test]
fn displays_of_get_and_list() {
    assert_eq!(show_value(Some("42".to_string())), "42");
    assert_eq!(show_value(None), "<nil>");
    assert_eq!(show_keys(vec![]), vec!["<empty>".to_string()]);
    assert_eq!(show_keys(vec!["a".to_string()]), vec!["a".to_string()]);
}

#[test]
fn edit_names_and_editor() {
    assert_eq!(edit_file_name("a/b/c", 1700000000), "consulx-a_b_c-1700000000.tmp");
    assert_eq!(editor_choice(None), "nano");
    assert_eq!(editor_choice(Some("vim".to_string())), "vim");
}
