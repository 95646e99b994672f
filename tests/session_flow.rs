use consulx::client::{list_result, read_result, write_result};
use consulx::handlers::show_value;
use consulx::json::{compact_json, show_json, JsonShow};
use consulx::{parse, Command};

#[test]
fn put_get_missing_put_json_list_flow() {
    let (key, value) = match parse("put foo/bar 42").unwrap() {
        Command::Put { key, value } => (key, value),
        other => panic!("unexpected {other:?}"),
    };
    assert_eq!((key.as_str(), value.as_str()), ("foo/bar", "42"));
    assert!(write_result(200).is_ok());

    assert!(matches!(parse("get foo/bar").unwrap(), Command::Get { key } if key == "foo/bar"));
    assert_eq!(show_value(read_result(200, value.clone()).unwrap()), "42");

    assert!(matches!(parse("get missing/key").unwrap(), Command::Get { .. }));
    assert_eq!(show_value(read_result(404, String::new()).unwrap()), "<nil>");

    let json = match parse("put-json cfg {\"x\":1}").unwrap() {
        Command::PutJson { json, .. } => json,
        other => panic!("unexpected {other:?}"),
    };
    let stored = compact_json(&json).unwrap();
    match show_json(read_result(200, stored).unwrap()).unwrap() {
        JsonShow::Pretty(p) => assert_eq!(p, "{\n  \"x\": 1\n}"),
        other => panic!("unexpected {other:?}"),
    }

    assert!(matches!(parse("list foo").unwrap(), Command::List { prefix } if prefix == "foo"));
    assert_eq!(list_result(200, "[\"foo/bar\"]").unwrap(), vec!["foo/bar".to_string()]);
}
