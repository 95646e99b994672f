use consulx::client::{
    index_from_header, list_answer, list_result, read_result, watch_prefix_result, watch_result, write_result,
};
use consulx::watch::{replay, WatchState};
use consulx::{ConsulXClient, ConsulXError};

#[test]
fn base_loses_trailing_slashes() {
    let c = ConsulXClient::new("http://h:8500//").unwrap();
    assert_eq!(c.base, "http://h:8500");
    let d = ConsulXClient::from_env(None).unwrap();
    assert_eq!(d.base, "http://127.0.0.1:8500");
}

#[test]
fn urls_follow_the_kv_api() {
    let c = ConsulXClient::new("http://h").unwrap();
    assert_eq!(c.get_raw_url("a/b"), "http://h/v1/kv/a/b?raw=true");
    assert_eq!(c.key_url("a/b"), "http://h/v1/kv/a/b");
    assert_eq!(c.list_url("a"), "http://h/v1/kv/a?keys");
    assert_eq!(c.watch_url("k", None), "http://h/v1/kv/k?raw=true&wait=10s");
    assert_eq!(c.watch_url("k", Some(42)), "http://h/v1/kv/k?raw=true&index=42&wait=10s");
    assert_eq!(c.watch_prefix_url("p", Some(7)), "http://h/v1/kv/p?keys&index=7&wait=10s");
    assert_eq!(c.watch_prefix_url("p", None), "http://h/v1/kv/p?keys&wait=10s");
}

#[test]
fn read_status_mapping() {
    assert_eq!(read_result(200, "v".to_string()).unwrap(), Some("v".to_string()));
    assert_eq!(read_result(404, String::new()).unwrap(), None);
    assert!(matches!(read_result(500, String::new()), Err(ConsulXError::Http(500))));
    assert!(write_result(204).is_ok());
    assert!(matches!(write_result(403), Err(ConsulXError::Http(403))));
}

#[test]
fn list_failure_is_empty() {
    assert!(list_result(500, "garbage").unwrap().is_empty());
    assert!(list_result(404, "").unwrap().is_empty());
    assert_eq!(list_result(200, "[\"foo/bar\"]").unwrap(), vec!["foo/bar".to_string()]);
    assert!(matches!(list_result(200, "nope"), Err(ConsulXError::Json(_))));
}

#[test]
fn list_without_answer_is_empty() {
    assert!(list_answer(None).unwrap().is_empty());
    assert!(list_answer(Some((503, String::new()))).unwrap().is_empty());
    assert_eq!(
        list_answer(Some((200, "[\"a\",\"b\"]".to_string()))).unwrap(),
        vec!["a".to_string(), "b".to_string()]
    );
}

#[test]
fn index_header_parsing() {
    assert_eq!(index_from_header(Some("123")), 123);
    assert_eq!(index_from_header(Some("+9")), 9);
    assert_eq!(index_from_header(Some("abc")), 0);
    assert_eq!(index_from_header(Some("18446744073709551616")), 0);
    assert_eq!(index_from_header(None), 0);
}

#[test]
fn watch_answers() {
    let (i, v) = watch_result(200, Some("5"), "x".to_string()).unwrap();
    assert_eq!((i, v), (5, Some("x".to_string())));
    let (i, v) = watch_result(404, None, String::new()).unwrap();
    assert_eq!((i, v), (0, None));
    assert!(matches!(watch_result(502, Some("5"), String::new()), Err(ConsulXError::Http(502))));
    assert_eq!(watch_prefix_result(200, Some("3"), "[\"a\"]").unwrap(), (3, vec!["a".to_string()]));
    assert_eq!(watch_prefix_result(200, Some("3"), "{").unwrap(), (3, vec![]));
    assert_eq!(watch_prefix_result(404, Some("4"), "").unwrap(), (4, vec![]));
    assert!(matches!(watch_prefix_result(500, Some("4"), "[\"a\"]"), Err(ConsulXError::Http(500))));
}

#[test]
fn each_request_carries_prior_index() {
    assert_eq!(replay(&vec![3, 3, 8, 12]), vec![None, Some(3), Some(3), Some(8), Some(12)]);
    assert_eq!(replay(&vec![]), vec![None]);
    let mut s = WatchState::new();
    assert_eq!(s.next_request(), None);
    s.advance(17);
    assert_eq!(s.next_request(), Some(17));
}
