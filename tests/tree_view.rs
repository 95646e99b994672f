use consulx::tree::{key_segments, relative_key, render_tree};

fn keys(v: &[&str]) -> Vec<String> {
    v.iter().map(|s| s.to_string()).collect()
}

#[test]
fn tree_of_three_keys() {
    let lines = render_tree("", &keys(&["a/b", "a/c", "d"]));
    assert_eq!(
        lines,
        vec!["├── a", "│   ├── b", "│   └── c", "└── d"]
    );
}

#[test]
fn tree_sorts_and_merges() {
    let lines = render_tree("", &keys(&["z", "a/y/1", "a/x", "a/y/2", "a/x"]));
    assert_eq!(
        lines,
        vec!["├── a", "│   ├── x", "│   └── y", "│       ├── 1", "│       └── 2", "└── z"]
    );
}

#[test]
fn tree_strips_prefix() {
    let lines = render_tree("app", &keys(&["app/db", "app/cache/a", "app"]));
    assert_eq!(lines, vec!["├── cache", "│   └── a", "└── db"]);
}

#[test]
fn empty_listing_renders_marker() {
    assert_eq!(render_tree("x", &Vec::new()), vec!["<empty>"]);
}

#[test]
fn keys_without_segments_are_skipped() {
    assert!(render_tree("", &keys(&["/", "//"])).is_empty());
}

#[test]
fn relative_keys_and_segments() {
    assert_eq!(relative_key("", "/a/b"), "/a/b");
    assert_eq!(relative_key("app", "app//x"), "x");
    assert_eq!(relative_key("app", "other/x"), "other/x");
    assert_eq!(key_segments("", "/a//b/"), vec!["a", "b"]);
}
