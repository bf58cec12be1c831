use typst_ts_cli::paths::{
    path_components, path_is_absolute, path_join, path_parent, path_strip_prefix,
};

#[test]
fn absolute_paths_start_at_root() {
    assert!(path_is_absolute("/a"));
    assert!(!path_is_absolute("a/b"));
    assert!(!path_is_absolute(""));
    assert!(!path_is_absolute("./a"));
}

#[test]
fn join_puts_one_separator() {
    assert_eq!(path_join("/a", "b"), "/a/b");
    assert_eq!(path_join("/a/", "b"), "/a/b");
    assert_eq!(path_join("", "b"), "b");
    assert_eq!(path_join("a", ""), "a/");
}

#[test]
fn join_with_absolute_replaces() {
    assert_eq!(path_join("/a", "/c/d"), "/c/d");
}

#[test]
fn components_drop_empty_and_dot() {
    assert_eq!(path_components("/a//b/./c/"), vec!["/", "a", "b", "c"]);
    assert_eq!(path_components("./a/."), vec![".", "a"]);
    assert_eq!(path_components("../a"), vec!["..", "a"]);
    assert_eq!(path_components("a/.b"), vec!["a", ".b"]);
    assert!(path_components("").is_empty());
}

#[test]
fn strip_prefix_by_components() {
    assert_eq!(path_strip_prefix("/ws/sub/main.typ", "/ws"), Some("sub/main.typ".to_string()));
    assert_eq!(path_strip_prefix("/ws/./a", "/ws/"), Some("a".to_string()));
    assert_eq!(path_strip_prefix("/ws//a/", "/ws/."), Some("a".to_string()));
    assert_eq!(path_strip_prefix("/ws", "/ws"), Some(String::new()));
    assert_eq!(path_strip_prefix("/wsx/a", "/ws"), None);
    assert_eq!(path_strip_prefix("/other/x", "/ws"), None);
    assert_eq!(path_strip_prefix("/ws", "/ws/a"), None);
}

#[test]
fn parent_drops_last_component() {
    assert_eq!(path_parent("/a/b"), Some("/a".to_string()));
    assert_eq!(path_parent("/a"), Some("/".to_string()));
    assert_eq!(path_parent("/"), None);
    assert_eq!(path_parent("a"), Some(String::new()));
    assert_eq!(path_parent(""), None);
    assert_eq!(path_parent("/../a"), Some("/..".to_string()));
}
