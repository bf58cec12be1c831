use typst_ts_cli::input::parse_input_pair;

fn ok(raw: &str) -> (String, String) {
    parse_input_pair(raw).expect("pair accepted")
}

#[test]
fn plain_pair_is_split() {
    assert_eq!(ok("a=b"), ("a".to_string(), "b".to_string()));
}

#[test]
fn both_sides_are_trimmed() {
    assert_eq!(ok("  key \t=  value  "), ("key".to_string(), "value".to_string()));
}

#[test]
fn split_at_first_equal_sign() {
    assert_eq!(ok("k=v=w"), ("k".to_string(), "v=w".to_string()));
}

#[test]
fn empty_value_is_accepted() {
    assert_eq!(ok("k="), ("k".to_string(), String::new()));
    assert_eq!(ok("k=   "), ("k".to_string(), String::new()));
}

#[test]
fn unicode_whitespace_is_trimmed() {
    assert_eq!(ok("\u{3000}k\u{a0}=\u{2003}v\u{85}"), ("k".to_string(), "v".to_string()));
}

#[test]
fn inner_whitespace_is_kept() {
    assert_eq!(ok(" a b = c d "), ("a b".to_string(), "c d".to_string()));
}

#[test]
fn missing_equal_sign_is_refused() {
    assert_eq!(
        parse_input_pair("novalue"),
        Err("input must be a key and a value separated by an equal sign".to_string())
    );
    assert_eq!(
        parse_input_pair(""),
        Err("input must be a key and a value separated by an equal sign".to_string())
    );
}

#[test]
fn empty_key_is_refused() {
    assert_eq!(parse_input_pair("=x"), Err("the key was missing or empty".to_string()));
    assert_eq!(parse_input_pair(" \t =x"), Err("the key was missing or empty".to_string()));
}

#[test]
fn written_pair_is_read_back() {
    for (k, v) in [("name", "typst"), ("a-b", "x = y"), ("ключ", "значение"), ("k", "")] {
        let raw = format!("{}={}", k, v);
        assert_eq!(ok(&raw), (k.to_string(), v.to_string()));
    }
}
