use http_codec::{QueryString, Value};

#[test]
fn decode_keeps_repeated_keys_in_order() {
    let q = QueryString::decode("a=1&b=2&d=&d=7&d=abc");
    assert_eq!(q.get("a"), Some(&Value::Single("1")));
    assert_eq!(q.get("b"), Some(&Value::Single("2")));
    assert_eq!(q.get("d"), Some(&Value::Multiple(vec!["", "7", "abc"])));
}

#[test]
fn decode_skips_pieces_without_equals() {
    let q = QueryString::decode("a=1&b=2&c&d=");
    assert_eq!(q.get("a"), Some(&Value::Single("1")));
    assert_eq!(q.get("b"), Some(&Value::Single("2")));
    assert_eq!(q.get("c"), None);
    assert_eq!(q.get("d"), Some(&Value::Single("")));
}

#[test]
fn decode_splits_at_first_equals_only() {
    let q = QueryString::decode("e===x");
    assert_eq!(q.get("e"), Some(&Value::Single("==x")));
    assert_eq!(q.get("e=="), None);
}

#[test]
fn decode_single_pair_gives_single_value() {
    for (key, value) in [("name", "abc"), ("k", ""), ("", "v"), ("ключ", "значение")] {
        let fragment = format!("{}={}", key, value);
        let q = QueryString::decode(&fragment);
        assert_eq!(q.get(key), Some(&Value::Single(value)));
    }
}

#[test]
fn decode_empty_fragment_is_empty() {
    let q = QueryString::decode("");
    assert_eq!(q.get(""), None);
    assert_eq!(q.get("a"), None);
}

#[test]
fn decode_empty_pieces_are_ignored() {
    let q = QueryString::decode("&&x=1&&");
    assert_eq!(q.get("x"), Some(&Value::Single("1")));
    assert_eq!(q.get(""), None);
}

#[test]
fn decode_empty_key_is_kept() {
    let q = QueryString::decode("=1&=2");
    assert_eq!(q.get(""), Some(&Value::Multiple(vec!["1", "2"])));
}

#[test]
fn decode_second_occurrence_turns_single_into_multiple() {
    let q = QueryString::decode("k=first&k=second");
    assert_eq!(q.get("k"), Some(&Value::Multiple(vec!["first", "second"])));
}

#[test]
fn decode_twice_gives_equal_maps() {
    let fragment = "a=1&b=2&d=&d=7&d=abc&c";
    let first = QueryString::decode(fragment);
    let second = QueryString::decode(fragment);
    assert_eq!(first, second);
    for key in ["a", "b", "c", "d", "z"] {
        assert_eq!(first.get(key), second.get(key));
    }
}
