use warc_parser::json::{encode_json_map, JsonEntry, JsonValue};

#[test]
fn empty_map_is_a_pair_of_braces() {
    assert_eq!(encode_json_map(&Vec::new()), "{}");
}

#[test]
fn text_is_quoted_and_integers_are_bare() {
    let entries = vec![
        JsonEntry { key: "k1".to_string(), value: JsonValue::Text("v1".to_string()) },
        JsonEntry { key: "k2".to_string(), value: JsonValue::Integer(42) },
    ];
    assert_eq!(encode_json_map(&entries), "{\"k1\": \"v1\", \"k2\": 42}");
}

#[test]
fn single_entry_has_no_separator() {
    let entries = vec![JsonEntry { key: "n".to_string(), value: JsonValue::Integer(0) }];
    assert_eq!(encode_json_map(&entries), "{\"n\": 0}");
}

#[test]
fn values_are_written_as_handed_in() {
    let entries = vec![
        JsonEntry { key: "a".to_string(), value: JsonValue::Text("x\\\"y".to_string()) },
        JsonEntry { key: "a".to_string(), value: JsonValue::Text(String::new()) },
        JsonEntry { key: String::new(), value: JsonValue::Integer(u64::MAX) },
    ];
    assert_eq!(
        encode_json_map(&entries),
        "{\"a\": \"x\\\"y\", \"a\": \"\", \"\": 18446744073709551615}"
    );
}

#[test]
fn escaped_value_is_recovered_by_splitting() {
    let value = "she said \"hi\"";
    let escaped = warc_parser::sanitize::sanitize_header(value);
    let entries = vec![
        JsonEntry { key: "first".to_string(), value: JsonValue::Text(escaped) },
        JsonEntry { key: "second".to_string(), value: JsonValue::Text("x".to_string()) },
    ];
    let map = encode_json_map(&entries);
    assert_eq!(map, "{\"first\": \"she said \\\"hi\\\"\", \"second\": \"x\"}");
    let inner = &map[1..map.len() - 1];
    let pairs: Vec<&str> = inner.split("\", \"").collect();
    assert_eq!(pairs.len(), 2);
    let halves: Vec<&str> = pairs[0].split("\": \"").collect();
    assert_eq!(halves.len(), 2);
    assert_eq!(halves[0], "\"first");
    assert_eq!(halves[1].replace("\\\"", "\""), value);
}
