use httprs::json::json_object_string;

#[test]
fn json_empty_object() {
    let pairs: Vec<(String, String)> = vec![];
    assert_eq!(json_object_string(&pairs), "{}");
}

#[test]
fn json_escapes_values() {
    let pairs = vec![
        ("quote".to_string(), "say \"hi\"".to_string()),
        ("path".to_string(), "C:\\tmp".to_string()),
        ("text".to_string(), "a\nb\tc".to_string()),
        ("ctl".to_string(), "\u{1}".to_string()),
    ];
    assert_eq!(
        json_object_string(&pairs),
        "{\"quote\":\"say \\\"hi\\\"\",\"path\":\"C:\\\\tmp\",\"text\":\"a\\nb\\tc\",\"ctl\":\"\\u0001\"}"
    );
}

#[test]
fn json_keeps_unicode_text() {
    let pairs = vec![("city".to_string(), "北京".to_string())];
    assert_eq!(json_object_string(&pairs), "{\"city\":\"北京\"}");
}
