use message_resource::MessageResource;

#[test]
fn encode_without_key_exact() {
    let m = MessageResource::new_from_str("hi");
    assert_eq!(m.encode(), "{\"key\":null,\"message\":\"hi\"}");
}

#[test]
fn encode_with_key_exact() {
    let m = MessageResource::new("k", "v");
    assert_eq!(m.encode(), "{\"key\":\"k\",\"message\":\"v\"}");
}

#[test]
fn encode_escapes_quote_and_backslash() {
    let m = MessageResource::new_from_str("a\"b\\c");
    assert_eq!(m.encode(), "{\"key\":null,\"message\":\"a\\\"b\\\\c\"}");
}

#[test]
fn round_trip_with_key() {
    let m = MessageResource::new("err.notfound", "Not Found");
    let back = MessageResource::decode(&m.encode()).unwrap();
    assert_eq!(back, m);
}

#[test]
fn round_trip_without_key() {
    let m = MessageResource::new_from_str("Not Found");
    let back = MessageResource::decode(&m.encode()).unwrap();
    assert_eq!(back, m);
}

#[test]
fn round_trip_with_escapes_everywhere() {
    let m = MessageResource::new("quote \" and slash \\", "mix \\\" of \"\" both \\\\");
    let back = MessageResource::decode(&m.encode()).unwrap();
    assert_eq!(back, m);
}

#[test]
fn round_trip_empty_strings() {
    let with_key = MessageResource::new("", "");
    assert_eq!(MessageResource::decode(&with_key.encode()).unwrap(), with_key);
    let without_key = MessageResource::default();
    assert_eq!(MessageResource::decode(&without_key.encode()).unwrap(), without_key);
}

#[test]
fn decode_handwritten_record() {
    let m = MessageResource::decode("{\"key\":\"k\",\"message\":\"m\"}").unwrap();
    assert_eq!(m.key, Some("k".to_string()));
    assert_eq!(m.message, "m");
}

#[test]
fn decode_rejects_malformed_records() {
    assert!(MessageResource::decode("").is_none());
    assert!(MessageResource::decode("{}").is_none());
    assert!(MessageResource::decode("{\"key\":null}").is_none());
    assert!(MessageResource::decode("{\"key\":42,\"message\":\"m\"}").is_none());
    assert!(MessageResource::decode("{\"key\":null,\"message\":\"m\"").is_none());
    assert!(MessageResource::decode("{\"key\":null,\"message\":\"m\"} ").is_none());
    assert!(MessageResource::decode("{\"key\":null,\"message\":\"a\\qb\"}").is_none());
    assert!(MessageResource::decode("{\"key\":\"k\",\"message\":m}").is_none());
}
