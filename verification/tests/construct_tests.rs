use message_resource::{DescribableError, Error, MessageResource};

#[test]
fn new_sets_key_and_message() {
    let m = MessageResource::new("err.notfound", "Not Found");
    assert_eq!(m.key, Some("err.notfound".to_string()));
    assert_eq!(m.message, "Not Found");
}

#[test]
fn new_with_empty_strings() {
    let m = MessageResource::new("", "");
    assert_eq!(m.key, Some(String::new()));
    assert_eq!(m.message, "");
}

#[test]
fn new_from_str_has_no_key() {
    let m = MessageResource::new_from_str("something broke");
    assert!(m.key.is_none());
    assert_eq!(m.message, "something broke");
}

#[test]
fn new_from_string_has_no_key() {
    let m = MessageResource::new_from_string("something broke".to_string());
    assert!(m.key.is_none());
    assert_eq!(m.message, "something broke");
}

#[test]
fn default_is_no_key_empty_message() {
    let m = MessageResource::default();
    assert!(m.key.is_none());
    assert_eq!(m.message, "");
    assert_eq!(m, MessageResource::new_from_str(""));
}

#[test]
fn equality_by_key_and_message() {
    let a = MessageResource::new("k", "m");
    let b = MessageResource::new("k", "m");
    let c = MessageResource::new("k2", "m");
    let d = MessageResource::new_from_str("m");
    assert_eq!(a, b);
    assert_ne!(a, c);
    assert_ne!(a, d);
}

#[test]
fn from_describable_takes_description() {
    let e = Error::Unspecified;
    let m = MessageResource::from_describable(&e);
    assert!(m.key.is_none());
    assert_eq!(m.message, "Error of type Unspecified.");

    let inner = MessageResource::new("io.read", "disk gone");
    let e2 = Error::IO(inner);
    let m2 = MessageResource::from_describable(&e2);
    assert!(m2.key.is_none());
    assert_eq!(m2.message, e2.description());
}
