use message_resource::{DescribableError, Error, MessageResource};

#[test]
fn message_display_with_key() {
    let m = MessageResource::new("err.notfound", "Not Found");
    assert_eq!(
        m.display_string(),
        "MessageResource Key: Some(\"err.notfound\"), Message: Not Found"
    );
}

#[test]
fn message_display_without_key() {
    let m = MessageResource::new_from_str("plain text");
    assert_eq!(m.display_string(), "MessageResource Key: None, Message: plain text");
}

#[test]
fn network_display() {
    let e = Error::Network(MessageResource::new_from_str("down"));
    assert_eq!(
        e.display_string(),
        "Error of type Network. MessageResource: MessageResource Key: None, Message: down"
    );
}

#[test]
fn io_display() {
    let e = Error::IO(MessageResource::new_from_str("disk"));
    assert_eq!(
        e.display_string(),
        "Error of type IO. MessageResource: MessageResource Key: None, Message: disk"
    );
}

#[test]
fn privilege_display() {
    let e = Error::Privilege(MessageResource::new("auth.denied", "no"));
    assert_eq!(
        e.display_string(),
        "Error of type Privilege. MessageResource: MessageResource Key: Some(\"auth.denied\"), Message: no"
    );
}

#[test]
fn serde_display() {
    let e = Error::Serde(MessageResource::new_from_str("bad json"));
    assert_eq!(
        e.display_string(),
        "Error of type Serde. MessageResource: MessageResource Key: None, Message: bad json"
    );
}

#[test]
fn parser_display() {
    let e = Error::Parser(MessageResource::new_from_str("bad int"));
    assert_eq!(
        e.display_string(),
        "Error of type Parser. MessageResource: MessageResource Key: None, Message: bad int"
    );
}

#[test]
fn unexpected_status_code_empty_list() {
    let e = Error::UnexpectedStatusCode(404, 500, vec![]);
    assert_eq!(
        e.display_string(),
        "Error of type UnexpectedStatusCode. Expected: 404, Actual: 500, MessageResources: []"
    );
}

#[test]
fn unexpected_status_code_with_messages() {
    let e = Error::UnexpectedStatusCode(
        200,
        403,
        vec![MessageResource::new("a", "x"), MessageResource::new_from_str("y")],
    );
    assert_eq!(
        e.display_string(),
        "Error of type UnexpectedStatusCode. Expected: 200, Actual: 403, MessageResources: \
         [MessageResource Key: Some(\"a\"), Message: x, MessageResource Key: None, Message: y]"
    );
}

#[test]
fn unexpected_status_code_extreme_codes() {
    let e = Error::UnexpectedStatusCode(0, 65535, vec![]);
    assert_eq!(
        e.display_string(),
        "Error of type UnexpectedStatusCode. Expected: 0, Actual: 65535, MessageResources: []"
    );
}

#[test]
fn unspecified_display() {
    let e = Error::Unspecified;
    assert_eq!(e.display_string(), "Error of type Unspecified.");
}

#[test]
fn every_variant_description_matches_display() {
    let m = || MessageResource::new("k", "m");
    let all = vec![
        Error::Network(m()),
        Error::IO(m()),
        Error::Privilege(m()),
        Error::UnexpectedStatusCode(1, 2, vec![m()]),
        Error::Serde(m()),
        Error::Parser(m()),
        Error::Unspecified,
    ];
    for e in &all {
        let d = e.description();
        assert_eq!(d, e.display_string());
        assert!(!d.is_empty());
    }
}
