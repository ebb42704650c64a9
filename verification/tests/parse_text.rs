use ghucl::request::{HttpVerb, RequestError, RequestMessage};

#[test]
fn round_trip_document_to_request() {
    let text = "host = \"http://x\"\npath = \"/p\"\nmethod = \"POST\"\n\n[headers]\nA = \"1\"\n";
    let builder = RequestMessage::from_text(text).expect("document parses");
    let m = builder.to_message().expect("resolution succeeds");
    assert_eq!(m.method, HttpVerb::POST);
    assert_eq!(m.url, "http://x/p".to_string());
    assert_eq!(m.body, "".to_string());
    assert_eq!(m.headers.len(), 1);
    assert_eq!(m.headers.get("A"), Some(&"1".to_string()));
}

#[test]
fn parse_reads_all_fields() {
    let text = "method = \"put\"\nhost = \"http://h\"\npath = \"/a\"\nbody = \"data\"\n[headers]\nX = \"1\"\nY = \"2\"\n";
    let b = RequestMessage::from_text(text).expect("document parses");
    assert_eq!(b.method, Some("put".to_string()));
    assert_eq!(b.host, Some("http://h".to_string()));
    assert_eq!(b.path, Some("/a".to_string()));
    assert_eq!(b.body, Some("data".to_string()));
    let hm = b.headers.as_ref().expect("headers present");
    assert_eq!(hm.len(), 2);
    assert_eq!(hm.get("X"), Some(&"1".to_string()));
    assert_eq!(hm.get("Y"), Some(&"2".to_string()));
}

#[test]
fn parse_distinguishes_absent_from_empty() {
    let b = RequestMessage::from_text("body = \"\"\n").expect("document parses");
    assert_eq!(b.body, Some("".to_string()));
    assert_eq!(b.host, None);
    assert_eq!(b.method, None);
    assert_eq!(b.path, None);
    assert!(b.headers.is_none());

    let b = RequestMessage::from_text("").expect("empty document parses");
    assert_eq!(b.body, None);
}

#[test]
fn parse_rejects_malformed_document() {
    let err = RequestMessage::from_text("this is = = not toml").err().expect("must fail");
    assert!(matches!(err, RequestError::TomlParserError { .. }));
}

#[test]
fn parse_rejects_wrong_scalar_type() {
    let err = RequestMessage::from_text("method = 3\n").err().expect("must fail");
    assert_eq!(
        err,
        RequestError::TomlParserError { message: "method must be a string".to_string() }
    );
}

#[test]
fn parse_rejects_non_table_headers() {
    let err = RequestMessage::from_text("headers = 3\n").err().expect("must fail");
    assert_eq!(
        err,
        RequestError::TomlParserError { message: "headers must be a table of strings".to_string() }
    );
}

#[test]
fn parse_rejects_non_string_header_value() {
    let err = RequestMessage::from_text("[headers]\nA = 1\n").err().expect("must fail");
    assert_eq!(
        err,
        RequestError::TomlParserError { message: "headers must be a table of strings".to_string() }
    );
}

#[test]
fn parse_schema_error_names_first_offending_key() {
    let err = RequestMessage::from_text("headers = 4\nmethod = 3\n").err().expect("must fail");
    assert_eq!(
        err,
        RequestError::TomlParserError { message: "method must be a string".to_string() }
    );
    let err = RequestMessage::from_text("path = []\nbody = 1\n").err().expect("must fail");
    assert_eq!(
        err,
        RequestError::TomlParserError { message: "path must be a string".to_string() }
    );
}

#[test]
fn parse_ignores_unknown_keys() {
    let b = RequestMessage::from_text("unknown = 1\nhost = \"http://h\"\n").expect("parses");
    assert_eq!(b.host, Some("http://h".to_string()));
    assert_eq!(b.method, None);
}
