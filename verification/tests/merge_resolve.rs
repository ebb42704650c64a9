use ghucl::headers::HeaderMap;
use ghucl::request::{parse_method, HttpVerb, RequestError, RequestMessageBuilder};

fn builder(
    method: Option<&str>,
    host: Option<&str>,
    path: Option<&str>,
    body: Option<&str>,
    headers: Option<Vec<(&str, &str)>>,
) -> RequestMessageBuilder {
    let headers = headers.map(|pairs| {
        let mut hm = HeaderMap::new();
        for (k, v) in pairs {
            hm.insert(k.to_string(), v.to_string());
        }
        hm
    });
    RequestMessageBuilder {
        method: method.map(|s| s.to_string()),
        host: host.map(|s| s.to_string()),
        path: path.map(|s| s.to_string()),
        body: body.map(|s| s.to_string()),
        headers,
    }
}

#[test]
fn merge_keeps_all_header_keys_and_override_wins() {
    let base = builder(None, None, None, None, Some(vec![("A", "1"), ("B", "2")]));
    let over = builder(None, None, None, None, Some(vec![("B", "9"), ("C", "3")]));
    let merged = base.merge_with(&over);
    let hm = merged.headers.as_ref().expect("merged headers present");
    assert_eq!(hm.len(), 3);
    assert_eq!(hm.get("A"), Some(&"1".to_string()));
    assert_eq!(hm.get("B"), Some(&"9".to_string()));
    assert_eq!(hm.get("C"), Some(&"3".to_string()));
}

#[test]
fn merge_with_empty_override_keeps_base() {
    let base = builder(
        Some("put"),
        Some("http://h"),
        Some("/p"),
        Some("payload"),
        Some(vec![("X", "1")]),
    );
    let over = RequestMessageBuilder::new_empty();
    let merged = base.merge_with(&over);
    assert_eq!(merged.method, Some("put".to_string()));
    assert_eq!(merged.host, Some("http://h".to_string()));
    assert_eq!(merged.path, Some("/p".to_string()));
    assert_eq!(merged.body, Some("payload".to_string()));
    let hm = merged.headers.as_ref().expect("merged headers present");
    assert_eq!(hm.len(), 1);
    assert_eq!(hm.get("X"), Some(&"1".to_string()));
}

#[test]
fn merge_empty_base_takes_override() {
    let base = RequestMessageBuilder::new_empty();
    let over = builder(Some("get"), None, Some("/q"), None, None);
    let merged = base.merge_with(&over);
    assert_eq!(merged.method, Some("get".to_string()));
    assert_eq!(merged.host, None);
    assert_eq!(merged.path, Some("/q".to_string()));
    assert_eq!(merged.body, None);
    let hm = merged.headers.as_ref().expect("merged headers present");
    assert_eq!(hm.len(), 0);
}

#[test]
fn merge_scalar_last_wins() {
    let base = builder(Some("get"), Some("http://a"), None, None, None);
    let over = builder(Some("post"), None, Some("/x"), None, None);
    let merged = base.merge_with(&over);
    assert_eq!(merged.method, Some("post".to_string()));
    assert_eq!(merged.host, Some("http://a".to_string()));
    assert_eq!(merged.path, Some("/x".to_string()));
}

#[test]
fn resolve_missing_host_fails_first() {
    let b = builder(Some("get"), None, None, None, None);
    let err = b.to_message().err().expect("resolution must fail");
    assert_eq!(err, RequestError::BuildError { property_name: "host".to_string() });

    let b = RequestMessageBuilder::new_empty();
    let err = b.to_message().err().expect("resolution must fail");
    assert_eq!(err, RequestError::BuildError { property_name: "host".to_string() });
}

#[test]
fn resolve_missing_path_fails_second() {
    let b = builder(None, Some("http://h"), None, Some("b"), None);
    let err = b.to_message().err().expect("resolution must fail");
    assert_eq!(err, RequestError::BuildError { property_name: "path".to_string() });
}

#[test]
fn resolve_missing_method_fails_third() {
    let b = builder(None, Some("http://h"), Some("/p"), None, None);
    let err = b.to_message().err().expect("resolution must fail");
    assert_eq!(err, RequestError::BuildError { property_name: "method".to_string() });
}

#[test]
fn resolve_method_text_case_insensitive() {
    for text in ["get", "GET", "Get"] {
        let b = builder(Some(text), Some("http://h"), Some("/p"), None, None);
        let m = b.to_message().expect("resolution succeeds");
        assert_eq!(m.method, HttpVerb::GET);
    }
    let b = builder(Some("banana"), Some("http://h"), Some("/p"), None, None);
    let m = b.to_message().expect("resolution succeeds");
    assert_eq!(m.method, HttpVerb::HEAD);
}

#[test]
fn parse_method_all_verbs() {
    assert_eq!(parse_method("get"), HttpVerb::GET);
    assert_eq!(parse_method("head"), HttpVerb::HEAD);
    assert_eq!(parse_method("pOsT"), HttpVerb::POST);
    assert_eq!(parse_method("PUT"), HttpVerb::PUT);
    assert_eq!(parse_method("delete"), HttpVerb::DELETE);
    assert_eq!(parse_method("Options"), HttpVerb::OPTIONS);
    assert_eq!(parse_method("patch"), HttpVerb::PATCH);
    assert_eq!(parse_method(""), HttpVerb::HEAD);
    assert_eq!(parse_method("gett"), HttpVerb::HEAD);
}

#[test]
fn method_folding_follows_unicode_uppercasing() {
    // U+0131 (dotless i) uppercases to the ASCII letter I
    assert_eq!(parse_method("opt\u{0131}ons"), HttpVerb::OPTIONS);
    let b = builder(Some("opt\u{0131}ons"), Some("http://h"), Some("/p"), None, None);
    let m = b.to_message().expect("resolution succeeds");
    assert_eq!(m.method, HttpVerb::OPTIONS);
}

#[test]
fn resolve_url_concatenates_host_and_path() {
    let b = builder(Some("post"), Some("http://x"), Some("/p"), None, None);
    let m = b.to_message().expect("resolution succeeds");
    assert_eq!(m.url, "http://x/p".to_string());
    assert_eq!(m.body, "".to_string());
    assert_eq!(m.headers.len(), 0);
}

#[test]
fn resolve_keeps_body_and_headers() {
    let b = builder(
        Some("put"),
        Some("http://x"),
        Some("/p"),
        Some("the body"),
        Some(vec![("K", "V")]),
    );
    let m = b.to_message().expect("resolution succeeds");
    assert_eq!(m.body, "the body".to_string());
    assert_eq!(m.headers.len(), 1);
    assert_eq!(m.headers.get("K"), Some(&"V".to_string()));
}

#[test]
fn base_and_leaf_scenario() {
    let base = builder(None, Some("http://h"), None, None, Some(vec![("X", "1")]));
    let leaf = builder(
        Some("PUT"),
        None,
        Some("/p"),
        None,
        Some(vec![("X", "2"), ("Y", "3")]),
    );
    let merged = base.merge_with(&leaf);
    let m = merged.to_message().expect("resolution succeeds");
    assert_eq!(m.method, HttpVerb::PUT);
    assert_eq!(m.url, "http://h/p".to_string());
    assert_eq!(m.headers.len(), 2);
    assert_eq!(m.headers.get("X"), Some(&"2".to_string()));
    assert_eq!(m.headers.get("Y"), Some(&"3".to_string()));
}

#[test]
fn header_map_insert_overwrites() {
    let mut hm = HeaderMap::new();
    assert_eq!(hm.len(), 0);
    assert_eq!(hm.get("A"), None);
    hm.insert("A".to_string(), "1".to_string());
    hm.insert("B".to_string(), "2".to_string());
    assert_eq!(hm.len(), 2);
    hm.insert("A".to_string(), "9".to_string());
    assert_eq!(hm.len(), 2);
    assert_eq!(hm.get("A"), Some(&"9".to_string()));
    assert_eq!(hm.get("B"), Some(&"2".to_string()));
}
