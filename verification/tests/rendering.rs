use ghucl::response::{u128_to_dec, ResponseMessage};
use ghucl::text::{name_le, starts_with_str, str_eq};

#[test]
fn decimal_rendering() {
    assert_eq!(u128_to_dec(0), "0".to_string());
    assert_eq!(u128_to_dec(7), "7".to_string());
    assert_eq!(u128_to_dec(200), "200".to_string());
    assert_eq!(u128_to_dec(1234567890123), "1234567890123".to_string());
    assert_eq!(u128_to_dec(u128::MAX), u128::MAX.to_string());
    assert_eq!(u128_to_dec(10), "10".to_string());
}

#[test]
fn response_rendering_order() {
    let r = ResponseMessage {
        status: 200,
        time_in_ms: 5,
        body: "hello".to_string(),
        headers: vec!["content-type: text/plain".to_string(), "x-a: 1".to_string()],
    };
    assert_eq!(
        r.render(),
        "STATUS CODE: 200\ntook: 5ms\ncontent-type: text/plain\nx-a: 1\n\nhello\n".to_string()
    );
}

#[test]
fn response_rendering_without_headers() {
    let r = ResponseMessage {
        status: 404,
        time_in_ms: 12,
        body: "missing".to_string(),
        headers: vec![],
    };
    assert_eq!(r.render(), "STATUS CODE: 404\ntook: 12ms\n\nmissing\n".to_string());
}

#[test]
fn text_comparisons() {
    assert!(name_le("a.txt", "b.txt"));
    assert!(!name_le("b.txt", "a.txt"));
    assert!(name_le("same", "same"));
    assert!(name_le("", "a"));
    assert!(name_le("ab", "abc"));
    assert!(!name_le("abc", "ab"));

    assert!(starts_with_str("/r/sub", "/r"));
    assert!(!starts_with_str("/other", "/r"));
    assert!(starts_with_str("x", ""));

    assert!(str_eq("abc", "abc"));
    assert!(!str_eq("abc", "abd"));
    assert!(!str_eq("abc", "ab"));
}
