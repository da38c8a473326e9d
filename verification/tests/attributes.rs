use omni_log_forwarder::attributes::OwnedAttributes;
use omni_log_forwarder::text::{decimal_text, same_text};
use pdk::script::AttributesBinding;

fn headers(pairs: &[(&str, &str)]) -> Vec<(String, String)> {
    pairs
        .iter()
        .map(|(k, v)| (k.to_string(), v.to_string()))
        .collect()
}

#[test]
fn snapshot_replaces_pseudo_headers_that_are_given() {
    let attrs = OwnedAttributes::new(
        headers(&[
            (":METHOD", "PUT"),
            ("accept", "*/*"),
            (":path", "/old"),
            (":scheme", "https"),
        ]),
        Some("GET"),
        Some("/new?q=1"),
        Some(404),
    );
    assert_eq!(
        attrs.headers,
        headers(&[
            ("accept", "*/*"),
            (":scheme", "https"),
            (":method", "GET"),
            (":path", "/new?q=1"),
            (":status", "404"),
        ])
    );
    assert_eq!(attrs.method(), Some("GET".to_string()));
    assert_eq!(attrs.uri(), Some("/new?q=1".to_string()));
    assert_eq!(attrs.status_code(), Some(404));
    assert_eq!(attrs.scheme(), Some("https".to_string()));
}

#[test]
fn snapshot_keeps_pseudo_headers_that_are_not_given() {
    let given = headers(&[(":method", "PUT"), (":path", "/old"), (":status", "201")]);
    let attrs = OwnedAttributes::new(given.clone(), None, None, None);
    assert_eq!(attrs.headers, given);
    assert_eq!(attrs.method(), Some("PUT".to_string()));
    assert_eq!(attrs.status_code(), Some(201));
}

#[test]
fn lookup_ignores_case_and_takes_the_first() {
    let attrs = OwnedAttributes::new(
        headers(&[("X-Id", "1"), ("x-id", "2"), ("other", "3")]),
        None,
        None,
        None,
    );
    assert_eq!(attrs.extract_header("x-ID"), Some("1".to_string()));
    assert_eq!(attrs.extract_header("OTHER"), Some("3".to_string()));
    assert_eq!(attrs.extract_header("missing"), None);
}

#[test]
fn visible_headers_leave_pseudo_headers_out() {
    let attrs = OwnedAttributes::new(
        headers(&[("a", "1"), ("b", "2"), ("a", "3"), (":authority", "h"), ("", "e")]),
        Some("GET"),
        Some("/"),
        Some(200),
    );
    let map = attrs.extract_headers();
    assert_eq!(map.len(), 3);
    assert_eq!(map["a"], "3");
    assert_eq!(map["b"], "2");
    assert_eq!(map[""], "e");
}

#[test]
fn numbers_in_decimal() {
    assert_eq!(decimal_text(0), "0");
    assert_eq!(decimal_text(9), "9");
    assert_eq!(decimal_text(10), "10");
    assert_eq!(decimal_text(1_234_567_890), "1234567890");
    assert_eq!(
        decimal_text(u128::MAX),
        "340282366920938463463374607431768211455"
    );
    assert_eq!(decimal_text(u32::MAX as u128), u32::MAX.to_string());
}

#[test]
fn text_comparison() {
    assert!(same_text("", ""));
    assert!(same_text("abc", "abc"));
    assert!(!same_text("abc", "ABC"));
    assert!(!same_text("abc", "ab"));
}

#[test]
fn map_of_headers_is_that_of_the_given() {
    let given = headers(&[
        ("X-Id", "1"),
        ("x-id", "2"),
        (":METHOD", "PUT"),
        ("X-Id", "3"),
        (":scheme", "https"),
        ("", "unnamed"),
    ]);
    let plain = OwnedAttributes::new(given.clone(), None, None, None).extract_headers();
    let bound =
        OwnedAttributes::new(given, Some("GET"), Some("/new"), Some(404)).extract_headers();
    assert_eq!(plain, bound);
    assert_eq!(bound.len(), 3);
    assert_eq!(bound.get("X-Id").map(String::as_str), Some("3"));
    assert_eq!(bound.get("x-id").map(String::as_str), Some("2"));
    assert_eq!(bound.get("").map(String::as_str), Some("unnamed"));
}

#[test]
fn snapshot_of_a_snapshot_is_the_same() {
    let given = headers(&[("accept", "*/*"), (":Path", "/old"), (":status", "500"), ("b", "2")]);
    let once = OwnedAttributes::new(given, Some("GET"), Some("/new"), None);
    let twice = OwnedAttributes::new(once.headers.clone(), Some("GET"), Some("/new"), None);
    assert_eq!(
        once.headers,
        headers(&[
            ("accept", "*/*"),
            (":status", "500"),
            ("b", "2"),
            (":method", "GET"),
            (":path", "/new"),
        ])
    );
    assert_eq!(twice.headers, once.headers);
}
