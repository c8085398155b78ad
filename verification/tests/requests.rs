use std::collections::HashMap;

use nimbus_reports::headers::build_header_pairs;
use nimbus_reports::rest::resolve_url;

fn as_map(pairs: Vec<(String, String)>) -> HashMap<String, String> {
    let mut map = HashMap::new();
    for (k, v) in pairs {
        map.insert(k, v);
    }
    map
}

#[test]
fn json_headers_are_always_present() {
    let pairs = build_header_pairs(None, None, None);
    assert_eq!(
        pairs,
        vec![
            (String::from("Accept"), String::from("application/json")),
            (String::from("Content-Type"), String::from("application/json")),
        ]
    );
}

#[test]
fn user_id_and_token_headers_are_added() {
    let pairs = build_header_pairs(None, Some(7), Some(String::from("tok")));
    assert_eq!(
        pairs,
        vec![
            (String::from("Accept"), String::from("application/json")),
            (String::from("Content-Type"), String::from("application/json")),
            (String::from("UserID"), String::from("7")),
            (String::from("Authorization"), String::from("Bearer tok")),
            (String::from("AuthenticationToken"), String::from("tok")),
        ]
    );
}

#[test]
fn custom_accept_overrides_the_default() {
    let custom = vec![(String::from("Accept"), String::from("text/xml"))];
    let pairs = build_header_pairs(Some(custom), None, None);
    let map = as_map(pairs);
    assert_eq!(map.get("Accept").map(String::as_str), Some("text/xml"));
    assert_eq!(map.get("Content-Type").map(String::as_str), Some("application/json"));
}

#[test]
fn negative_user_id_renders_with_sign() {
    let pairs = build_header_pairs(None, Some(-3), None);
    assert!(pairs.contains(&(String::from("UserID"), String::from("-3"))));
}

#[test]
fn full_url_wins_over_base_and_endpoint() {
    let url = resolve_url(
        Some(String::from("https://a/x")),
        Some(String::from("https://b")),
        Some(String::from("/y")),
    )
    .unwrap();
    assert_eq!(url, "https://a/x");
}

#[test]
fn base_url_trailing_slashes_are_trimmed_before_endpoint() {
    let url = resolve_url(None, Some(String::from("https://b///")), Some(String::from("/y")))
        .unwrap();
    assert_eq!(url, "https://b/y");
}

#[test]
fn bare_base_url_and_bare_endpoint_are_used_as_given() {
    assert_eq!(resolve_url(None, Some(String::from("https://b/")), None).unwrap(), "https://b/");
    assert_eq!(resolve_url(None, None, Some(String::from("https://e"))).unwrap(), "https://e");
}

#[test]
fn missing_url_fails_before_any_network_work() {
    let err = resolve_url(None, None, None).unwrap_err();
    assert_eq!(err, "No URL provided. Pass 'url' or 'baseUrl' (optionally with 'endpoint')");
}
