use reqev::request::{build_descriptor, build_domain, parse_request_type, KvPair, RequestType};

fn pairs(items: &[(&str, &str)]) -> Vec<KvPair> {
    let mut out = Vec::new();
    for (k, v) in items {
        out.push(KvPair { key: k.to_string(), value: v.to_string() });
    }
    out
}

#[test]
fn test_build_domain_simple() {
    let fqdn = build_domain("https://test.io", "/api/v1/1234");
    assert_eq!(fqdn, "https://test.io/api/v1/1234")
}

#[test]
fn test_set_headers() {
    let headers = pairs(&[("accept", "text/plain")]);
    let none = pairs(&[]);

    let desc = build_descriptor(RequestType::Get, "example.com", "/", &headers, &none);

    assert_eq!("true", desc.header_value("reqev").unwrap());
    assert_eq!("text/plain", desc.header_value("accept").unwrap());
}

#[test]
fn test_set_querystrings() {
    let entries = pairs(&[("limit", "10"), ("t", "year")]);
    let none = pairs(&[]);

    let desc = build_descriptor(RequestType::Get, "example.com", "/", &entries, &none);

    assert_eq!("10", desc.header_value("limit").unwrap());
    assert_eq!("year", desc.header_value("t").unwrap());
}

#[test]
fn test_query_strings_kept_in_order_with_duplicates() {
    let none = pairs(&[]);
    let query = pairs(&[("q", "1"), ("page", "2"), ("q", "3")]);

    let desc = build_descriptor(RequestType::Get, "example.com", "/search", &none, &query);

    assert_eq!(desc.query.len(), 3);
    assert_eq!(desc.query[0], KvPair { key: "q".to_string(), value: "1".to_string() });
    assert_eq!(desc.query[1], KvPair { key: "page".to_string(), value: "2".to_string() });
    assert_eq!(desc.query[2], KvPair { key: "q".to_string(), value: "3".to_string() });
}

#[test]
fn test_header_last_write_wins() {
    let headers = pairs(&[("a", "1"), ("a", "2")]);
    let none = pairs(&[]);

    let desc = build_descriptor(RequestType::Get, "example.com", "/", &headers, &none);

    assert_eq!("2", desc.header_value("a").unwrap());
}

#[test]
fn test_marker_header_present_without_configured_headers() {
    let none = pairs(&[]);

    let desc = build_descriptor(RequestType::Delete, "example.com", "/", &none, &none);

    assert_eq!("true", desc.header_value("reqev").unwrap());
    assert_eq!(desc.headers.len(), 1);
}

#[test]
fn test_url_is_literal_concatenation() {
    let none = pairs(&[]);

    let desc = build_descriptor(RequestType::Get, "example.com", "/v2/list.json", &none, &none);

    assert_eq!(desc.url, "https://example.com/v2/list.json");
}

#[test]
fn test_url_no_slash_deduplication() {
    let none = pairs(&[]);

    let desc = build_descriptor(RequestType::Get, "example.com/", "/x", &none, &none);

    assert_eq!(desc.url, "https://example.com//x");
}

#[test]
fn test_build_descriptor_deterministic() {
    let headers = pairs(&[("accept", "text/plain"), ("a", "1"), ("a", "2")]);
    let query = pairs(&[("q", "1"), ("q", "1")]);

    let first = build_descriptor(RequestType::Patch, "example.com", "/v1", &headers, &query);
    let second = build_descriptor(RequestType::Patch, "example.com", "/v1", &headers, &query);

    assert_eq!(first, second);
}

#[test]
fn test_parse_request_type_accepts_fixed_set() {
    assert_eq!(parse_request_type("get"), Some(RequestType::Get));
    assert_eq!(parse_request_type("put"), Some(RequestType::Put));
    assert_eq!(parse_request_type("post"), Some(RequestType::Post));
    assert_eq!(parse_request_type("patch"), Some(RequestType::Patch));
    assert_eq!(parse_request_type("delete"), Some(RequestType::Delete));
}

#[test]
fn test_parse_request_type_is_case_insensitive() {
    assert_eq!(parse_request_type("GET"), Some(RequestType::Get));
    assert_eq!(parse_request_type("GeT"), Some(RequestType::Get));
    assert_eq!(parse_request_type("Delete"), Some(RequestType::Delete));
    assert_eq!(parse_request_type("pAtCh"), Some(RequestType::Patch));
}

#[test]
fn test_parse_request_type_rejects_other_values() {
    assert_eq!(parse_request_type("bad test"), None);
    assert_eq!(parse_request_type("head"), None);
    assert_eq!(parse_request_type("gets"), None);
    assert_eq!(parse_request_type(""), None);
}

#[test]
fn test_request_type_tokens() {
    assert_eq!(RequestType::Get.token(), "get");
    assert_eq!(RequestType::Put.token(), "put");
    assert_eq!(RequestType::Post.token(), "post");
    assert_eq!(RequestType::Patch.token(), "patch");
    assert_eq!(RequestType::Delete.token(), "delete");
}
