use http_client::ValidBuilder;
use http_client::builder::Builder;
use http_client::errors::Error;

#[test]
fn uri_host_only() {
    let mut b = Builder::new();
    b.uri("http://example.com".to_string());
    assert_eq!(b.host, Some("example.com".to_string()));
    assert_eq!(b.path, Some("/".to_string()));
    assert_eq!(b.port, Some(80));
    assert!(!b.uri_error);
}

#[test]
fn uri_host_and_empty_path() {
    let mut b = Builder::new();
    b.uri("http://example.com/".to_string());
    assert_eq!(b.host, Some("example.com".to_string()));
    assert_eq!(b.path, Some("/".to_string()));
    assert_eq!(b.port, Some(80));
}

#[test]
fn uri_host_and_path() {
    let mut b = Builder::new();
    b.uri("http://example.com/some/deep/path".to_string());
    assert_eq!(b.host, Some("example.com".to_string()));
    assert_eq!(b.path, Some("/some/deep/path".to_string()));
    assert_eq!(b.port, Some(80));
}

#[test]
fn uri_host_path_and_port() {
    let mut b = Builder::new();
    b.uri("http://example.com/path:8080".to_string());
    assert_eq!(b.host, Some("example.com".to_string()));
    assert_eq!(b.path, Some("/path".to_string()));
    assert_eq!(b.port, Some(8080));
}

#[test]
fn uri_keeps_query_string_in_path() {
    let mut b = Builder::new();
    b.uri("http://httpbin.org/post?name=bob".to_string());
    assert_eq!(b.host, Some("httpbin.org".to_string()));
    assert_eq!(b.path, Some("/post?name=bob".to_string()));
    assert_eq!(b.port, Some(80));
}

#[test]
fn uri_without_scheme() {
    let mut b = Builder::new();
    b.uri("example.com/x".to_string());
    assert_eq!(b.host, Some("example.com".to_string()));
    assert_eq!(b.path, Some("/x".to_string()));
}

#[test]
fn uri_does_not_touch_method_headers_body() {
    let mut b = Builder::new();
    b.method("POST".to_string());
    b.body("a=1".to_string());
    b.header("X-Test".to_string(), "v".to_string());
    b.uri("http://example.com/p".to_string());
    assert_eq!(b.method, Some("POST".to_string()));
    assert_eq!(b.body, Some("a=1".to_string()));
    assert_eq!(b.headers.get("X-Test"), Some("v".to_string()));
}

#[test]
fn uri_bad_port_marks_builder() {
    let mut b = Builder::new();
    b.uri("http://example.com/path:notanumber".to_string());
    assert!(b.uri_error);
    let err = b.build().unwrap_err();
    assert_eq!(err.message(), "invalid port in uri");
}

#[test]
fn uri_oversized_port_marks_builder() {
    let mut b = Builder::new();
    b.uri("http://example.com/path:99999".to_string());
    assert!(b.uri_error);
    assert_eq!(b.port, Some(80));
    let err = b.build().unwrap_err();
    assert_eq!(err.message(), "invalid port in uri");
}

#[test]
fn uri_good_port_clears_mark() {
    let mut b = Builder::new();
    b.uri("http://example.com/path:bad".to_string());
    assert!(b.uri_error);
    b.uri("http://example.com/path:8080".to_string());
    assert!(!b.uri_error);
    assert_eq!(b.port, Some(8080));
}

#[test]
fn build_without_host_mentions_host() {
    let b = Builder::new();
    let err = b.build().unwrap_err();
    assert_eq!(err.message(), "host is required");
    assert!(err.message().contains("host"));
}

#[test]
fn build_without_path_mentions_path() {
    let mut b = Builder::new();
    b.host("example.com".to_string());
    let err = b.build().unwrap_err();
    assert_eq!(err.message(), "path is required");
}

#[test]
fn build_without_method_mentions_method() {
    let mut b = Builder::new();
    b.host("example.com".to_string());
    b.path("/".to_string());
    b.method = None;
    let err = b.build().unwrap_err();
    assert_eq!(err.message(), "method is required");
}

#[test]
fn build_with_emptied_headers_mentions_headers() {
    let mut b = Builder::new();
    b.host("example.com".to_string());
    b.path("/".to_string());
    b.headers.remove("Connection");
    assert_eq!(b.headers.len(), 0);
    let err = b.build().unwrap_err();
    assert_eq!(err.message(), "headers are required");
}

#[test]
fn remove_header_closes_gap_and_keeps_others() {
    let mut b = Builder::new();
    b.header("A".to_string(), "1".to_string());
    b.header("B".to_string(), "2".to_string());
    b.headers.remove("A");
    assert_eq!(b.headers.len(), 2);
    assert_eq!(b.headers.get("A"), None);
    assert_eq!(b.headers.get("B"), Some("2".to_string()));
    b.headers.remove("NotThere");
    assert_eq!(b.headers.len(), 2);
}

#[test]
fn build_defaults_when_only_host_and_path_set() {
    let mut b = Builder::new();
    b.host("example.com".to_string());
    b.path("/".to_string());
    let req = b.build().unwrap();
    assert_eq!(req.body, "");
    assert_eq!(req.method, "GET");
    assert_eq!(req.http_version, "1.1");
    assert_eq!(req.port, 80);
    assert_eq!(req.headers.get("Connection"), Some("close".to_string()));
    assert_eq!(req.headers.len(), 1);
}

#[test]
fn build_does_not_consume_builder() {
    let mut b = Builder::new();
    b.host("example.com".to_string());
    b.path("/".to_string());
    let first = b.build().unwrap();
    let second = b.build().unwrap();
    assert_eq!(first.host, second.host);
    assert_eq!(first.path, second.path);
}

#[test]
fn header_upsert_keeps_latest_value() {
    let mut b = Builder::new();
    b.header("X-K".to_string(), "first".to_string());
    b.header("X-K".to_string(), "second".to_string());
    assert_eq!(b.headers.get("X-K"), Some("second".to_string()));
    assert_eq!(b.headers.len(), 2);
    b.host("example.com".to_string());
    b.path("/".to_string());
    let req = b.build().unwrap();
    assert_eq!(req.headers.get("X-K"), Some("second".to_string()));
}

#[test]
fn header_upsert_keeps_position() {
    let mut b = Builder::new();
    b.header("A".to_string(), "1".to_string());
    b.header("B".to_string(), "2".to_string());
    b.header("A".to_string(), "3".to_string());
    assert_eq!(b.headers.key_at(0).as_str(), "Connection");
    assert_eq!(b.headers.key_at(1).as_str(), "A");
    assert_eq!(b.headers.value_at(1).as_str(), "3");
    assert_eq!(b.headers.key_at(2).as_str(), "B");
}

#[test]
fn setters_overwrite_fields() {
    let mut b = Builder::new();
    b.host("a".to_string());
    b.host("b".to_string());
    b.port(99);
    b.http_version("1.0".to_string());
    b.method("PUT".to_string());
    b.path("/x".to_string());
    b.body("data".to_string());
    assert_eq!(b.host, Some("b".to_string()));
    assert_eq!(b.port, Some(99));
    assert_eq!(b.http_version, Some("1.0".to_string()));
    assert_eq!(b.method, Some("PUT".to_string()));
    assert_eq!(b.path, Some("/x".to_string()));
    assert_eq!(b.body, Some("data".to_string()));
}
