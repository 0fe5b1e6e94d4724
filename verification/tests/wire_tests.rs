use http_client::ValidBuilder;
use http_client::builder::Builder;
use http_client::errors::Error;

#[test]
fn wire_exact_minimal_request() {
    let mut b = Builder::new();
    b.host("h".to_string());
    b.path("/".to_string());
    let req = b.build().unwrap();
    let wire = req.to_wire();
    assert_eq!(
        wire,
        "GET / HTTP/1.1\r\nHost: h\r\nConnection: close\r\nContent-Length: 0\r\n\r\n"
    );
}

#[test]
fn wire_injects_content_length_of_body() {
    let mut b = Builder::new();
    b.host("example.com".to_string());
    b.path("/submit".to_string());
    b.method("POST".to_string());
    b.body("a=1".to_string());
    let req = b.build().unwrap();
    let wire = req.to_wire();
    assert!(wire.contains("Content-Length: 3\r\n"));
    assert!(wire.ends_with("\r\n\r\na=1"));
    assert!(!req.headers.contains_key("Content-Length"));
}

#[test]
fn wire_respects_caller_content_length() {
    let mut b = Builder::new();
    b.host("example.com".to_string());
    b.path("/".to_string());
    b.body("a=1".to_string());
    b.header("Content-Length".to_string(), "99".to_string());
    let req = b.build().unwrap();
    let wire = req.to_wire();
    assert!(wire.contains("Content-Length: 99\r\n"));
    assert!(!wire.contains("Content-Length: 3"));
}

#[test]
fn wire_content_length_counts_bytes() {
    let mut b = Builder::new();
    b.host("example.com".to_string());
    b.path("/".to_string());
    b.body("\u{00e9}".to_string());
    let req = b.build().unwrap();
    let wire = req.to_wire();
    assert!(wire.contains("Content-Length: 2\r\n"));
}

#[test]
fn wire_headers_in_insertion_order() {
    let mut b = Builder::new();
    b.host("h".to_string());
    b.path("/".to_string());
    b.header("A".to_string(), "1".to_string());
    b.header("B".to_string(), "2".to_string());
    let req = b.build().unwrap();
    let wire = req.to_wire();
    let a = wire.find("A: 1").unwrap();
    let bpos = wire.find("B: 2").unwrap();
    let c = wire.find("Connection: close").unwrap();
    assert!(c < a && a < bpos);
}

#[test]
fn end_to_end_build_and_serialize() {
    let mut b = Builder::new();
    b.uri("http://example.com/path:8080".to_string());
    b.method("POST".to_string());
    b.body("a=1".to_string());
    b.header("X-Test".to_string(), "v".to_string());
    let req = b.build().unwrap();
    assert_eq!(req.host, "example.com");
    assert_eq!(req.path, "/path");
    assert_eq!(req.port, 8080);
    assert_eq!(req.method, "POST");
    assert_eq!(req.headers.get("X-Test"), Some("v".to_string()));
    assert_eq!(req.headers.get("Connection"), Some("close".to_string()));
    let wire = req.to_wire();
    assert!(wire.starts_with("POST /path HTTP/1.1\r\nHost: example.com\r\n"));
    assert!(wire.contains("X-Test: v\r\n"));
    assert!(wire.contains("Connection: close\r\n"));
    assert!(wire.contains("Content-Length: 3\r\n"));
}

#[test]
fn request_error_message_carries_prefix() {
    let mut b = Builder::new();
    b.host("h".to_string());
    b.path("/".to_string());
    let req = b.build().unwrap();
    let err = req.fail("could not connect to server");
    assert_eq!(err.message(), "RequestError: could not connect to server");
}

#[test]
fn request_duplicate_matches_its_source() {
    let mut b = Builder::new();
    b.host("h".to_string());
    b.path("/p".to_string());
    b.header("A".to_string(), "1".to_string());
    let req = b.build().unwrap();
    let copy = req.duplicate();
    assert_eq!(copy.host, req.host);
    assert_eq!(copy.path, req.path);
    assert_eq!(copy.port, req.port);
    assert_eq!(copy.headers.get("A"), Some("1".to_string()));
    assert_eq!(copy.to_wire(), req.to_wire());
}
