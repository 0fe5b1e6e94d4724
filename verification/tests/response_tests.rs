use http_client::StatusCode;
use http_client::ValidResponse;
use http_client::ValidBuilder;
use http_client::builder::Builder;
use http_client::errors::Error;
use http_client::response::Response;

fn sample_request() -> http_client::request::Request {
    let mut b = Builder::new();
    b.host("example.com".to_string());
    b.path("/".to_string());
    b.build().unwrap()
}

#[test]
fn parse_recovers_status_headers_and_body() {
    let raw = "HTTP/1.1 200 OK\r\nContent-Type: text/html\r\nX-A: b\r\n\r\nhello";
    let resp = Response::from_raw(raw.to_string(), sample_request()).unwrap();
    assert_eq!(resp.status_code, StatusCode::OK);
    assert_eq!(resp.headers.get("Content-Type"), Some("text/html".to_string()));
    assert_eq!(resp.headers.get("X-A"), Some("b".to_string()));
    assert_eq!(resp.headers.len(), 2);
    assert_eq!(resp.body, "hello");
    assert_eq!(resp.raw_response, raw);
    assert_eq!(resp.request_used.host, "example.com");
}

#[test]
fn parse_without_headers_or_body() {
    let raw = "HTTP/1.1 204 No Content\r\n\r\n";
    let resp = Response::from_raw(raw.to_string(), sample_request()).unwrap();
    assert_eq!(resp.status_code, StatusCode::NoContent);
    assert_eq!(resp.headers.len(), 0);
    assert_eq!(resp.body, "");
}

#[test]
fn parse_body_keeps_later_blank_lines() {
    let raw = "HTTP/1.1 200 OK\r\nA: 1\r\n\r\nfirst\r\n\r\nsecond";
    let resp = Response::from_raw(raw.to_string(), sample_request()).unwrap();
    assert_eq!(resp.body, "first\r\n\r\nsecond");
}

#[test]
fn parse_duplicate_header_last_wins() {
    let raw = "HTTP/1.1 200 OK\r\nA: 1\r\nA: 2\r\n\r\n";
    let resp = Response::from_raw(raw.to_string(), sample_request()).unwrap();
    assert_eq!(resp.headers.get("A"), Some("2".to_string()));
    assert_eq!(resp.headers.len(), 1);
}

#[test]
fn parse_header_value_keeps_second_separator() {
    let raw = "HTTP/1.1 200 OK\r\nA: b: c\r\n\r\n";
    let resp = Response::from_raw(raw.to_string(), sample_request()).unwrap();
    assert_eq!(resp.headers.get("A"), Some("b: c".to_string()));
}

#[test]
fn parse_missing_separator_fails() {
    let raw = "HTTP/1.1 200 OK\r\nA: b";
    let err = Response::from_raw(raw.to_string(), sample_request()).unwrap_err();
    assert_eq!(err.message(), "malformed response: missing header/body separator");
}

#[test]
fn parse_status_line_without_space_fails() {
    let raw = "nospace\r\n\r\nbody";
    let err = Response::from_raw(raw.to_string(), sample_request()).unwrap_err();
    assert_eq!(err.message(), "malformed status line");
}

#[test]
fn parse_non_numeric_code_fails() {
    let raw = "HTTP/1.1 abc X\r\n\r\n";
    let err = Response::from_raw(raw.to_string(), sample_request()).unwrap_err();
    assert_eq!(err.message(), "invalid status code");
}

#[test]
fn parse_unknown_code_fails() {
    let raw = "HTTP/1.1 999 Strange\r\n\r\n";
    let err = Response::from_raw(raw.to_string(), sample_request()).unwrap_err();
    assert_eq!(err.message(), "unknown status code");
}

#[test]
fn parse_header_without_separator_fails() {
    let raw = "HTTP/1.1 200 OK\r\nbadheader\r\n\r\nx";
    let err = Response::from_raw(raw.to_string(), sample_request()).unwrap_err();
    assert_eq!(err.message(), "malformed header line");
}

#[test]
fn resend_request_matches_stored_copy() {
    let raw = "HTTP/1.1 200 OK\r\n\r\nok";
    let resp = Response::from_raw(raw.to_string(), sample_request()).unwrap();
    let again = resp.request_to_resend();
    assert_eq!(again.host, resp.request_used.host);
    assert_eq!(again.path, resp.request_used.path);
    assert_eq!(again.port, resp.request_used.port);
    assert_eq!(again.to_wire(), resp.request_used.to_wire());
    assert_eq!(resp.raw_text(), raw);
}

#[test]
fn status_code_mapping() {
    assert_eq!(StatusCode::from_u16(200), Some(StatusCode::OK));
    assert_eq!(StatusCode::from_u16(404), Some(StatusCode::NotFound));
    assert_eq!(StatusCode::from_u16(500), Some(StatusCode::InternalServerError));
    assert_eq!(StatusCode::from_u16(999), None);
    assert_eq!(StatusCode::OK.code(), 200);
    assert_eq!(StatusCode::ImATeapot.code(), 418);
}
