use http_rs::http_version::HttpVersion;
use http_rs::request::{parse_chunked_body, parse_headers, parse_request, parse_request_line, Request, RequestBodyType};
use http_rs::request_method::RequestMethod;
use std::collections::HashMap;

static TEST_MESSAGE: &str =
    "POST /index.html HTTP/1.1\r\nContent-Type: text/plain\r\nContent-Length: 3\r\n\r\n123";

fn line_result(msg: &str) -> Result<(RequestMethod, String, HttpVersion, usize), ()> {
    parse_request_line(format!("{}\r\n\r\n", msg).as_bytes())
}

fn headers_result(msg: &str) -> bool {
    parse_headers(format!("{}\r\n\r\n", msg).as_bytes(), 0).is_err()
}

fn msg_result(msg: &str) -> Result<Request, ()> {
    parse_request(msg.as_bytes()).map(|v| v.0)
}

#[test]
fn err_with_invalid_method() {
    let result = line_result("GET123 /index.html HTTP/1.1");
    assert!(result.is_err());
}

#[test]
fn err_with_empty_url() {
    let result = line_result("GET  HTTP/1.1");
    assert!(result.is_err());
}

#[test]
fn err_with_invalid_http_version() {
    let result = line_result("GET /index.html HTTP/12.34");
    assert!(result.is_err());
}

#[test]
fn err_with_whitespace_after_http_version() {
    let result = line_result("GET /index.html HTTP/1.1 ");
    assert!(result.is_err());
}

#[test]
fn err_with_malformed_msg() {
    let result = line_result("GET/index.htmlHTTP/1.1");
    assert!(result.is_err());
}

#[test]
fn err_with_whitespace_before_header_name() {
    assert!(headers_result("Content-Type : text/html\r\n  Content-Length: 123"));
}

#[test]
fn err_with_whitespace_before_colon() {
    assert!(headers_result("Content-Type : text/html"));
}

#[test]
fn err_with_non_numeric_value_when_numeric_expected() {
    assert!(headers_result("Content-Length: text/html"));
}

#[test]
fn result_contains_request_line_info() {
    let result = msg_result(TEST_MESSAGE).unwrap();
    assert_eq!(result.method, RequestMethod::Post);
    assert_eq!(result.url, "/index.html");
    assert_eq!(result.version, HttpVersion::Http1_1);
}

#[test]
fn result_contains_headers() {
    let result = msg_result(TEST_MESSAGE).unwrap();
    let headers = HashMap::from([
        ("Content-Type".to_string(), "text/plain".to_string()),
        ("Content-Length".to_string(), "3".to_string()),
    ]);
    let got: HashMap<String, String> = result.headers.to_vec().into_iter().collect();
    assert_eq!(got, headers);
}

#[test]
fn leftover_bytes_copied_to_body() {
    let result = msg_result(TEST_MESSAGE);
    assert_eq!(result.unwrap().body, vec![b'1', b'2', b'3']);
}

#[test]
fn has_header_is_case_insensitive() {
    let result = msg_result(TEST_MESSAGE).unwrap();

    assert!(result.has_header("content-type", None));
    assert!(result.has_header("CONTENT-LENGTH", None));
}

#[test]
fn request_line_reports_where_headers_start() {
    let (method, url, version, next) = parse_request_line(b"GET /a HTTP/1.1\r\nHost: x\r\n\r\n").unwrap();
    assert_eq!(method, RequestMethod::Get);
    assert_eq!(url, "/a");
    assert_eq!(version, HttpVersion::Http1_1);
    assert_eq!(next, 17);
}

#[test]
fn rejects_other_http_versions() {
    assert!(parse_request(b"GET / HTTP/1.0\r\n\r\n").is_err());
    assert!(parse_request(b"GET / HTTP/2\r\n\r\n").is_err());
}

#[test]
fn rejects_lf_without_cr() {
    assert!(parse_request(b"GET / HTTP/1.1\nHost: x\r\n\r\n").is_err());
    assert!(parse_request(b"GET / HTTP/1.1\r\nHost: x\n\r\n").is_err());
}

#[test]
fn rejects_missing_empty_line() {
    assert!(parse_request(b"GET / HTTP/1.1\r\nHost: x\r\n").is_err());
}

#[test]
fn rejects_invalid_token_in_header_name() {
    assert!(parse_request(b"GET / HTTP/1.1\r\nHo(st: x\r\n\r\n").is_err());
    assert!(parse_request(b"GET / HTTP/1.1\r\n: x\r\n\r\n").is_err());
}

#[test]
fn rejects_lowercase_content_length_with_text() {
    assert!(parse_request(b"POST / HTTP/1.1\r\ncontent-length: abc\r\n\r\n").is_err());
}

#[test]
fn duplicate_header_overwrites_in_place() {
    let (req, complete) = parse_request(b"GET / HTTP/1.1\r\nA: 1\r\nB: 2\r\na: 3\r\n\r\n").unwrap();
    assert!(complete);
    assert_eq!(
        req.headers.to_vec(),
        vec![("A".to_string(), "3".to_string()), ("B".to_string(), "2".to_string())]
    );
    assert_eq!(req.get_header("a"), Some("3".to_string()));
}

#[test]
fn leading_whitespace_of_value_is_skipped() {
    let (req, _) = parse_request(b"GET / HTTP/1.1\r\nX: \t v \r\n\r\n").unwrap();
    assert_eq!(req.get_header("X"), Some("v ".to_string()));
}

#[test]
fn body_types() {
    let (req, _) = parse_request(b"GET / HTTP/1.1\r\n\r\n").unwrap();
    assert_eq!(req.body_type(), RequestBodyType::Empty);
    let (req, _) = parse_request(b"POST / HTTP/1.1\r\nContent-Length: 2\r\n\r\nab").unwrap();
    assert_eq!(req.body_type(), RequestBodyType::ContentLength);
    assert_eq!(req.content_length(), Some(2));
    let (req, _) = parse_request(b"POST / HTTP/1.1\r\nTransfer-Encoding: CHUNKED\r\n\r\n0\r\n\r\n").unwrap();
    assert_eq!(req.body_type(), RequestBodyType::TransferEncodingChunked);
}

#[test]
fn content_length_zero_is_complete_at_headers_end() {
    let (req, complete) = parse_request(b"POST / HTTP/1.1\r\nContent-Length: 0\r\n\r\n").unwrap();
    assert!(complete);
    assert!(req.body.is_empty());
}

#[test]
fn content_length_body_incomplete_then_over() {
    let (req, complete) = parse_request(b"POST / HTTP/1.1\r\nContent-Length: 5\r\n\r\nab").unwrap();
    assert!(!complete);
    assert_eq!(req.body, b"ab".to_vec());
    let (req, complete) = parse_request(b"POST / HTTP/1.1\r\nContent-Length: 1\r\n\r\nab").unwrap();
    assert!(!complete);
    assert_eq!(req.body.len(), 2);
}

#[test]
fn chunked_body_decodes_hex_sizes() {
    let (body, complete) = parse_chunked_body(b"a\r\n0123456789\r\n0\r\n\r\n".to_vec()).unwrap();
    assert!(complete);
    assert_eq!(body, b"0123456789".to_vec());
}

#[test]
fn chunked_body_partial_reports_incomplete() {
    let (body, complete) = parse_chunked_body(b"3\r\n123\r\n5\r\n45".to_vec()).unwrap();
    assert!(!complete);
    assert_eq!(body, b"123".to_vec());
    let (body, complete) = parse_chunked_body(b"3\r\n123\r\n".to_vec()).unwrap();
    assert!(!complete);
    assert_eq!(body, b"123".to_vec());
}

#[test]
fn chunked_body_size_mismatch_is_error() {
    assert!(parse_chunked_body(b"3\r\n1234\r\n0\r\n\r\n".to_vec()).is_err());
    assert!(parse_chunked_body(b"zz\r\n12\r\n".to_vec()).is_err());
    assert!(parse_chunked_body(b"3\n123\r\n".to_vec()).is_err());
}

#[test]
fn request_as_bytes_writes_request() {
    let (req, _) = parse_request(TEST_MESSAGE.as_bytes()).unwrap();
    assert_eq!(req.as_bytes(), TEST_MESSAGE.as_bytes().to_vec());
}
