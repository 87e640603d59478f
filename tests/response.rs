use http_rs::response::{Response, ResponseBuilder};
use http_rs::response_status_code::ResponseStatusCode;

#[test]
fn correct_as_bytes_representation() {
    let response = Response::builder()
        .status_code(ResponseStatusCode::Okay)
        .header("Content-Type", "text/plain")
        .body(vec![b'1', b'2', b'3'])
        .get();
    let bytes = response.as_bytes();
    let response_str = std::str::from_utf8(&bytes).unwrap();

    let mut found_body = false;
    for (index, line) in response_str.split("\r\n").enumerate() {
        if index == 0 {
            assert_eq!(line, "HTTP/1.1 200 OK");
        } else if !found_body {
            if line.is_empty() {
                found_body = true;
                continue;
            }
            assert!(matches!(line, "Content-Type: text/plain" | "Content-Length: 3"));
        } else {
            assert_eq!(line, "123");
        }
    }
}

#[test]
fn serializes_exactly() {
    let response = ResponseBuilder::new()
        .status_code(ResponseStatusCode::NotFound)
        .header("A", "b")
        .text_body("hi")
        .get();
    assert_eq!(
        response.as_bytes(),
        b"HTTP/1.1 404 Not Found\r\nA: b\r\nContent-Length: 2\r\n\r\nhi".to_vec()
    );
}

#[test]
fn empty_body_gets_no_content_length() {
    let response = Response::builder().get();
    assert_eq!(response.headers().get("Content-Length"), None);
    assert_eq!(response.as_bytes(), b"HTTP/1.1 200 OK\r\n\r\n".to_vec());
}

#[test]
fn declared_length_is_replaced_by_body_length() {
    let response = Response::builder().header("content-length", "7").text_body("abc").get();
    assert_eq!(response.headers().get("Content-Length"), Some("3".to_string()));
    assert_eq!(response.headers().len(), 1);
}

#[test]
fn set_header_replaces_case_insensitively() {
    let mut response = Response::builder().header("X-A", "1").get();
    response.set_header("x-a", "2");
    assert_eq!(response.headers().to_vec(), vec![("X-A".to_string(), "2".to_string())]);
    response.set_status_code(ResponseStatusCode::ImATeapot);
    assert_eq!(response.status_code(), &ResponseStatusCode::ImATeapot);
    response.set_body(vec![1]);
    assert_eq!(response.body(), &vec![1u8]);
}

#[test]
fn status_codes_numbers_and_reasons() {
    assert_eq!(ResponseStatusCode::try_from_code(301), Some(ResponseStatusCode::MovedPermanently));
    assert_eq!(ResponseStatusCode::try_from_code(299), None);
    assert_eq!(ResponseStatusCode::RequestTimeout.as_bytes(), b"408 Request Timeout".to_vec());
    assert_eq!(ResponseStatusCode::HttpVersionNotSupported.code(), 505);
    assert!(ResponseStatusCode::Found.is_redirect());
    assert!(!ResponseStatusCode::NotModified.is_error());
    assert!(ResponseStatusCode::BadGateway.is_error());
    assert_eq!(ResponseStatusCode::ImATeapot.reason(), "I'm a teapot");
}

#[test]
fn wrong_preset_length_is_corrected() {
    let response = Response::builder().header("Content-Length", "5").body(vec![1]).get();
    assert_eq!(response.headers().get("Content-Length"), Some("1".to_string()));
    assert_eq!(response.body(), &vec![1u8]);
}
