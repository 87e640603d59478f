use http_rs::header::Headers;
use http_rs::http_version::HttpVersion;
use http_rs::request::Request;
use http_rs::request_method::RequestMethod;
use http_rs::response_status_code::ResponseStatusCode;
use http_rs::server::{handler_or_not_found, content_response, content_response_with_mime, error_response, options_response, prepare_response, serve_content};
use http_rs::server_config::KeepAliveConfig;

fn get_request(method: RequestMethod, url: &str) -> Request {
    Request {
        method,
        url: url.to_string(),
        version: HttpVersion::Http1_1,
        headers: Headers::new(),
        body: vec![],
    }
}

fn get_default_request(method: RequestMethod) -> Request {
    get_request(method, "/index.html")
}

fn accept_request(accept: &str) -> Request {
    let mut headers = Headers::new();
    headers.add("Accept", accept);
    Request {
        method: RequestMethod::Get,
        url: "/".to_string(),
        version: HttpVersion::Http1_1,
        headers,
        body: vec![],
    }
}

fn options_request(url: &str) -> Request {
    get_request(RequestMethod::Options, url)
}

#[test]
fn adds_content_type_header() {
    for (url, content_type) in [
        ("/index.html", "text/html; charset=utf-8"),
        ("/123", "application/octet-stream"),
    ] {
        let request = get_request(RequestMethod::Get, url);
        let response = content_response(&request, vec![], KeepAliveConfig::Off);

        assert_eq!(response.headers().get("Content-Type"), Some(content_type.to_string()));
    }
}

#[test]
fn adds_content_length_header() {
    let request = get_default_request(RequestMethod::Head);
    let content_bytes = vec![b'1', b'2', b'3'];
    let response = content_response(&request, content_bytes.clone(), KeepAliveConfig::Off);

    assert_eq!(response.headers().get("Content-Length"), Some(content_bytes.len().to_string()));
}

#[test]
fn does_not_add_keep_alive_header_with_keep_alive_disabled() {
    let request = get_default_request(RequestMethod::Get);
    let response = content_response(&request, vec![], KeepAliveConfig::Off);

    assert!(response.headers().get("Keep-Alive").is_none());
}

#[test]
fn does_not_add_keep_alive_header_with_keep_alive_include_header_false() {
    let request = get_default_request(RequestMethod::Get);
    let timeout = 123;
    let max_requests = 231;
    let response = content_response(
        &request,
        vec![],
        KeepAliveConfig::On { timeout, max_requests, include_header: false },
    );

    assert!(response.headers().get("Keep-Alive").is_none());
}

#[test]
fn adds_keep_alive_header_with_keep_alive_include_header_true() {
    let request = get_default_request(RequestMethod::Get);
    let timeout = 123;
    let max_requests = 231;
    let response = content_response(
        &request,
        vec![],
        KeepAliveConfig::On { timeout, max_requests, include_header: true },
    );

    assert_eq!(
        response.headers().get("Keep-Alive").unwrap(),
        format!("timeout={timeout}, max={max_requests}")
    );
}

#[test]
fn has_body_for_get_request() {
    let request = get_default_request(RequestMethod::Get);
    let response = content_response(&request, vec![b'1', b'2', b'3'], KeepAliveConfig::Off);

    assert!(!response.body().is_empty());
}

#[test]
fn has_no_body_for_non_get_request() {
    let request = get_default_request(RequestMethod::Post);
    let response = content_response(&request, vec![b'1', b'2', b'3'], KeepAliveConfig::Off);

    assert!(response.body().is_empty());
}

#[test]
fn empty_body_with_no_request() {
    let response = error_response(None, ResponseStatusCode::NotFound);

    assert!(response.body().is_empty());
    assert_eq!(response.headers().get("Content-Length"), None);
}

#[test]
fn empty_body_if_does_not_accept_html() {
    for accept in ["text/javascript", "image/webp", "application/json, application/xml"] {
        let response = error_response(Some(&accept_request(accept)), ResponseStatusCode::NotFound);

        assert!(response.body().is_empty());
        assert_eq!(response.headers().get("Content-Length"), None);
    }
}

#[test]
fn default_html_in_body_if_accepts_html() {
    for accept in ["*/*", "text/html", "application/json, text/*"] {
        let response = error_response(Some(&accept_request(accept)), ResponseStatusCode::NotFound);

        assert!(!response.body().is_empty());
        assert!(response.headers().get("Content-Length").is_some());
    }
}

#[test]
fn has_204_status_code() {
    let response = options_response(&options_request("/"));

    assert_eq!(response.status_code(), &ResponseStatusCode::NoContent);
}

#[test]
fn has_empty_body() {
    let response = options_response(&options_request("/"));

    assert_eq!(response.body().len(), 0);
}

#[test]
fn sets_allow_header_for_non_star_url() {
    let response = options_response(&options_request("/a/b/index.html"));

    assert_eq!(response.headers().get("Allow"), Some(RequestMethod::safe_methods_str()));
}

#[test]
fn does_not_set_allow_header_for_star_url() {
    let response = options_response(&options_request("*"));

    assert_eq!(response.headers().get("Allow"), None);
}

#[test]
fn error_page_holds_code_and_reason() {
    let response = error_response(Some(&accept_request("text/html")), ResponseStatusCode::NotFound);
    assert_eq!(
        response.body().clone(),
        b"<html><body><h1 style='text-align: center'>404 Not Found</h1></body></html>".to_vec()
    );
    assert_eq!(response.headers().get("Content-Type"), Some("text/html; charset=utf-8".to_string()));
    assert_eq!(response.headers().get("Content-Length"), Some("75".to_string()));
}

#[test]
fn safe_methods_are_listed() {
    assert_eq!(RequestMethod::safe_methods_str(), "GET, HEAD, OPTIONS");
    assert!(RequestMethod::Head.is_safe());
    assert!(!RequestMethod::Delete.is_safe());
}

#[test]
fn mime_without_text_type_gets_no_charset() {
    let response = content_response_with_mime(RequestMethod::Get, vec![1], Some("image/png".to_string()), KeepAliveConfig::Off);
    assert_eq!(response.headers().get("Content-Type"), Some("image/png".to_string()));
    let response = content_response_with_mime(RequestMethod::Get, vec![1], Some("text/css".to_string()), KeepAliveConfig::Off);
    assert_eq!(response.headers().get("Content-Type"), Some("text/css; charset=utf-8".to_string()));
    let response = content_response_with_mime(RequestMethod::Get, vec![1], None, KeepAliveConfig::Off);
    assert_eq!(response.headers().get("Content-Type"), Some("application/octet-stream".to_string()));
}

#[test]
fn unsafe_method_on_content_is_405_with_allow() {
    let request = get_default_request(RequestMethod::Delete);
    let response = serve_content(&request, Some(vec![1, 2]), KeepAliveConfig::Off).unwrap();
    assert_eq!(response.status_code(), &ResponseStatusCode::MethodNotAllowed);
    assert_eq!(response.headers().get("Allow"), Some("GET, HEAD, OPTIONS".to_string()));
}

#[test]
fn options_on_content_path_gets_allow() {
    let request = options_request("/index.html");
    let response = serve_content(&request, Some(vec![1]), KeepAliveConfig::Off).unwrap();
    assert_eq!(response.status_code(), &ResponseStatusCode::NoContent);
    assert_eq!(response.headers().get("Allow"), Some("GET, HEAD, OPTIONS".to_string()));
}

#[test]
fn options_star_is_answered_without_content() {
    let request = options_request("*");
    let response = prepare_response(&request, None, KeepAliveConfig::Off).unwrap();
    assert_eq!(response.status_code(), &ResponseStatusCode::NoContent);
    assert_eq!(response.headers().len(), 0);
}

#[test]
fn missing_content_is_left_to_the_caller() {
    let request = get_default_request(RequestMethod::Get);
    assert!(prepare_response(&request, None, KeepAliveConfig::Off).is_none());
}

#[test]
fn no_file_and_no_handler_is_404() {
    let request = get_default_request(RequestMethod::Get);
    let response = handler_or_not_found(&request, None);
    assert_eq!(response.status_code(), &ResponseStatusCode::NotFound);
    let handled = http_rs::response::Response::builder().text_body("x").get();
    let response = handler_or_not_found(&request, Some(handled));
    assert_eq!(response.status_code(), &ResponseStatusCode::Okay);
}
