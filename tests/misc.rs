use http_rs::header::{is_header_valid, Headers};
use http_rs::http_version::HttpVersion;
use http_rs::request::parse_request;
use http_rs::rules::lexer::{Position, RuleToken, RuleTokenKind};
use http_rs::rules::object::{Callable, Member, MemberKind, Object};
use http_rs::rules::scope::RuleScope;
use http_rs::rules::value::{Type, Value};
use http_rs::server_config::{KeepAliveConfig, ServerConfig, ServerConfigBuilder};
use http_rs::text::{parse_decimal, parse_hex, usize_to_string};
use http_rs::token::is_valid_token;

#[test]
fn config_builder_and_defaults() {
    let config = ServerConfigBuilder::new()
        .root("test_files")
        .port(8080)
        .https(true)
        .cert_path("c.crt")
        .key_path("k.key")
        .keep_alive(KeepAliveConfig::Off)
        .timeout(3)
        .rules_path("rules.txt")
        .get();
    assert_eq!(config.root, "test_files");
    assert_eq!(config.port, 8080);
    assert!(config.https);
    assert_eq!(config.cert_path.as_deref(), Some("c.crt"));
    assert_eq!(config.key_path.as_deref(), Some("k.key"));
    assert!(config.keep_alive == KeepAliveConfig::Off);
    assert_eq!(config.read_timeout(), 3);
    assert_eq!(config.rules_path.as_deref(), Some("rules.txt"));

    let d = ServerConfig::default();
    assert_eq!(d.root, "web");
    assert_eq!(d.port, 80);
    assert!(!d.https);
    assert_eq!(d.read_timeout(), 10);
    assert!(KeepAliveConfig::default() == KeepAliveConfig::On { max_requests: 100, timeout: 10, include_header: true });
}

#[test]
fn tokens_and_header_names() {
    assert!(is_valid_token("X-Custom_Header.1~"));
    assert!(!is_valid_token("Bad Header"));
    assert!(!is_valid_token("a:b"));
    assert!(!is_valid_token("ünï"));
    assert!(is_header_valid("Content-Length", "12"));
    assert!(!is_header_valid("CONTENT-LENGTH", "-1"));
    assert!(!is_header_valid("", "x"));
    assert!(is_header_valid("Host", "anything at all"));
}

#[test]
fn number_parsing_and_printing() {
    assert_eq!(parse_decimal(b"0"), Some(0));
    assert_eq!(parse_decimal(b"18446744073709551615"), Some(usize::MAX));
    assert_eq!(parse_decimal(b"18446744073709551616"), None);
    assert_eq!(parse_decimal(b"+5"), None);
    assert_eq!(parse_decimal(b""), None);
    assert_eq!(parse_hex(b"fF"), Some(255));
    assert_eq!(parse_hex(b"g"), None);
    assert_eq!(usize_to_string(0), "0");
    assert_eq!(usize_to_string(1234567), "1234567");
}

#[test]
fn invalid_utf8_in_target_is_rejected() {
    assert!(parse_request(b"GET /\xff HTTP/1.1\r\n\r\n").is_err());
    assert!(parse_request(b"GET / HTTP/1.1\r\nX: \xc3\x28\r\n\r\n").is_err());
    let (req, _) = parse_request("GET /caf\u{e9} HTTP/1.1\r\n\r\n".as_bytes()).unwrap();
    assert_eq!(req.url, "/caf\u{e9}");
}

#[test]
fn version_and_token_helpers() {
    assert_eq!(HttpVersion::Http1_1.as_bytes(), b"HTTP/1.1".to_vec());
    assert_eq!(HttpVersion::Http2.as_bytes(), b"HTTP/2".to_vec());
    assert_eq!(HttpVersion::from_bytes(b"HTTP/1.0"), Some(HttpVersion::Http1_0));
    assert_eq!(RuleTokenKind::LitStr("abc".into()).len(), 5);
    assert_eq!(RuleTokenKind::Redirect.len(), 8);
    assert!(RuleTokenKind::LitInt("1".into()).is_lit());
    assert!(!RuleTokenKind::Ident("a".into()).is_lit());
    assert_eq!(RuleToken::eof().kind, RuleTokenKind::Eof);
    let a = Position { line: 2, column: 4, len: 3 };
    let b = Position { line: 3, column: 1, len: 5 };
    assert_eq!(Position::sum(&[a, b]), Position { line: 2, column: 4, len: 6 });
    assert_eq!(Position::sum(&[]), Position::zero());
    assert_eq!(a.with_len(9).len, 9);
}

#[test]
fn scope_and_values() {
    let mut scope = RuleScope::new();
    assert!(scope.get_var("x").is_none());
    scope.update_var("x", Type::Int(1));
    scope.update_var("x", Type::Bool(true));
    assert!(matches!(scope.get_var("x"), Some(Type::Bool(true))));
    let v = Value::new(Type::String("s".into()), Position { line: 1, column: 2, len: 3 });
    assert_eq!(v.position().column, 2);
    assert_eq!(v.t().type_string(), "string");
    assert!(v.t().equals(&Type::String("s".into())));
    assert!(!Type::Int(1).equals(&Type::Bool(true)));
    assert!(matches!(v.take_t(), Type::String(ref s) if s == "s"));
    assert_eq!(Type::Function(Callable::Log).type_string(), "callable");
}

#[test]
fn members_of_objects() {
    let req = Object::request();
    let member = req.get_member("method").unwrap();
    assert_eq!(member, Member::field(Callable::RequestMethod));
    assert_eq!(member.kind, MemberKind::Field);
    let request = parse_request(b"DELETE /x HTTP/1.1\r\n\r\n").unwrap().0;
    let mut response = http_rs::response::Response::builder().get();
    let got = member.eval(&vec![Value::new(Type::Object(req), Position::zero())], &request, &mut response);
    assert!(matches!(got, Ok(Type::String(ref s)) if s == "DELETE"));
    assert_eq!(Object::response().get_field("set_header"), None);
    let mut headers = Headers::new();
    headers.add("a", "1");
    assert!(headers.has("A", Some("1")));
    assert!(!headers.has("A", Some("2")));
    assert_eq!(headers.name_at(0), "a");
    assert_eq!(headers.value_at(0), "1");
}
