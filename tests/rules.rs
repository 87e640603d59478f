use http_rs::header::Headers;
use http_rs::http_version::HttpVersion;
use http_rs::request::Request;
use http_rs::request_method::RequestMethod;
use http_rs::response::Response;
use http_rs::response_status_code::ResponseStatusCode;
use http_rs::rules::error::{format_error_in_file, RuleErrorKind, RuntimeErrorKind, SemanticErrorKind, SyntaxErrorKind};
use http_rs::rules::expr::call;
use http_rs::rules::grammar::expr;
use http_rs::rules::lexer::{tokenize, Position, RuleTokenKind};
use http_rs::rules::object::Object;
use http_rs::rules::parser::parse_str;
use http_rs::rules::rule::RuleEvaluationResult;
use http_rs::rules::value::{Type, Value};
use http_rs::server::apply_rules;

fn request(method: RequestMethod, url: &str) -> Request {
    Request {
        method,
        url: url.to_string(),
        version: HttpVersion::Http1_1,
        headers: Headers::new(),
        body: vec![],
    }
}

#[test]
fn base_test() {
    let tokens = tokenize(
        r#"
            matches /index.html {
                set_header("Server", "http-rs");
                abc == 123;

                if method == "POST" {
                    return 400;
                }

                request.method;
                response.set_header();

                return 301 "/index2.html";
            }
        "#,
    )
    .unwrap();

    let expected_tokens = vec![
        RuleTokenKind::Matches,
        RuleTokenKind::LitStr("/index.html".into()),
        RuleTokenKind::LBrace,
        RuleTokenKind::Ident("set_header".into()),
        RuleTokenKind::LParen,
        RuleTokenKind::LitStr("Server".into()),
        RuleTokenKind::Comma,
        RuleTokenKind::LitStr("http-rs".into()),
        RuleTokenKind::RParen,
        RuleTokenKind::Semicolon,
        RuleTokenKind::Ident("abc".into()),
        RuleTokenKind::Eq,
        RuleTokenKind::LitInt("123".into()),
        RuleTokenKind::Semicolon,
        RuleTokenKind::If,
        RuleTokenKind::Ident("method".into()),
        RuleTokenKind::Eq,
        RuleTokenKind::LitStr("POST".into()),
        RuleTokenKind::LBrace,
        RuleTokenKind::Return,
        RuleTokenKind::LitInt("400".into()),
        RuleTokenKind::Semicolon,
        RuleTokenKind::RBrace,
        RuleTokenKind::Ident("request".into()),
        RuleTokenKind::Dot,
        RuleTokenKind::Ident("method".into()),
        RuleTokenKind::Semicolon,
        RuleTokenKind::Ident("response".into()),
        RuleTokenKind::Dot,
        RuleTokenKind::Ident("set_header".into()),
        RuleTokenKind::LParen,
        RuleTokenKind::RParen,
        RuleTokenKind::Semicolon,
        RuleTokenKind::Return,
        RuleTokenKind::LitInt("301".into()),
        RuleTokenKind::LitStr("/index2.html".into()),
        RuleTokenKind::Semicolon,
        RuleTokenKind::RBrace,
    ];

    for (index, token) in tokens.iter().enumerate() {
        let expected = expected_tokens.get(index).unwrap_or(&RuleTokenKind::Eof);
        println!("expected: {expected:?}, got: {token:?}");
        assert_eq!(&token.kind, expected);
    }
}

#[test]
fn err_on_invalid_int() {
    let tokens = tokenize("34rioewj");

    assert!(tokens.is_err())
}

#[test]
fn err_on_unterminated_string() {
    let tokens = tokenize("return 301 \"/index.html");

    assert!(tokens.is_err());
}

#[test]
fn grammar_test() {
    let src = "abc == 123 && x != \"string\" || (a == 1 && b == 2) || (a || b)";
    let tokens = tokenize(src).unwrap();
    let mut pos = 0;
    let res = expr(&tokens, &mut pos);
    println!("{:#?}", res.unwrap());
    assert_eq!(pos, tokens.len());
}

#[test]
fn object2_test() {
    let req = request(RequestMethod::Get, "/");
    let mut response = Response::builder().get();

    let obj = Object::request();
    let method = obj.get_field("method").unwrap();
    match call(method.callable, &vec![Value::new(Type::Object(obj), Position::zero())], &req, &mut response) {
        Ok(Type::String(s)) => assert_eq!(s, "GET"),
        _ => panic!("method is a string"),
    }

    let obj2 = Object::response();
    let set_header = obj2.get_method("set_header").unwrap();
    let args = vec![
        Value::new(Type::Object(obj2), Position::zero()),
        Value::new(Type::String("server".to_owned()), Position::zero()),
        Value::new(Type::String("http-rs".to_owned()), Position::zero()),
    ];
    assert!(matches!(call(set_header.callable, &args, &req, &mut response), Ok(Type::Bool(true))));
    assert_eq!(response.headers().get("Server"), Some("http-rs".to_string()));
    assert!(obj.get_method("method").is_none());
    assert!(obj2.get_member("nothing").is_none());
}

#[test]
fn token_positions_and_lengths() {
    let tokens = tokenize("matches /a {\n  return 404 \"x\";\n}").unwrap();
    assert_eq!(tokens[0].position, Position { line: 1, column: 1, len: 7 });
    assert_eq!(tokens[1].position, Position { line: 1, column: 9, len: 0 });
    assert_eq!(tokens[3].position, Position { line: 2, column: 3, len: 6 });
    assert_eq!(tokens[5].kind, RuleTokenKind::LitStr("x".into()));
    assert_eq!(tokens[5].position, Position { line: 2, column: 14, len: 3 });
}

#[test]
fn comments_are_skipped() {
    let tokens = tokenize("# a comment\nif # another\n{").unwrap();
    assert_eq!(tokens.len(), 2);
    assert_eq!(tokens[0].kind, RuleTokenKind::If);
    assert_eq!(tokens[1].kind, RuleTokenKind::LBrace);
}

#[test]
fn lone_operator_chars_are_errors() {
    for src in ["a = b", "a ! b", "a & b", "a | b", "@"] {
        let err = tokenize(src).unwrap_err();
        assert!(matches!(err.kind, RuleErrorKind::Syntax(SyntaxErrorKind::UnexpectedToken(_))));
    }
}

#[test]
fn unknown_status_code_is_syntax_error() {
    let err = parse_str("matches / { return 299; }").unwrap_err();
    assert!(matches!(err.kind, RuleErrorKind::Syntax(SyntaxErrorKind::IncorrectResponseCode(ref s)) if s == "299"));
    assert_eq!(err.position, Position { line: 1, column: 20, len: 3 });
}

#[test]
fn statement_after_return_is_semantic_error() {
    let err = parse_str("matches / { return 200; redirect 301 \"/x\"; }").unwrap_err();
    assert!(matches!(err.kind, RuleErrorKind::Semantic(SemanticErrorKind::UnexpectedStatement(ref s)) if s == "redirect"));
}

#[test]
fn missing_brace_is_expected_other() {
    let err = parse_str("matches / return 200; }").unwrap_err();
    assert!(matches!(err.kind, RuleErrorKind::Syntax(SyntaxErrorKind::ExpectedOther(ref a, ref b)) if a == "{" && b == "return"));
}

#[test]
fn error_is_shown_in_file() {
    let file = "matches / {\n  return 299;\n}";
    let err = parse_str(file).unwrap_err();
    assert_eq!(
        format_error_in_file(err, file),
        format!("Syntax error: Incorrect response code \"299\" at 2:10\n2 |   return 299;\n{}^", " ".repeat(13))
    );
}

#[test]
fn redirect_rule_applies_to_matching_url() {
    let rules = parse_str("matches /old.html { redirect 301 \"/new.html\"; }").unwrap();
    let req = request(RequestMethod::Get, "/old.html");
    let response = apply_rules(&rules, &req, Response::builder().get());
    assert_eq!(response.status_code(), &ResponseStatusCode::MovedPermanently);
    assert_eq!(response.headers().get("Location"), Some("/new.html".to_string()));

    let other = request(RequestMethod::Get, "/index.html");
    let response = apply_rules(&rules, &other, Response::builder().get());
    assert_eq!(response.status_code(), &ResponseStatusCode::Okay);
    assert_eq!(response.headers().get("Location"), None);
}

#[test]
fn conditional_return_and_header() {
    let rules = parse_str(
        "matches /api {\n  if request.method == \"POST\" {\n    return 400 \"no\";\n  }\n  response.set_header(\"X-Server\", \"http-rs\");\n}",
    )
    .unwrap();
    let post = request(RequestMethod::Post, "/api/x");
    let response = apply_rules(&rules, &post, Response::builder().get());
    assert_eq!(response.status_code(), &ResponseStatusCode::BadRequest);
    assert_eq!(response.body().clone(), b"no".to_vec());
    assert_eq!(response.headers().get("Content-Length"), Some("2".to_string()));
    assert_eq!(response.headers().get("X-Server"), None);

    let get = request(RequestMethod::Get, "/api/x");
    let response = apply_rules(&rules, &get, Response::builder().get());
    assert_eq!(response.status_code(), &ResponseStatusCode::Okay);
    assert_eq!(response.headers().get("X-Server"), Some("http-rs".to_string()));
}

#[test]
fn runtime_error_keeps_partial_response() {
    let rules = parse_str(
        "matches / { response.set_header(\"A\", \"1\"); nothing(); response.set_header(\"B\", \"2\"); }",
    )
    .unwrap();
    let req = request(RequestMethod::Get, "/");
    let response = apply_rules(&rules, &req, Response::builder().get());
    assert_eq!(response.headers().get("A"), Some("1".to_string()));
    assert_eq!(response.headers().get("B"), None);
}

#[test]
fn rules_evaluate_in_file_order_until_finish() {
    let rules = parse_str("matches / { redirect 302 \"/a\"; }\nmatches / { redirect 303 \"/b\"; }").unwrap();
    let req = request(RequestMethod::Get, "/x");
    let mut response = Response::builder().get();
    let result = rules[0].evaluate(&req, &mut response).unwrap();
    assert_eq!(result, RuleEvaluationResult::Finish);
    let response = apply_rules(&rules, &req, Response::builder().get());
    assert_eq!(response.status_code(), &ResponseStatusCode::Found);
    assert_eq!(response.headers().get("Location"), Some("/a".to_string()));
}

#[test]
fn logical_operators_need_booleans() {
    let rules = parse_str("matches / { if 1 && true { return 200; } }").unwrap();
    let req = request(RequestMethod::Get, "/");
    let mut response = Response::builder().get();
    let err = rules[0].evaluate(&req, &mut response).unwrap_err();
    assert!(err.message().starts_with("Runtime error: "));
}

#[test]
fn too_few_arguments_is_reported() {
    let rules = parse_str("matches / { response.set_header(\"A\"); }").unwrap();
    let req = request(RequestMethod::Get, "/");
    let mut response = Response::builder().get();
    let err = rules[0].evaluate(&req, &mut response).unwrap_err();
    assert_eq!(err.message(), "Runtime error: Function takes 3 arguments, but 2 arguments were passed at 0:0");
}

#[test]
fn member_access_errors() {
    let req = request(RequestMethod::Get, "/");
    for (src, expect) in [
        ("matches / { x.y; }", "unresolved"),
        ("matches / { request.foo; }", "member"),
        ("matches / { log.x; }", "type"),
    ] {
        let rules = parse_str(src).unwrap();
        let mut response = Response::builder().get();
        let err = rules[0].evaluate(&req, &mut response).unwrap_err();
        match (err.kind, expect) {
            (RuleErrorKind::Runtime(RuntimeErrorKind::UnresolvedReference(s)), "unresolved") => assert_eq!(s, "x"),
            (RuleErrorKind::Runtime(RuntimeErrorKind::MemberNotDefined(m, o)), "member") => {
                assert_eq!(m, "foo");
                assert_eq!(o, "request");
            }
            (RuleErrorKind::Runtime(RuntimeErrorKind::IncorrectType(e, g)), "type") => {
                assert_eq!(e, "object");
                assert_eq!(g, "callable");
            }
            (other, _) => panic!("unexpected error {other:?}"),
        }
    }
}

#[test]
fn log_accepts_a_string() {
    let rules = parse_str("matches / { log(\"hello\"); return 204; }").unwrap();
    let req = request(RequestMethod::Get, "/");
    let mut response = Response::builder().get();
    assert_eq!(rules[0].evaluate(&req, &mut response).unwrap(), RuleEvaluationResult::Finish);
    assert_eq!(response.status_code(), &ResponseStatusCode::NoContent);
}

#[test]
fn files_of_rules_are_accepted_or_rejected_whole() {
    assert_eq!(parse_str("").unwrap().len(), 0);
    assert_eq!(parse_str("# only a comment\n").unwrap().len(), 0);
    assert_eq!(parse_str("matches /a { } matches /b { if x { } }").unwrap().len(), 2);
    assert!(parse_str("matches /a { } }").is_err());
    assert!(parse_str("matches /a { x }").is_err());
    assert!(parse_str("matches /a { f(1, 2,); }").is_ok());
    assert!(parse_str("matches /a { (a || b) && c; }").is_err());
    assert!(parse_str("matches /a { a.b.c; }").is_err());
}

#[test]
fn expression_statements_run_before_return() {
    let rules = parse_str(
        "matches / { response.set_header(\"X-A\", \"1\"); log(\"x\"); return 404 \"gone\"; }",
    )
    .unwrap();
    let req = request(RequestMethod::Get, "/");
    let mut response = Response::builder().get();
    assert_eq!(rules[0].evaluate(&req, &mut response).unwrap(), RuleEvaluationResult::Finish);
    assert_eq!(response.status_code(), &ResponseStatusCode::NotFound);
    assert_eq!(response.headers().get("X-A"), Some("1".to_string()));
    assert_eq!(response.body().clone(), b"gone".to_vec());
    assert_eq!(response.headers().get("Content-Length"), Some("4".to_string()));
}

#[test]
fn equality_compares_values() {
    let rules = parse_str(
        "matches / { if request.method == \"GET\" { response.set_header(\"Eq\", \"yes\"); } if 1 != 1 { return 500; } if \"a\" == 1 { return 500; } }",
    )
    .unwrap();
    let get = request(RequestMethod::Get, "/");
    let mut response = Response::builder().get();
    assert_eq!(rules[0].evaluate(&get, &mut response).unwrap(), RuleEvaluationResult::Continue);
    assert_eq!(response.headers().get("Eq"), Some("yes".to_string()));
    assert_eq!(response.status_code(), &ResponseStatusCode::Okay);
    let head = request(RequestMethod::Head, "/");
    let mut response = Response::builder().get();
    rules[0].evaluate(&head, &mut response).unwrap();
    assert_eq!(response.headers().get("Eq"), None);
}

#[test]
fn missing_semicolon_after_return() {
    let err = parse_str("matches / { return 200 \"x\" }").unwrap_err();
    assert!(matches!(err.kind, RuleErrorKind::Syntax(SyntaxErrorKind::ExpectedOther(ref a, ref b)) if a == ";" && b == "}"));
    assert_eq!(err.position.column, 28);
}

#[test]
fn statement_after_return_position() {
    let err = parse_str("matches / { return 200; x; }").unwrap_err();
    assert!(matches!(err.kind, RuleErrorKind::Semantic(SemanticErrorKind::UnexpectedStatement(ref s)) if s == "expr"));
    assert_eq!(err.position, Position { line: 1, column: 25, len: 1 });
}

#[test]
fn missing_matches_keyword() {
    let err = parse_str("redirect 301 \"/x\";").unwrap_err();
    assert!(matches!(err.kind, RuleErrorKind::Syntax(SyntaxErrorKind::ExpectedOther(ref a, ref b)) if a == "matches" && b == "redirect"));
}

#[test]
fn call_errors_name_the_argument() {
    let rules = parse_str("matches / { response.set_header(\"A\", 1); }").unwrap();
    let req = request(RequestMethod::Get, "/");
    let mut response = Response::builder().get();
    let err = rules[0].evaluate(&req, &mut response).unwrap_err();
    assert!(matches!(err.kind, RuleErrorKind::Runtime(RuntimeErrorKind::IncorrectType(ref e, ref g)) if e == "string" && g == "int"));
}

#[test]
fn parsed_rule_structure() {
    let rules = parse_str("matches /old.html { redirect 301 \"/new.html\"; }").unwrap();
    assert_eq!(rules.len(), 1);
    assert_eq!(rules[0].pattern, "/old.html");
    assert_eq!(rules[0].statements.len(), 1);
    assert!(matches!(&rules[0].statements[0].kind,
        http_rs::rules::grammar::StatementKind::Redirect(ResponseStatusCode::MovedPermanently, l) if l == "/new.html"));
}
