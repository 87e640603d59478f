use vstd::prelude::*;
use crate::header::{add_header, content_length_name, header_value, names_distinct, HeaderList};
use crate::http_version::HttpVersion;
use crate::request::Request;
use crate::request_method::{is_safe_method, safe_methods_text, RequestMethod};
use crate::response::{finish_spec, Response, ResponseBuilder, ResponseModel};
use crate::response_status_code::{code_value, reason_text, ResponseStatusCode};
use crate::rules::error::RuleError;
use crate::rules::rule::{exec_stmts, rule_vars, Rule, RuleEvaluationResult};
use crate::server_config::KeepAliveConfig;
use crate::text::{contains, decimal_bytes, lemma_utf8_concat, utf8};

verus! {

/// The MIME type that `mime_guess` registers first for a path's extension.
pub uninterp spec fn guessed_mime(path: Seq<char>) -> Option<Seq<char>>;

/// Relies on `mime_guess::from_path(path).first()`: the first MIME type
/// known for the path's extension, as its essence string (`type/subtype`),
/// or `None` for an unknown extension. No disk access: it depends on the
/// path alone.
#[verifier::external_body]
fn guess_mime(path: &str) -> (r: Option<String>)
    ensures
        r is None <==> guessed_mime(path@) is None,
        r matches Some(s) ==> guessed_mime(path@) == Some(s@),
{
    match mime_guess::from_path(path).first() {
        Some(mime) => Some(mime.essence_str().to_owned()),
        None => None,
    }
}

/// A request's `Accept` header admits HTML: it mentions `text/html`,
/// `text/*` or `*/*`.
pub open spec fn accepts_html_spec(hs: HeaderList) -> bool {
    match header_value(hs, utf8("Accept"@)) {
        Some(v) => contains(v, utf8("text/html"@)) || contains(v, utf8("text/*"@)) || contains(v, utf8("*/*"@)),
        None => false,
    }
}

/// The small HTML page of an error response.
pub open spec fn error_page(s: ResponseStatusCode) -> Seq<u8> {
    utf8("<html><body><h1 style='text-align: center'>"@) + decimal_bytes(code_value(s) as nat) + seq![32u8]
        + utf8(reason_text(s)) + utf8("</h1></body></html>"@)
}

/// An error response: the status with an HTML page when the request
/// accepts HTML, with an empty body otherwise.
pub open spec fn error_response_spec(request_headers: Option<HeaderList>, s: ResponseStatusCode) -> ResponseModel {
    if request_headers matches Some(hs) && accepts_html_spec(hs) {
        finish_spec(
            (
                HttpVersion::Http1_1,
                s,
                add_header(Seq::empty(), utf8("Content-Type"@), utf8("text/html; charset=utf-8"@)),
                error_page(s),
            ),
        )
    } else {
        (HttpVersion::Http1_1, s, Seq::empty(), Seq::empty())
    }
}

/// The response to OPTIONS: 204 with, except for `*`, an `Allow` header
/// listing the safe methods.
pub open spec fn options_response_spec(url: Seq<char>) -> ResponseModel {
    (
        HttpVersion::Http1_1,
        ResponseStatusCode::NoContent,
        if url == "*"@ {
            Seq::empty()
        } else {
            add_header(Seq::empty(), utf8("Allow"@), utf8(safe_methods_text()))
        },
        Seq::empty(),
    )
}

/// The `Content-Type` of served content: the guessed type, with
/// `; charset=utf-8` for text types, or `application/octet-stream`.
pub open spec fn content_type_spec(mime: Option<Seq<char>>) -> Seq<char> {
    match mime {
        Some(m) => if utf8(m).len() >= 5 && utf8(m).subrange(0, 5) == utf8("text/"@) {
            m + "; charset=utf-8"@
        } else {
            m
        },
        None => "application/octet-stream"@,
    }
}

/// The `Keep-Alive` header value: `timeout=T, max=M`.
pub open spec fn keep_alive_text(timeout: u8, max_requests: u8) -> Seq<u8> {
    utf8("timeout="@) + decimal_bytes(timeout as nat) + utf8(", max="@) + decimal_bytes(max_requests as nat)
}

/// The response serving a file: 200 with its type and length, a
/// `Keep-Alive` header when the policy asks for one, and the content as
/// body for GET only.
pub open spec fn content_response_spec(method: RequestMethod, content: Seq<u8>, mime: Option<Seq<char>>, ka: KeepAliveConfig) -> ResponseModel {
    let h1 = add_header(Seq::empty(), utf8("Content-Type"@), utf8(content_type_spec(mime)));
    let h2 = add_header(h1, content_length_name(), decimal_bytes(content.len()));
    let h3 = match ka {
        KeepAliveConfig::On { max_requests, timeout, include_header } => if include_header {
            add_header(h2, utf8("Keep-Alive"@), keep_alive_text(timeout, max_requests))
        } else {
            h2
        },
        KeepAliveConfig::Off => h2,
    };
    finish_spec(
        (
            HttpVersion::Http1_1,
            ResponseStatusCode::Okay,
            h3,
            if method == RequestMethod::Get {
                content
            } else {
                Seq::empty()
            },
        ),
    )
}

/// Builds the error response for `status_code`; with an HTML page when the
/// request accepts HTML.
pub fn error_response(request: Option<&Request>, status_code: ResponseStatusCode) -> (r: Response)
    ensures
        r@ == error_response_spec(
            match request {
                Some(q) => Some(q.headers@),
                None => None,
            },
            status_code,
        ),
        names_distinct(r@.2),
{
    let builder = ResponseBuilder::new().status_code(status_code);
    let accepts_html = match request {
        Some(req) => match req.get_header("Accept") {
            Some(v) => {
                let b = v.as_str().as_bytes();
                crate::text::contains_bytes(b, "text/html".as_bytes()) || crate::text::contains_bytes(b, "text/*".as_bytes())
                    || crate::text::contains_bytes(b, "*/*".as_bytes())
            },
            None => false,
        },
        None => false,
    };
    if accepts_html {
        let mut page: Vec<u8> = Vec::new();
        crate::bytes::push_all(&mut page, "<html><body><h1 style='text-align: center'>".as_bytes());
        let code = crate::text::usize_to_string(status_code.code() as usize);
        crate::bytes::push_all(&mut page, code.as_str().as_bytes());
        page.push(32u8);
        crate::bytes::push_all(&mut page, status_code.reason().as_bytes());
        crate::bytes::push_all(&mut page, "</h1></body></html>".as_bytes());
        assert(page@ =~= error_page(status_code));
        return builder.header("Content-Type", "text/html; charset=utf-8").body(page).get();
    }
    builder.get()
}

/// The response to an OPTIONS request.
pub fn options_response(request: &Request) -> (r: Response)
    ensures
        r@ == options_response_spec(request.url@),
        names_distinct(r@.2),
{
    let builder = ResponseBuilder::new().status_code(ResponseStatusCode::NoContent);
    if !crate::text::str_eq(request.url.as_str(), "*") {
        let allow = RequestMethod::safe_methods_str();
        return builder.header("Allow", allow.as_str()).get();
    }
    builder.get()
}

/// The response serving `content_bytes`, for a guessed MIME type `mime`.
pub fn content_response_with_mime(
    method: RequestMethod,
    content_bytes: Vec<u8>,
    mime: Option<String>,
    keep_alive_config: KeepAliveConfig,
) -> (r: Response)
    ensures
        r@ == content_response_spec(
            method,
            content_bytes@,
            match mime {
                Some(m) => Some(m@),
                None => None,
            },
            keep_alive_config,
        ),
        names_distinct(r@.2),
{
    let content_type = match mime {
        Some(m) => {
            let b = m.as_str().as_bytes();
            if b.len() >= 5 && crate::bytes::slice_eq(&b[0..5], "text/".as_bytes()) {
                let mut t = m.clone();
                t.append("; charset=utf-8");
                t
            } else {
                m
            }
        },
        None => "application/octet-stream".to_owned(),
    };
    let len = crate::text::usize_to_string(content_bytes.len());
    proof { crate::request::lemma_content_length_literal(); }
    let mut builder = ResponseBuilder::new().status_code(ResponseStatusCode::Okay).header(
        "Content-Type",
        content_type.as_str(),
    ).header("Content-Length", len.as_str());
    match keep_alive_config {
        KeepAliveConfig::On { max_requests, timeout, include_header } => {
            if include_header {
                let t = crate::text::usize_to_string(timeout as usize);
                let m = crate::text::usize_to_string(max_requests as usize);
                let mut v = "timeout=".to_owned();
                v.append(t.as_str());
                v.append(", max=");
                v.append(m.as_str());
                proof {
                    lemma_utf8_concat("timeout="@, t@);
                    lemma_utf8_concat("timeout="@ + t@, ", max="@);
                    lemma_utf8_concat("timeout="@ + t@ + ", max="@, m@);
                }
                builder = builder.header("Keep-Alive", v.as_str());
            }
        },
        KeepAliveConfig::Off => {},
    }
    if method == RequestMethod::Get {
        builder = builder.body(content_bytes);
    }
    builder.get()
}

/// The response serving a file's bytes for `request`, typed by the
/// request URL's extension.
pub fn content_response(request: &Request, content_bytes: Vec<u8>, keep_alive_config: KeepAliveConfig) -> (r: Response)
    ensures
        r@ == content_response_spec(request.method, content_bytes@, guessed_mime(request.url@), keep_alive_config),
{
    let mime = guess_mime(request.url.as_str());
    content_response_with_mime(request.method, content_bytes, mime, keep_alive_config)
}

/// Serves a file that was found (`content` is its bytes): an unsafe
/// method gets 405 with `Allow`, OPTIONS gets the options response, the
/// others get the content. With no file, `None`: the caller's handler, or
/// else 404, answers.
pub fn serve_content(request: &Request, content: Option<Vec<u8>>, keep_alive_config: KeepAliveConfig) -> (r: Option<Response>)
    ensures
        r is Some <==> content is Some,
        r matches Some(resp) ==> (!is_safe_method(request.method) ==> resp@ == (
            HttpVersion::Http1_1,
            ResponseStatusCode::MethodNotAllowed,
            add_header(
                error_response_spec(Some(request.headers@), ResponseStatusCode::MethodNotAllowed).2,
                utf8("Allow"@),
                utf8(safe_methods_text()),
            ),
            error_response_spec(Some(request.headers@), ResponseStatusCode::MethodNotAllowed).3,
        )),
        r matches Some(resp) ==> (request.method == RequestMethod::Options ==> resp@ == options_response_spec(request.url@)),
        r matches Some(resp) ==> (request.method == RequestMethod::Get || request.method == RequestMethod::Head)
            ==> resp@ == content_response_spec(request.method, content->0@, guessed_mime(request.url@), keep_alive_config),
{
    match content {
        None => None,
        Some(bytes) => {
            if !request.method.is_safe() {
                let mut response = error_response(Some(request), ResponseStatusCode::MethodNotAllowed);
                let allow = RequestMethod::safe_methods_str();
                response.set_header("Allow", allow.as_str());
                Some(response)
            } else if request.method == RequestMethod::Options {
                Some(options_response(request))
            } else {
                Some(content_response(request, bytes, keep_alive_config))
            }
        },
    }
}

/// The dispatcher: `OPTIONS *` gets 204 at once; other requests are served
/// from `content`, the file the URL names if it could be read.
pub fn prepare_response(request: &Request, content: Option<Vec<u8>>, keep_alive_config: KeepAliveConfig) -> (r: Option<Response>)
    ensures
        request.method == RequestMethod::Options && request.url@ == "*"@ ==> r == Some(r->0) && r->0@ == options_response_spec(request.url@),
        !(request.method == RequestMethod::Options && request.url@ == "*"@) ==> (r is Some <==> content is Some),
        !(request.method == RequestMethod::Options && request.url@ == "*"@) ==> (r matches Some(resp) ==> (
            !is_safe_method(request.method) ==> resp@ == (
                HttpVersion::Http1_1,
                ResponseStatusCode::MethodNotAllowed,
                add_header(
                    error_response_spec(Some(request.headers@), ResponseStatusCode::MethodNotAllowed).2,
                    utf8("Allow"@),
                    utf8(safe_methods_text()),
                ),
                error_response_spec(Some(request.headers@), ResponseStatusCode::MethodNotAllowed).3,
            ))),
        !(request.method == RequestMethod::Options && request.url@ == "*"@) ==> (r matches Some(resp) ==> (
            request.method == RequestMethod::Options ==> resp@ == options_response_spec(request.url@))),
        !(request.method == RequestMethod::Options && request.url@ == "*"@) ==> (r matches Some(resp) ==> (
            (request.method == RequestMethod::Get || request.method == RequestMethod::Head) ==> resp@
                == content_response_spec(request.method, content->0@, guessed_mime(request.url@), keep_alive_config))),
{
    if request.method == RequestMethod::Options && crate::text::str_eq(request.url.as_str(), "*") {
        return Some(options_response(request));
    }
    serve_content(request, content, keep_alive_config)
}

/// The answer when no file was served: the handler's response if it gave
/// one, otherwise 404.
pub fn handler_or_not_found(request: &Request, handled: Option<Response>) -> (r: Response)
    ensures
        handled matches Some(h) ==> r@ == h@,
        handled is None ==> r@ == error_response_spec(Some(request.headers@), ResponseStatusCode::NotFound),
{
    match handled {
        Some(h) => h,
        None => error_response(Some(request), ResponseStatusCode::NotFound),
    }
}

/// Running the rules from index `i` on in file order: each rule whose
/// pattern occurs in `url` runs, until one finishes the chain or fails.
/// The response after them, and whether a rule failed.
pub open spec fn apply_spec(rules: Seq<Rule>, url: Seq<u8>, meth: RequestMethod, m: ResponseModel, i: int) -> (ResponseModel, bool)
    decreases rules.len() - i,
{
    if i < 0 || i >= rules.len() {
        (m, false)
    } else if contains(url, utf8(rules[i].pattern@)) {
        let (r, m1) = exec_stmts(rules[i].statements@, rule_vars(), meth, m);
        match r {
            Some(RuleEvaluationResult::Continue) => apply_spec(rules, url, meth, m1, i + 1),
            Some(RuleEvaluationResult::Finish) => (m1, false),
            None => (m1, true),
        }
    } else {
        apply_spec(rules, url, meth, m, i + 1)
    }
}

/// Applies the rules to the response of `request` as `apply_spec` says,
/// and hands back the runtime error that stopped them, if any.
pub fn apply_rules_reporting(rules: &Vec<Rule>, request: &Request, response: Response) -> (r: (Response, Option<RuleError>))
    ensures
        r.0@ == apply_spec(rules@, utf8(request.url@), request.method, response@, 0).0,
        r.1 is Some <==> apply_spec(rules@, utf8(request.url@), request.method, response@, 0).1,
{
    let mut out = response;
    let mut i: usize = 0;
    while i < rules.len()
        invariant
            0 <= i <= rules@.len(),
            apply_spec(rules@, utf8(request.url@), request.method, response@, 0) == apply_spec(
                rules@,
                utf8(request.url@),
                request.method,
                out@,
                i as int,
            ),
        decreases rules@.len() - i,
    {
        let rule = &rules[i];
        if rule.matches(request.url.as_str()) {
            match rule.evaluate(request, &mut out) {
                Ok(RuleEvaluationResult::Continue) => {},
                Ok(RuleEvaluationResult::Finish) => {
                    return (out, None);
                },
                Err(e) => {
                    return (out, Some(e));
                },
            }
        }
        i = i + 1;
    }
    (out, None)
}

/// Applies the rules in file order to the response of `request`: each rule
/// whose pattern occurs in the URL runs, until a statement finishes the
/// chain or a rule fails; the response is kept as it stands then.
pub fn apply_rules(rules: &Vec<Rule>, request: &Request, response: Response) -> (r: Response)
    ensures
        r@ == apply_spec(rules@, utf8(request.url@), request.method, response@, 0).0,
{
    apply_rules_reporting(rules, request, response).0
}

} // verus!
