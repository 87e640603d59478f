//! Properties of the codec that relate several of its functions.
use vstd::prelude::*;
use crate::bytes::{find_byte_spec, lemma_find_byte};
use crate::header::{
    add_header, content_length_name, find_from, find_header, header_valid_spec, header_value,
    lemma_find_from, names_distinct, HeaderList,
};
use crate::http_version::{http11_bytes, HttpVersion};
use crate::request::{header_line_spec, headers_spec, request_bytes_spec, request_line_spec, skip_ows_spec};
use crate::request_method::method_of_bytes;
use crate::request_method::{method_text, RequestMethod};
use vstd::utf8::valid_utf8;
use crate::request::{
    body_type_spec, chunked_spec, content_length_spec, parse_request_spec, prepend, RequestBodyType,
};
use crate::response::{finish_spec, ResponseModel};
use crate::connection::crlfcrlf;
use crate::header::{header_line, header_lines};
use crate::http_version::version_bytes;
use crate::response::{response_bytes, status_line};
use crate::response_status_code::{code_digits, code_value, reason_text, ResponseStatusCode};
use crate::text::{ci_eq, decimal_bytes, occurs_at, utf8};
use crate::token::{all_tchars, is_tchar};

verus! {

/// A header added under a name that no entry has yet is found again with
/// its value.
pub proof fn lemma_added_header_found(hs: HeaderList, name: Seq<u8>, value: Seq<u8>)
    requires
        header_value(hs, name) is None,
    ensures
        header_value(add_header(hs, name, value), name) == Some(value),
{
    lemma_find_from(hs, name, 0);
    let r = hs.push((name, value));
    assert(ci_eq(name, name));
    lemma_find_from(r, name, 0);
    assert forall|j: int| 0 <= j < hs.len() implies !ci_eq(#[trigger] r[j].0, name) by {
        assert(r[j] == hs[j]);
    }
    match find_from(r, name, 0) {
        Some(k) => {
            assert(k == hs.len());
        },
        None => {
            assert(!ci_eq(r[hs.len() as int].0, name));
        },
    }
}

/// A complete request with a declared length has a body of exactly that
/// length.
pub proof fn law_declared_length_is_body_length(bytes: Seq<u8>)
    requires
        parse_request_spec(bytes) matches Some((m, complete)) && complete,
    ensures
        parse_request_spec(bytes) matches Some((m, _)) && (content_length_spec(m.2) matches Some(n)
            ==> m.3.len() == n),
{
}

/// A response built with a non-empty body declares the body's length,
/// whatever `Content-Length` was set before.
pub proof fn law_builder_declares_body_length(m: ResponseModel)
    requires
        m.3.len() > 0,
    ensures
        header_value(finish_spec(m).2, content_length_name()) == Some(decimal_bytes(m.3.len())),
        finish_spec(m).3 == m.3,
{
    let v = decimal_bytes(m.3.len());
    match find_header(m.2, content_length_name()) {
        None => lemma_added_header_found(m.2, content_length_name(), v),
        Some(i) => {
            lemma_find_from(m.2, content_length_name(), 0);
            let r = m.2.update(i, (m.2[i].0, v));
            lemma_find_from(r, content_length_name(), 0);
            assert forall|j: int| 0 <= j < i implies !ci_eq(#[trigger] r[j].0, content_length_name()) by {
                assert(r[j] == m.2[j]);
            }
            assert(r[i].0 == m.2[i].0);
            match find_from(r, content_length_name(), 0) {
                Some(k) => { assert(k == i); },
                None => { assert(!ci_eq(r[i].0, content_length_name())); },
            }
        },
    }
}

/// The chunks of a chunked body from `p`: each payload in order, and
/// whether the final chunk was seen; `None` for a malformed body.
pub open spec fn chunk_payloads(b: Seq<u8>, p: int) -> Option<(Seq<Seq<u8>>, bool)>
    decreases b.len() - p,
{
    if p < 0 || p >= b.len() {
        Some((Seq::empty(), false))
    } else {
        match crate::bytes::find_byte_spec(b, 10, p) {
            None => Some((Seq::empty(), false)),
            Some(lf) => {
                if lf <= p || lf >= b.len() || b[lf - 1] != 13 {
                    None
                } else {
                    match crate::text::parse_hex_spec(b.subrange(p, lf - 1)) {
                        None => None,
                        Some(n) => {
                            let d = lf + 1;
                            if d + n + 2 > b.len() {
                                Some((Seq::empty(), false))
                            } else if b[d + n] != 13 || b[d + n + 1] != 10 {
                                None
                            } else if n == 0 {
                                Some((Seq::empty(), true))
                            } else {
                                match chunk_payloads(b, d + n + 2) {
                                    None => None,
                                    Some((rest, c)) => Some((seq![b.subrange(d, d + n)] + rest, c)),
                                }
                            }
                        },
                    }
                }
            },
        }
    }
}

/// The payloads one after another.
pub open spec fn concat_all(chunks: Seq<Seq<u8>>) -> Seq<u8>
    decreases chunks.len(),
{
    if chunks.len() == 0 {
        Seq::empty()
    } else {
        chunks[0] + concat_all(chunks.drop_first())
    }
}

/// Decoding a chunked body yields its payloads put together.
pub proof fn law_chunked_body_is_concatenation(b: Seq<u8>, p: int)
    ensures
        chunked_spec(b, p) is Some <==> chunk_payloads(b, p) is Some,
        chunked_spec(b, p) matches Some((body, c)) ==> chunk_payloads(b, p) matches Some((chunks, c2))
            && c == c2 && body == concat_all(chunks),
    decreases b.len() - p,
{
    if 0 <= p < b.len() {
        match crate::bytes::find_byte_spec(b, 10, p) {
            None => {
                assert(concat_all(Seq::<Seq<u8>>::empty()) =~= Seq::<u8>::empty());
            },
            Some(lf) => {
                if lf <= p || lf >= b.len() || b[lf - 1] != 13 {
                } else {
                    match crate::text::parse_hex_spec(b.subrange(p, lf - 1)) {
                        None => {},
                        Some(n) => {
                            let d = lf + 1;
                            if d + n + 2 > b.len() {
                                assert(concat_all(Seq::<Seq<u8>>::empty()) =~= Seq::<u8>::empty());
                            } else if b[d + n] != 13 || b[d + n + 1] != 10 {
                            } else if n == 0 {
                                assert(concat_all(Seq::<Seq<u8>>::empty()) =~= Seq::<u8>::empty());
                            } else {
                                law_chunked_body_is_concatenation(b, d + n + 2);
                                match chunk_payloads(b, d + n + 2) {
                                    None => {},
                                    Some((rest, c)) => {
                                        let all = seq![b.subrange(d, d + n)] + rest;
                                        assert(all.drop_first() =~= rest);
                                        assert(all[0] == b.subrange(d, d + n));
                                    },
                                }
                            }
                        },
                    }
                }
            },
        }
    } else {
        assert(concat_all(Seq::<Seq<u8>>::empty()) =~= Seq::<u8>::empty());
    }
}

/// The bytes of a request after its empty line.
pub open spec fn body_part(bytes: Seq<u8>) -> Seq<u8> {
    match crate::request::request_line_spec(bytes) {
        Some((_, _, p)) => match crate::request::headers_spec(bytes, p, Seq::empty()) {
            Some((_, q)) => bytes.subrange(q, bytes.len() as int),
            None => Seq::empty(),
        },
        None => Seq::empty(),
    }
}

/// A complete chunked request's body is its chunks' payloads put together.
pub proof fn law_chunked_request_body(bytes: Seq<u8>)
    requires
        parse_request_spec(bytes) matches Some((m, complete)) && complete
            && body_type_spec(m.2) == RequestBodyType::TransferEncodingChunked,
    ensures
        parse_request_spec(bytes) matches Some((m, _)) && (chunk_payloads(body_part(bytes), 0) matches Some((chunks, true))
            && m.3 == concat_all(chunks)),
{
    let line = crate::request::request_line_spec(bytes)->0;
    let hq = crate::request::headers_spec(bytes, line.2, Seq::empty())->0;
    let rest = bytes.subrange(hq.1, bytes.len() as int);
    law_chunked_body_is_concatenation(rest, 0);
    let parsed = parse_request_spec(bytes)->0;
    let model = parsed.0;
    assert(chunk_payloads(rest, 0) matches Some((chunks, true)) && model.3 == concat_all(chunks));
}

/// Every line feed is followed by something other than a carriage return.
pub open spec fn no_lf_cr(s: Seq<u8>) -> bool {
    forall|j: int| 0 <= j && j + 1 < s.len() && s[j] == 10 ==> #[trigger] s[j + 1] != 13
}

/// Header entries that can be written as lines: names hold no carriage
/// return or line feed, values no line feed.
pub open spec fn writable_headers(hs: HeaderList) -> bool {
    forall|i: int|
        0 <= i < hs.len() ==> (forall|k: int| 0 <= k < (#[trigger] hs[i]).0.len() ==> hs[i].0[k] != 10 && hs[i].0[k] != 13)
            && forall|k: int| 0 <= k < hs[i].1.len() ==> hs[i].1[k] != 10
}

proof fn lemma_no_lf_cr_join(a: Seq<u8>, b: Seq<u8>)
    requires
        no_lf_cr(a),
        no_lf_cr(b),
        a.len() > 0 && b.len() > 0 && a.last() == 10 ==> b[0] != 13,
    ensures
        no_lf_cr(a + b),
{
    let s = a + b;
    assert forall|j: int| 0 <= j && j + 1 < s.len() && s[j] == 10 implies #[trigger] s[j + 1] != 13 by {
        if j + 1 < a.len() {
            assert(s[j] == a[j] && s[j + 1] == a[j + 1]);
        } else if j + 1 == a.len() {
            assert(s[j] == a.last() && s[j + 1] == b[0]);
        } else {
            let k = j - a.len();
            assert(s[j] == b[k]);
            assert(s[j + 1] == b[k + 1]);
            assert(b[k + 1] != 13);
        }
    }
}

/// A sequence whose only line feed, if any, is its last byte.
proof fn lemma_lf_only_at_end(s: Seq<u8>)
    requires
        forall|j: int| 0 <= j < s.len() - 1 ==> s[j] != 10,
    ensures
        no_lf_cr(s),
{
}

proof fn lemma_header_lines(hs: HeaderList)
    requires
        writable_headers(hs),
    ensures
        no_lf_cr(header_lines(hs)),
        hs.len() > 0 ==> header_lines(hs).len() > 0 && header_lines(hs)[0] != 13 && header_lines(hs).last() == 10,
        hs.len() == 0 ==> header_lines(hs).len() == 0,
    decreases hs.len(),
{
    if hs.len() > 0 {
        let init = hs.drop_last();
        assert(writable_headers(init)) by {
            assert forall|i: int| 0 <= i < init.len() implies (forall|k: int| 0 <= k < (#[trigger] init[i]).0.len() ==> init[i].0[k] != 10 && init[i].0[k] != 13)
                && forall|k: int| 0 <= k < init[i].1.len() ==> init[i].1[k] != 10 by {
                assert(init[i] == hs[i]);
            }
        }
        lemma_header_lines(init);
        let h = hs.last();
        assert(h == hs[hs.len() - 1]);
        let line = header_line(h);
        assert forall|j: int| 0 <= j < line.len() - 1 implies line[j] != 10 by {
            if j < h.0.len() {
                assert(line[j] == h.0[j]);
            } else if j < h.0.len() + 2 {
            } else if j < h.0.len() + 2 + h.1.len() {
                assert(line[j] == h.1[j - h.0.len() - 2]);
            }
        }
        lemma_lf_only_at_end(line);
        if h.0.len() > 0 {
            assert(line[0] == h.0[0]);
        } else {
            assert(line[0] == 58);
        }
        lemma_no_lf_cr_join(header_lines(init), line);
        assert(header_lines(hs) == header_lines(init) + line);
        if init.len() > 0 {
            assert(header_lines(hs)[0] == header_lines(init)[0]);
        } else {
            assert(header_lines(init).len() == 0);
            assert(header_lines(hs)[0] == line[0]);
        }
    }
}

/// No reason phrase holds a line feed.
proof fn lemma_reason_no_lf(s: ResponseStatusCode)
    ensures
        forall|k: int| 0 <= k < utf8(reason_text(s)).len() ==> utf8(reason_text(s))[k] != 10,
{
    let t = reason_text(s);
    match s {
        ResponseStatusCode::Continue => reveal_strlit("Continue"),
        ResponseStatusCode::SwitchingProtocols => reveal_strlit("Switching Protocols"),
        ResponseStatusCode::Okay => reveal_strlit("OK"),
        ResponseStatusCode::Created => reveal_strlit("Created"),
        ResponseStatusCode::Accepted => reveal_strlit("Accepted"),
        ResponseStatusCode::NoContent => reveal_strlit("No Content"),
        ResponseStatusCode::MovedPermanently => reveal_strlit("Moved Permanently"),
        ResponseStatusCode::Found => reveal_strlit("Found"),
        ResponseStatusCode::SeeOther => reveal_strlit("See Other"),
        ResponseStatusCode::NotModified => reveal_strlit("Not Modified"),
        ResponseStatusCode::TemporaryRedirect => reveal_strlit("Temporary Redirect"),
        ResponseStatusCode::PermanentRedirect => reveal_strlit("Permanent Redirect"),
        ResponseStatusCode::BadRequest => reveal_strlit("Bad Request"),
        ResponseStatusCode::Unauthorized => reveal_strlit("Unauthorized"),
        ResponseStatusCode::Forbidden => reveal_strlit("Forbidden"),
        ResponseStatusCode::NotFound => reveal_strlit("Not Found"),
        ResponseStatusCode::MethodNotAllowed => reveal_strlit("Method Not Allowed"),
        ResponseStatusCode::RequestTimeout => reveal_strlit("Request Timeout"),
        ResponseStatusCode::ImATeapot => reveal_strlit("I'm a teapot"),
        ResponseStatusCode::TooManyRequests => reveal_strlit("Too Many Requests"),
        ResponseStatusCode::InternalServerError => reveal_strlit("Internal Server Error"),
        ResponseStatusCode::NotImplemented => reveal_strlit("Not Implemented"),
        ResponseStatusCode::BadGateway => reveal_strlit("Bad Gateway"),
        ResponseStatusCode::ServiceUnavailable => reveal_strlit("Service Unavailable"),
        ResponseStatusCode::GatewayTimeout => reveal_strlit("Gateway Timeout"),
        ResponseStatusCode::HttpVersionNotSupported => reveal_strlit("Http Version Not Supported"),
    }
    assert(vstd::utf8::is_ascii_chars(t));
    vstd::utf8::is_ascii_chars_encode_utf8(t);
    assert forall|k: int| 0 <= k < utf8(t).len() implies utf8(t)[k] != 10 by {
        assert(t[k] as u8 == utf8(t)[k]);
        assert(t[k] != '\n');
    }
}

/// A serialized response has exactly one empty line, the one between the
/// header lines and the body: CR LF CR LF first occurs where the head ends.
pub proof fn law_single_empty_line(m: ResponseModel)
    requires
        writable_headers(m.2),
    ensures
        ({
            let head = status_line(m.0, m.1) + header_lines(m.2);
            &&& response_bytes(m) == head + seq![13u8, 10u8] + m.3
            &&& occurs_at(response_bytes(m), crlfcrlf(), head.len() - 2)
            &&& forall|i: int| 0 <= i < head.len() - 2 ==> !occurs_at(response_bytes(m), crlfcrlf(), i)
        }),
{
    let sl = status_line(m.0, m.1);
    let head = sl + header_lines(m.2);
    let out = response_bytes(m);
    lemma_reason_no_lf(m.1);
    let reason = utf8(reason_text(m.1));
    let vb = version_bytes(m.0);
    let cd = code_digits(code_value(m.1));
    assert(sl =~= vb + seq![32u8] + (cd + seq![32u8] + reason) + seq![13u8, 10u8]);
    assert forall|j: int| 0 <= j < sl.len() - 1 implies sl[j] != 10 by {
        let a = vb.len();
        if j < a {
            assert(sl[j] == vb[j]);
        } else if j == a {
        } else if j < a + 4 {
            assert(sl[j] == cd[j - a - 1]);
        } else if j == a + 4 {
        } else if j < a + 5 + reason.len() {
            assert(sl[j] == reason[j - a - 5]);
        }
    }
    lemma_lf_only_at_end(sl);
    lemma_header_lines(m.2);
    lemma_no_lf_cr_join(sl, header_lines(m.2));
    assert(out =~= head + seq![13u8, 10u8] + m.3);
    assert(head.len() >= 2 && head[head.len() - 2] == 13 && head[head.len() - 1] == 10) by {
        if m.2.len() > 0 {
            assert(head[head.len() - 1] == header_lines(m.2).last());
            assert(header_lines(m.2) == header_lines(m.2.drop_last()) + header_line(m.2.last()));
            let line = header_line(m.2.last());
            assert(head[head.len() - 2] == line[line.len() - 2]);
        } else {
            assert(head =~= sl);
        }
    }
    assert(out.subrange(head.len() - 2, head.len() as int + 2) =~= crlfcrlf());
    assert forall|i: int| 0 <= i < head.len() - 2 implies !occurs_at(out, crlfcrlf(), i) by {
        if occurs_at(out, crlfcrlf(), i) {
            let w = out.subrange(i, i + 4);
            assert(w == crlfcrlf());
            assert(w[1] == 10 && w[2] == 13);
            assert(out[i + 1] == 10 && out[i + 2] == 13);
            assert(out[i + 1] == head[i + 1]);
            assert(out[i + 2] == head[i + 2]);
            let j = i + 1;
            assert(head[j] == 10);
            assert(head[j + 1] != 13);
        }
    }
}

/// `find_byte_spec` finds the first occurrence.
pub proof fn lemma_find_byte_at(b: Seq<u8>, x: u8, i: int, k: int)
    requires
        0 <= i <= k < b.len(),
        b[k] == x,
        forall|j: int| i <= j < k ==> b[j] != x,
    ensures
        find_byte_spec(b, x, i) == Some(k),
    decreases k - i,
{
    if i < k {
        lemma_find_byte_at(b, x, i + 1, k);
    }
}

/// Header lines of two lists one after the other.
pub proof fn lemma_header_lines_concat(a: HeaderList, b: HeaderList)
    ensures
        header_lines(a + b) == header_lines(a) + header_lines(b),
    decreases b.len(),
{
    if b.len() == 0 {
        assert(a + b =~= a);
        assert(header_lines(b) =~= Seq::<u8>::empty());
        assert(header_lines(a) + header_lines(b) =~= header_lines(a));
    } else {
        assert((a + b).drop_last() =~= a + b.drop_last());
        assert((a + b).last() == b.last());
        lemma_header_lines_concat(a, b.drop_last());
        assert(header_lines(a + b) =~= header_lines(a) + header_lines(b));
    }
}

/// Header entries as the parser leaves them: distinct names, each entry
/// acceptable and valid UTF-8, values with no line feed and no leading
/// space or tab.
pub open spec fn parsed_headers(hs: HeaderList) -> bool {
    names_distinct(hs) && forall|i: int|
        0 <= i < hs.len() ==> {
            let h = #[trigger] hs[i];
            &&& header_valid_spec(h.0, h.1)
            &&& valid_utf8(h.0)
            &&& valid_utf8(h.1)
            &&& (forall|k: int| 0 <= k < h.1.len() ==> h.1[k] != 10)
            &&& (h.1.len() > 0 ==> h.1[0] != 32 && h.1[0] != 9)
        }
}

proof fn lemma_skip_ows_stops(b: Seq<u8>, i: int)
    requires
        0 <= i,
    ensures
        i <= skip_ows_spec(b, i),
        skip_ows_spec(b, i) < b.len() ==> b[skip_ows_spec(b, i)] != 32 && b[skip_ows_spec(b, i)] != 9,
    decreases b.len() - i,
{
    if i < b.len() && (b[i] == 32 || b[i] == 9) {
        lemma_skip_ows_stops(b, i + 1);
    }
}

/// What the header parser produces keeps the properties of what it was given.
proof fn lemma_headers_parsed(b: Seq<u8>, p: int, hs: HeaderList)
    requires
        parsed_headers(hs),
        0 <= p,
        headers_spec(b, p, hs) is Some,
    ensures
        headers_spec(b, p, hs) matches Some((h, _)) ==> parsed_headers(h),
    decreases b.len() - p,
{
    if p < b.len() && b[p] != 13 {
        let (name, value, next) = header_line_spec(b, p)->0;
        let c = find_byte_spec(b, 58, p)->0;
        lemma_find_byte(b, 58, p);
        let v = skip_ows_spec(b, c + 1);
        lemma_skip_ows_stops(b, c + 1);
        let lf = find_byte_spec(b, 10, v)->0;
        lemma_find_byte(b, 10, v);
        assert(value == b.subrange(v, lf - 1));
        let r = add_header(hs, name, value);
        assert(parsed_headers(r)) by {
            crate::header::lemma_add_keeps_distinct(hs, name, value);
            crate::header::lemma_find_from(hs, name, 0);
            assert forall|i: int| 0 <= i < r.len() implies {
                let h = #[trigger] r[i];
                &&& header_valid_spec(h.0, h.1)
                &&& valid_utf8(h.0)
                &&& valid_utf8(h.1)
                &&& (forall|k: int| 0 <= k < h.1.len() ==> h.1[k] != 10)
                &&& (h.1.len() > 0 ==> h.1[0] != 32 && h.1[0] != 9)
            } by {
                assert forall|k: int| 0 <= k < value.len() implies value[k] != 10 by {
                    assert(value[k] == b[v + k]);
                }
                if value.len() > 0 {
                    assert(value[0] == b[v]);
                }
                match find_header(hs, name) {
                    Some(j) => {
                        if i == j {
                            crate::header::lemma_ci_eq_symmetric(hs[j].0, name);
                            if ci_eq(hs[j].0, content_length_name()) {
                                crate::header::lemma_ci_eq_transitive(name, hs[j].0, content_length_name());
                            }
                        } else {
                            assert(r[i] == hs[i]);
                        }
                    },
                    None => {
                        if i < hs.len() {
                            assert(r[i] == hs[i]);
                        }
                    },
                }
            }
        }
        lemma_headers_parsed(b, next, r);
    }
}

/// The bytes of each method name.
pub proof fn lemma_method_has_no_space(m: RequestMethod)
    ensures
        forall|j: int| 0 <= j < utf8(method_text(m)).len() ==> utf8(method_text(m))[j] != 32,
        utf8(method_text(m)).len() > 0,
{
    let t = method_text(m);
    match m {
        RequestMethod::Get => reveal_strlit("GET"),
        RequestMethod::Head => reveal_strlit("HEAD"),
        RequestMethod::Options => reveal_strlit("OPTIONS"),
        RequestMethod::Post => reveal_strlit("POST"),
        RequestMethod::Put => reveal_strlit("PUT"),
        RequestMethod::Patch => reveal_strlit("PATCH"),
        RequestMethod::Delete => reveal_strlit("DELETE"),
    }
    assert(vstd::utf8::is_ascii_chars(t));
    vstd::utf8::is_ascii_chars_encode_utf8(t);
    assert forall|j: int| 0 <= j < utf8(t).len() implies utf8(t)[j] != 32 by {
        assert(t[j] as u8 == utf8(t)[j]);
        assert(t[j] != ' ');
    }
}

/// One written header line parses back to its entry.
proof fn lemma_reparse_line(b: Seq<u8>, pk: int, h: (Seq<u8>, Seq<u8>))
    requires
        0 <= pk,
        pk + header_line(h).len() <= b.len(),
        forall|j: int| 0 <= j < header_line(h).len() ==> b[pk + j] == #[trigger] header_line(h)[j],
        h.0.len() > 0,
        all_tchars(h.0),
        forall|k: int| 0 <= k < h.1.len() ==> h.1[k] != 10,
        h.1.len() > 0 ==> h.1[0] != 32 && h.1[0] != 9,
    ensures
        header_line_spec(b, pk) == Some((h.0, h.1, pk + header_line(h).len())),
        b[pk] != 13,
{
    let line = header_line(h);
    let name = h.0;
    let value = h.1;
    let c = pk + name.len();
    assert forall|j: int| pk <= j < c implies b[j] != 58 by {
        assert(b[pk + (j - pk)] == line[j - pk]);
        assert(line[j - pk] == name[j - pk]);
        assert(is_tchar(name[j - pk]));
    }
    assert(b[pk + name.len()] == line[name.len() as int]);
    lemma_find_byte_at(b, 58, pk, c);
    let v = c + 2;
    assert(b[pk + (name.len() + 1)] == line[name.len() as int + 1]);
    assert(b[pk + (name.len() + 2)] == line[name.len() as int + 2]);
    if value.len() > 0 {
        assert(line[name.len() as int + 2] == value[0]);
    } else {
        assert(line[name.len() as int + 2] == 13);
    }
    assert(skip_ows_spec(b, c + 1) == skip_ows_spec(b, v));
    assert(skip_ows_spec(b, v) == v);
    let lf = v + value.len() + 1;
    assert forall|j: int| v <= j < lf implies b[j] != 10 by {
        assert(b[pk + (j - pk)] == line[j - pk]);
        if j < v + value.len() {
            assert(line[j - pk] == value[j - v]);
        } else {
            assert(line[j - pk] == 13);
        }
    }
    assert(b[pk + (lf - pk)] == line[lf - pk]);
    lemma_find_byte_at(b, 10, v, lf);
    assert(b[pk + (lf - 1 - pk)] == line[lf - 1 - pk]);
    assert(b.subrange(pk, c) =~= name) by {
        assert forall|j: int| 0 <= j < name.len() implies b.subrange(pk, c)[j] == name[j] by {
            assert(b[pk + j] == line[j]);
        }
    }
    assert(b.subrange(v, lf - 1) =~= value) by {
        assert forall|j: int| 0 <= j < value.len() implies b.subrange(v, lf - 1)[j] == value[j] by {
            assert(b[pk + (name.len() + 2 + j)] == line[name.len() as int + 2 + j]);
        }
    }
    assert(b[pk + 0] == line[0]);
    assert(line[0] == name[0]);
    assert(is_tchar(name[0]));
}

/// The header lines of one entry are its line.
proof fn lemma_header_lines_one(h: (Seq<u8>, Seq<u8>))
    ensures
        header_lines(seq![h]) == header_line(h),
{
    let one = seq![h];
    assert(one.drop_last() =~= Seq::<(Seq<u8>, Seq<u8>)>::empty());
    assert(one.last() == h);
    assert(header_lines(one.drop_last()) =~= Seq::<u8>::empty());
    assert(header_lines(one) =~= header_line(h));
}

/// The header section written for `hs` parses back to `hs`, from the
/// line of entry `k` on.
#[verifier::rlimit(50)]
proof fn lemma_reparse_headers(b: Seq<u8>, base: int, hs: HeaderList, k: int)
    requires
        parsed_headers(hs),
        0 <= k <= hs.len(),
        0 <= base,
        base + header_lines(hs).len() + 2 <= b.len(),
        b.subrange(base, base + header_lines(hs).len() + 2) == header_lines(hs) + seq![13u8, 10u8],
    ensures
        headers_spec(b, base + header_lines(hs.subrange(0, k)).len(), hs.subrange(0, k)) == Some(
            (hs, base + header_lines(hs).len() + 2),
        ),
    decreases hs.len() - k,
{
    let all = header_lines(hs);
    let head = hs.subrange(0, k);
    let pk = base + header_lines(head).len();
    let framed = all + seq![13u8, 10u8];
    assert forall|j: int| 0 <= j < framed.len() implies b[base + j] == #[trigger] framed[j] by {
        assert(b.subrange(base, base + framed.len())[j] == b[base + j]);
    }
    if k == hs.len() {
        assert(head =~= hs);
        assert(b[base + all.len()] == framed[all.len() as int]);
        assert(b[base + (all.len() + 1)] == framed[all.len() as int + 1]);
    } else {
        let h = hs[k];
        let line = header_line(h);
        let tail = hs.subrange(k + 1, hs.len() as int);
        assert(hs =~= head + (seq![h] + tail));
        lemma_header_lines_concat(head, seq![h] + tail);
        lemma_header_lines_concat(seq![h], tail);
        lemma_header_lines_one(h);
        assert(all == header_lines(head) + (line + header_lines(tail)));
        assert forall|j: int| 0 <= j < line.len() implies b[pk + j] == #[trigger] line[j] by {
            assert(framed[header_lines(head).len() as int + j] == line[j]);
            assert(b[base + (header_lines(head).len() + j)] == framed[header_lines(head).len() as int + j]);
        }
        assert(parsed_headers(hs));
        let name = h.0;
        let value = h.1;
        assert(header_valid_spec(name, value) && valid_utf8(name) && valid_utf8(value));
        lemma_reparse_line(b, pk, h);
        assert(find_header(head, name) is None) by {
            crate::header::lemma_find_from(head, name, 0);
            match find_header(head, name) {
                Some(i) => {
                    assert(head[i] == hs[i]);
                    assert(!ci_eq(hs[i].0, hs[k].0));
                },
                None => {},
            }
        }
        assert(add_header(head, name, value) =~= hs.subrange(0, k + 1));
        assert(hs.subrange(0, k + 1).drop_last() =~= head);
        assert(hs.subrange(0, k + 1).last() == h);
        assert(header_lines(hs.subrange(0, k + 1)) == header_lines(head) + line);
        lemma_reparse_headers(b, base, hs, k + 1);
    }
}

/// A written request line parses back.
proof fn lemma_reparse_request_line(meth: RequestMethod, url: Seq<u8>, rest: Seq<u8>)
    requires
        url.len() > 0,
        valid_utf8(url),
        forall|j: int| 0 <= j < url.len() ==> url[j] != 32,
    ensures
        ({
            let line = utf8(method_text(meth)) + seq![32u8] + url + seq![32u8] + http11_bytes() + seq![13u8, 10u8];
            request_line_spec(line + rest) == Some((meth, url, line.len() as int))
        }),
{
    let mt = utf8(method_text(meth));
    lemma_method_has_no_space(meth);
    let line = mt + seq![32u8] + url + seq![32u8] + http11_bytes() + seq![13u8, 10u8];
    let s = line + rest;
    let a = mt.len() as int;
    assert forall|j: int| 0 <= j < a implies s[j] != 32 by {
        assert(s[j] == mt[j]);
    }
    assert(s[a] == 32);
    lemma_find_byte_at(s, 32, 0, a);
    let b2 = a + 1 + url.len();
    assert forall|j: int| a + 1 <= j < b2 implies s[j] != 32 by {
        assert(s[j] == url[j - a - 1]);
    }
    assert(s[b2] == 32);
    lemma_find_byte_at(s, 32, a + 1, b2);
    assert(s.subrange(0, a) =~= mt);
    assert(s.subrange(a + 1, b2) =~= url);
    assert(s.subrange(b2 + 1, b2 + 9) =~= http11_bytes());
    assert(s[b2 + 9] == 13 && s[b2 + 10] == 10);
    assert(method_of_bytes(mt) == Some(meth)) by {
        let c = choose|c: RequestMethod| utf8(method_text(c)) == mt;
        crate::request_method::lemma_method_text_injective(c, meth);
    }
}

/// Writing a parsed request out and parsing it again gives the same
/// request, complete: the same method, target, headers and body. This holds
/// for complete requests whose body is empty or has a declared length; a
/// chunked request's body is written decoded, so it does not read back as
/// chunks.
#[verifier::rlimit(100)]
#[verifier::spinoff_prover]
pub proof fn law_round_trip(bytes: Seq<u8>)
    requires
        parse_request_spec(bytes) matches Some((m, complete)) && complete
            && body_type_spec(m.2) != RequestBodyType::TransferEncodingChunked,
    ensures
        parse_request_spec(bytes) matches Some((m, _)) && parse_request_spec(
            request_bytes_spec(m.0, m.1, HttpVersion::Http1_1, m.2, m.3),
        ) == Some((m, true)),
{
    let (meth, url, p) = request_line_spec(bytes)->0;
    let (hs, q) = headers_spec(bytes, p, Seq::empty())->0;
    let parsed = parse_request_spec(bytes)->0;
    let m = parsed.0;
    let body = m.3;
    let sp1 = find_byte_spec(bytes, 32, 0)->0;
    lemma_find_byte(bytes, 32, 0);
    let sp2 = find_byte_spec(bytes, 32, sp1 + 1)->0;
    lemma_find_byte(bytes, 32, sp1 + 1);
    assert forall|j: int| 0 <= j < url.len() implies url[j] != 32 by {
        assert(url[j] == bytes[sp1 + 1 + j]);
    }
    assert(parsed_headers(Seq::<(Seq<u8>, Seq<u8>)>::empty()));
    lemma_headers_parsed(bytes, p, Seq::empty());
    let hl = header_lines(hs);
    let line = utf8(method_text(meth)) + seq![32u8] + url + seq![32u8] + http11_bytes() + seq![13u8, 10u8];
    let rest = hl + seq![13u8, 10u8] + body;
    let s = request_bytes_spec(meth, url, HttpVersion::Http1_1, hs, body);
    assert(s =~= line + rest);
    lemma_reparse_request_line(meth, url, rest);
    let l = line.len() as int;
    assert(s.subrange(l, l + hl.len() + 2) =~= hl + seq![13u8, 10u8]);
    assert(hs.subrange(0, 0) =~= Seq::<(Seq<u8>, Seq<u8>)>::empty());
    assert(header_lines(Seq::<(Seq<u8>, Seq<u8>)>::empty()).len() == 0);
    lemma_reparse_headers(s, l, hs, 0);
    let q2 = l + hl.len() + 2;
    assert(s.subrange(q2, s.len() as int) =~= body);
    assert(request_line_spec(s) == Some((meth, url, l)));
    assert(headers_spec(s, l, Seq::empty()) == Some((hs, q2)));
    assert(m == (meth, url, hs, body));
    if body_type_spec(hs) == RequestBodyType::ContentLength {
        assert(parsed.1 == (bytes.subrange(q, bytes.len() as int).len() == content_length_spec(hs)->0));
    } else {
        assert(body_type_spec(hs) == RequestBodyType::Empty);
        assert(body =~= Seq::<u8>::empty());
    }
}

} // verus!
