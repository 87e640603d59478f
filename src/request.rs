use vstd::prelude::*;
use vstd::utf8::valid_utf8;
use crate::bytes::{copy_range, find_byte, find_byte_spec, lemma_find_byte, push_all};
use crate::header::{
    add_header, content_length_name, has_header_spec, header_lines, header_valid_spec,
    header_value, is_header_valid, names_distinct, HeaderList, Headers,
};
use crate::http_version::{http11_bytes, version_bytes, HttpVersion};
use crate::request_method::{method_of_bytes, method_text, RequestMethod};
use crate::text::{parse_decimal_spec, parse_hex_spec, utf8};

verus! {

/// How the body of a request is framed.
#[derive(Debug, Clone, Copy, PartialEq, Eq, Structural)]
pub enum RequestBodyType {
    Empty,
    ContentLength,
    TransferEncodingChunked,
}

/// A parsed request: method, target, headers and body, with text as bytes.
pub type RequestModel = (RequestMethod, Seq<u8>, HeaderList, Seq<u8>);

/// An HTTP request.
#[derive(Debug)]
pub struct Request {
    pub method: RequestMethod,
    pub url: String,
    pub version: HttpVersion,
    pub headers: Headers,
    pub body: Vec<u8>,
}

pub open spec fn transfer_encoding_name() -> Seq<u8> {
    seq![84u8, 114u8, 97u8, 110u8, 115u8, 102u8, 101u8, 114u8, 45u8, 69u8, 110u8, 99u8, 111u8, 100u8, 105u8, 110u8, 103u8]
}

pub open spec fn chunked_bytes() -> Seq<u8> {
    seq![99u8, 104u8, 117u8, 110u8, 107u8, 101u8, 100u8]
}

/// The declared body length: the `Content-Length` value, when it is a
/// non-negative integer.
pub open spec fn content_length_spec(hs: HeaderList) -> Option<usize> {
    match header_value(hs, content_length_name()) {
        Some(v) => parse_decimal_spec(v),
        None => None,
    }
}

/// A declared length wins over `Transfer-Encoding: chunked`.
pub open spec fn body_type_spec(hs: HeaderList) -> RequestBodyType {
    if content_length_spec(hs) is Some {
        RequestBodyType::ContentLength
    } else if has_header_spec(hs, transfer_encoding_name(), Some(chunked_bytes())) {
        RequestBodyType::TransferEncodingChunked
    } else {
        RequestBodyType::Empty
    }
}

/// The request line `METHOD SP target SP HTTP/1.1 CR LF`: the method, the
/// target, and where the headers start.
pub open spec fn request_line_spec(b: Seq<u8>) -> Option<(RequestMethod, Seq<u8>, int)> {
    match find_byte_spec(b, 32, 0) {
        None => None,
        Some(sp1) => match find_byte_spec(b, 32, sp1 + 1) {
            None => None,
            Some(sp2) => {
                let url = b.subrange(sp1 + 1, sp2);
                if method_of_bytes(b.subrange(0, sp1)) is Some && url.len() > 0 && valid_utf8(url)
                    && sp2 + 11 <= b.len() && b.subrange(sp2 + 1, sp2 + 9) == http11_bytes()
                    && b[sp2 + 9] == 13 && b[sp2 + 10] == 10 {
                    Some((method_of_bytes(b.subrange(0, sp1))->0, url, sp2 + 11))
                } else {
                    None
                }
            },
        },
    }
}

/// The first index at or after `i` that is neither a space nor a tab.
pub open spec fn skip_ows_spec(b: Seq<u8>, i: int) -> int
    decreases b.len() - i,
{
    if i < 0 || i >= b.len() {
        i
    } else if b[i] == 32 || b[i] == 9 {
        skip_ows_spec(b, i + 1)
    } else {
        i
    }
}

/// One header line starting at `p`: the name, the value and where the next
/// line starts. The name runs to the first `:`, optional spaces and tabs
/// follow, and the value runs to CR LF.
pub open spec fn header_line_spec(b: Seq<u8>, p: int) -> Option<(Seq<u8>, Seq<u8>, int)> {
    match find_byte_spec(b, 58, p) {
        None => None,
        Some(c) => {
            let v = skip_ows_spec(b, c + 1);
            match find_byte_spec(b, 10, v) {
                None => None,
                Some(lf) => {
                    if lf > v && b[lf - 1] == 13 {
                        Some((b.subrange(p, c), b.subrange(v, lf - 1), lf + 1))
                    } else {
                        None
                    }
                },
            }
        },
    }
}

/// The header section from `p`, added to `hs`, up to and including the
/// empty line: the headers and where the body starts.
pub open spec fn headers_spec(b: Seq<u8>, p: int, hs: HeaderList) -> Option<(HeaderList, int)>
    decreases b.len() - p,
{
    if p < 0 || p >= b.len() {
        None
    } else if b[p] == 13 {
        if p + 1 < b.len() && b[p + 1] == 10 {
            Some((hs, p + 2))
        } else {
            None
        }
    } else {
        match header_line_spec(b, p) {
            None => None,
            Some((name, value, next)) => {
                if p < next <= b.len() && header_valid_spec(name, value) && valid_utf8(name) && valid_utf8(value) {
                    headers_spec(b, next, add_header(hs, name, value))
                } else {
                    None
                }
            },
        }
    }
}

/// `acc` put in front of the decoded bytes of a chunked parse.
pub open spec fn prepend(acc: Seq<u8>, r: Option<(Seq<u8>, bool)>) -> Option<(Seq<u8>, bool)> {
    match r {
        Some((x, c)) => Some((acc + x, c)),
        None => None,
    }
}

/// A chunked body from `p`: chunks `size-hex CR LF payload CR LF`, ended by
/// a chunk of size zero. The result holds the payloads decoded so far and
/// whether the final chunk was seen; `None` is a malformed body.
pub open spec fn chunked_spec(b: Seq<u8>, p: int) -> Option<(Seq<u8>, bool)>
    decreases b.len() - p,
{
    if p < 0 || p >= b.len() {
        Some((Seq::empty(), false))
    } else {
        match find_byte_spec(b, 10, p) {
            None => Some((Seq::empty(), false)),
            Some(lf) => {
                if lf <= p || lf >= b.len() || b[lf - 1] != 13 {
                    None
                } else {
                    match parse_hex_spec(b.subrange(p, lf - 1)) {
                        None => None,
                        Some(n) => {
                            let d = lf + 1;
                            if d + n + 2 > b.len() {
                                Some((Seq::empty(), false))
                            } else if b[d + n] != 13 || b[d + n + 1] != 10 {
                                None
                            } else if n == 0 {
                                Some((Seq::empty(), true))
                            } else {
                                prepend(b.subrange(d, d + n), chunked_spec(b, d + n + 2))
                            }
                        },
                    }
                }
            },
        }
    }
}

/// A whole request: the parsed request and whether its body is complete,
/// or `None` for a malformed one.
pub open spec fn parse_request_spec(b: Seq<u8>) -> Option<(RequestModel, bool)> {
    match request_line_spec(b) {
        None => None,
        Some((m, url, p)) => match headers_spec(b, p, Seq::empty()) {
            None => None,
            Some((hs, q)) => {
                let rest = b.subrange(q, b.len() as int);
                match body_type_spec(hs) {
                    RequestBodyType::ContentLength => Some(
                        ((m, url, hs, rest), rest.len() == content_length_spec(hs)->0),
                    ),
                    RequestBodyType::TransferEncodingChunked => match chunked_spec(rest, 0) {
                        None => None,
                        Some((body, c)) => Some(((m, url, hs, body), c)),
                    },
                    RequestBodyType::Empty => Some(((m, url, hs, Seq::empty()), true)),
                }
            },
        },
    }
}

/// A request as it is written on the wire.
pub open spec fn request_bytes_spec(m: RequestMethod, url: Seq<u8>, v: HttpVersion, hs: HeaderList, body: Seq<u8>) -> Seq<u8> {
    utf8(method_text(m)) + seq![32u8] + url + seq![32u8] + version_bytes(v) + seq![13u8, 10u8]
        + header_lines(hs) + seq![13u8, 10u8] + body
}

impl Request {
    /// The request as bytes-level data.
    pub open spec fn model(&self) -> RequestModel {
        (self.method, utf8(self.url@), self.headers@, self.body@)
    }

    /// Whether a header named `header_name` exists and, when `header_value`
    /// is given, has that value; both compared up to ASCII case.
    pub fn has_header(&self, header_name: &str, header_value: Option<&str>) -> (r: bool)
        ensures
            r == has_header_spec(
                self.headers@,
                utf8(header_name@),
                match header_value {
                    Some(v) => Some(utf8(v@)),
                    None => None,
                },
            ),
    {
        self.headers.has(header_name, header_value)
    }

    /// The value of the header named `header_name` (up to ASCII case).
    pub fn get_header(&self, header_name: &str) -> (r: Option<String>)
        ensures
            r is Some <==> header_value(self.headers@, utf8(header_name@)) is Some,
            r matches Some(s) ==> header_value(self.headers@, utf8(header_name@)) == Some(utf8(s@)),
    {
        self.headers.get(header_name)
    }

    /// The declared body length.
    pub fn content_length(&self) -> (r: Option<usize>)
        ensures
            r == content_length_spec(self.headers@),
    {
        let name: Vec<u8> = vec![67u8, 111u8, 110u8, 116u8, 101u8, 110u8, 116u8, 45u8, 76u8, 101u8, 110u8, 103u8, 116u8, 104u8];
        assert(name@ =~= content_length_name());
        match self.headers.get("Content-Length") {
            Some(v) => {
                proof { lemma_content_length_literal(); }
                crate::text::parse_decimal(v.as_str().as_bytes())
            },
            None => {
                proof { lemma_content_length_literal(); }
                None
            },
        }
    }

    /// How the body is framed.
    pub fn body_type(&self) -> (r: RequestBodyType)
        ensures
            r == body_type_spec(self.headers@),
    {
        if self.content_length().is_some() {
            RequestBodyType::ContentLength
        } else if self.has_header("Transfer-Encoding", Some("chunked")) {
            proof { lemma_transfer_encoding_literals(); }
            RequestBodyType::TransferEncodingChunked
        } else {
            proof { lemma_transfer_encoding_literals(); }
            RequestBodyType::Empty
        }
    }

    /// The request written as it goes on the wire.
    pub fn as_bytes(&self) -> (r: Vec<u8>)
        ensures
            r@ == request_bytes_spec(self.method, utf8(self.url@), self.version, self.headers@, self.body@),
    {
        let mut r: Vec<u8> = Vec::new();
        push_all(&mut r, self.method.as_str().as_bytes());
        r.push(32u8);
        push_all(&mut r, self.url.as_str().as_bytes());
        r.push(32u8);
        let v = self.version.as_bytes();
        push_all(&mut r, v.as_slice());
        r.push(13u8);
        r.push(10u8);
        self.headers.write_lines(&mut r);
        r.push(13u8);
        r.push(10u8);
        push_all(&mut r, self.body.as_slice());
        assert(r@ =~= request_bytes_spec(self.method, utf8(self.url@), self.version, self.headers@, self.body@));
        r
    }
}

/// Parses the request line; on success also returns where the headers start.
pub fn parse_request_line(b: &[u8]) -> (r: Result<(RequestMethod, String, HttpVersion, usize), ()>)
    ensures
        r is Err <==> request_line_spec(b@) is None,
        r matches Ok((m, url, v, p)) ==> request_line_spec(b@) == Some((m, utf8(url@), p as int))
            && v == HttpVersion::Http1_1,
{
    let len = b.len();
    let sp1 = match find_byte(b, 32, 0) {
        None => return Err(()),
        Some(k) => k,
    };
    let sp2 = match find_byte(b, 32, sp1 + 1) {
        None => return Err(()),
        Some(k) => k,
    };
    let method = match RequestMethod::from_bytes(&b[0..sp1]) {
        None => return Err(()),
        Some(m) => m,
    };
    if sp2 == sp1 + 1 {
        return Err(());
    }
    if b.len() < 11 || sp2 > b.len() - 11 {
        return Err(());
    }
    let version: Vec<u8> = vec![72u8, 84u8, 84u8, 80u8, 47u8, 49u8, 46u8, 49u8];
    assert(version@ =~= http11_bytes());
    if !crate::bytes::slice_eq(&b[sp2 + 1..sp2 + 9], version.as_slice()) || b[sp2 + 9] != 13
        || b[sp2 + 10] != 10 {
        return Err(());
    }
    let url = match crate::text::string_from_utf8(copy_range(b, sp1 + 1, sp2)) {
        None => return Err(()),
        Some(s) => s,
    };
    Ok((method, url, HttpVersion::Http1_1, sp2 + 11))
}

/// The first index at or after `i` that is neither a space nor a tab.
fn skip_ows(b: &[u8], i: usize) -> (r: usize)
    ensures
        r as int == skip_ows_spec(b@, i as int),
        i <= r,
        i <= b@.len() ==> r <= b@.len(),
{
    let mut k: usize = i;
    while k < b.len() && (b[k] == 32 || b[k] == 9)
        invariant
            i <= k,
            i <= b@.len() ==> k <= b@.len(),
            skip_ows_spec(b@, i as int) == skip_ows_spec(b@, k as int),
        decreases b@.len() - k,
    {
        k = k + 1;
    }
    k
}

/// Parses the header section that starts at `start`, through the empty
/// line; on success also returns where the body starts.
pub fn parse_headers(b: &[u8], start: usize) -> (r: Result<(Headers, usize), ()>)
    ensures
        r is Err <==> headers_spec(b@, start as int, Seq::empty()) is None,
        r matches Ok((h, q)) ==> headers_spec(b@, start as int, Seq::empty()) == Some((h@, q as int))
            && names_distinct(h@),
{
    let mut headers = Headers::new();
    let mut p: usize = start;
    loop
        invariant
            headers_spec(b@, start as int, Seq::empty()) == headers_spec(b@, p as int, headers@),
            names_distinct(headers@),
        decreases b@.len() - p,
    {
        if p >= b.len() {
            return Err(());
        }
        if b[p] == 13 {
            if p + 1 < b.len() && b[p + 1] == 10 {
                return Ok((headers, p + 2));
            }
            return Err(());
        }
        let c = match find_byte(b, 58, p) {
            None => return Err(()),
            Some(k) => k,
        };
        let v = skip_ows(b, c + 1);
        let lf = match find_byte(b, 10, v) {
            None => return Err(()),
            Some(k) => k,
        };
        if !(lf > v && b[lf - 1] == 13) {
            return Err(());
        }
        let name = match crate::text::string_from_utf8(copy_range(b, p, c)) {
            None => return Err(()),
            Some(s) => s,
        };
        let value = match crate::text::string_from_utf8(copy_range(b, v, lf - 1)) {
            None => return Err(()),
            Some(s) => s,
        };
        if !is_header_valid(name.as_str(), value.as_str()) {
            return Err(());
        }
        headers.add(name.as_str(), value.as_str());
        p = lf + 1;
    }
}

/// `prepend` composes by concatenation.
proof fn lemma_prepend_twice(a: Seq<u8>, x: Seq<u8>, r: Option<(Seq<u8>, bool)>)
    ensures
        prepend(a, prepend(x, r)) == prepend(a + x, r),
{
    match r {
        Some((y, c)) => {
            assert(a + (x + y) =~= (a + x) + y);
        },
        None => {},
    }
}

/// Decodes a chunked body: the payloads decoded so far and whether the
/// terminating zero-size chunk was seen.
pub fn parse_chunked_body(body: Vec<u8>) -> (r: Result<(Vec<u8>, bool), ()>)
    ensures
        r is Err <==> chunked_spec(body@, 0) is None,
        r matches Ok((d, c)) ==> chunked_spec(body@, 0) == Some((d@, c)),
{
    let b = body.as_slice();
    let mut acc: Vec<u8> = Vec::new();
    let mut p: usize = 0;
    assert(prepend(acc@, chunked_spec(b@, 0)) == chunked_spec(b@, 0)) by {
        match chunked_spec(b@, 0) {
            Some((y, c)) => { assert(acc@ + y =~= y); },
            None => {},
        }
    }
    loop
        invariant
            b@ == body@,
            chunked_spec(b@, 0) == prepend(acc@, chunked_spec(b@, p as int)),
        decreases b@.len() - p,
    {
        if p >= b.len() {
            assert(acc@ + Seq::<u8>::empty() =~= acc@);
            return Ok((acc, false));
        }
        let lf = match find_byte(b, 10, p) {
            None => {
                assert(acc@ + Seq::<u8>::empty() =~= acc@);
                return Ok((acc, false));
            },
            Some(k) => k,
        };
        if lf == p || b[lf - 1] != 13 {
            return Err(());
        }
        let n = match crate::text::parse_hex(&b[p..lf - 1]) {
            None => return Err(()),
            Some(n) => n,
        };
        let d = lf + 1;
        if n > b.len() - d || b.len() - d - n < 2 {
            assert(acc@ + Seq::<u8>::empty() =~= acc@);
            return Ok((acc, false));
        }
        if b[d + n] != 13 || b[d + n + 1] != 10 {
            return Err(());
        }
        if n == 0 {
            assert(acc@ + Seq::<u8>::empty() =~= acc@);
            return Ok((acc, true));
        }
        let ghost before = acc@;
        push_all(&mut acc, &b[d..d + n]);
        proof {
            lemma_prepend_twice(before, b@.subrange(d as int, d + n), chunked_spec(b@, d + n + 2));
        }
        p = d + n + 2;
    }
}

/// Parses a request. On success returns the request and whether its body
/// is complete; a malformed request is an error.
pub fn parse_request(bytes: &[u8]) -> (r: Result<(Request, bool), ()>)
    ensures
        r is Err <==> parse_request_spec(bytes@) is None,
        r matches Ok((req, c)) ==> parse_request_spec(bytes@) == Some((req.model(), c))
            && req.version == HttpVersion::Http1_1 && names_distinct(req.headers@),
{
    let (method, url, version, p) = match parse_request_line(bytes) {
        Err(()) => return Err(()),
        Ok(x) => x,
    };
    let (headers, q) = match parse_headers(bytes, p) {
        Err(()) => return Err(()),
        Ok(x) => x,
    };
    proof { lemma_headers_end(bytes@, p as int, Seq::empty()); }
    let mut request = Request { method, url, version, headers, body: Vec::new() };
    let rest = copy_range(bytes, q, bytes.len());
    let complete = match request.body_type() {
        RequestBodyType::ContentLength => {
            let n = request.content_length().unwrap();
            request.body = rest;
            request.body.len() == n
        },
        RequestBodyType::TransferEncodingChunked => {
            match parse_chunked_body(rest) {
                Err(()) => return Err(()),
                Ok((body, c)) => {
                    request.body = body;
                    c
                },
            }
        },
        RequestBodyType::Empty => true,
    };
    Ok((request, complete))
}

/// Where a successful header parse stops lies within the input.
proof fn lemma_headers_end(b: Seq<u8>, p: int, hs: HeaderList)
    ensures
        headers_spec(b, p, hs) matches Some((h, q)) ==> q <= b.len(),
    decreases b.len() - p,
{
    if 0 <= p < b.len() && b[p] != 13 {
        match header_line_spec(b, p) {
            Some((name, value, next)) => {
                if p < next <= b.len() {
                    lemma_headers_end(b, next, add_header(hs, name, value));
                }
            },
            None => {},
        }
    }
}

/// The literal `Content-Length` has the expected bytes.
pub(crate) proof fn lemma_content_length_literal()
    ensures
        utf8("Content-Length"@) == content_length_name(),
{
    reveal_strlit("Content-Length");
    crate::text::lemma_ascii_utf8("Content-Length"@, content_length_name());
}

/// The literals `Transfer-Encoding` and `chunked` have the expected bytes.
proof fn lemma_transfer_encoding_literals()
    ensures
        utf8("Transfer-Encoding"@) == transfer_encoding_name(),
        utf8("chunked"@) == chunked_bytes(),
{
    reveal_strlit("Transfer-Encoding");
    reveal_strlit("chunked");
    crate::text::lemma_ascii_utf8("Transfer-Encoding"@, transfer_encoding_name());
    crate::text::lemma_ascii_utf8("chunked"@, chunked_bytes());
}

} // verus!
