use vstd::prelude::*;
use crate::bytes::push_all;
use crate::header::{
    add_header, content_length_name, header_lines, header_value, names_distinct, HeaderList,
    Headers,
};
use crate::http_version::{version_bytes, HttpVersion};
use crate::response_status_code::{status_bytes, ResponseStatusCode};
use crate::text::{decimal_bytes, utf8};

verus! {

/// A response as data: version, status, headers and body.
pub type ResponseModel = (HttpVersion, ResponseStatusCode, HeaderList, Seq<u8>);

/// A response as it is written on the wire: the status line, the header
/// lines, an empty line, then the body.
pub open spec fn response_bytes(m: ResponseModel) -> Seq<u8> {
    status_line(m.0, m.1) + header_lines(m.2) + seq![13u8, 10u8] + m.3
}

/// `version SP code SP reason CR LF`.
pub open spec fn status_line(v: HttpVersion, s: ResponseStatusCode) -> Seq<u8> {
    version_bytes(v) + seq![32u8] + status_bytes(s) + seq![13u8, 10u8]
}

/// What a builder hands out: a non-empty body gets a `Content-Length`
/// header holding the body's length, replacing any value set before.
pub open spec fn finish_spec(m: ResponseModel) -> ResponseModel {
    if m.3.len() > 0 {
        (m.0, m.1, add_header(m.2, content_length_name(), decimal_bytes(m.3.len())), m.3)
    } else {
        m
    }
}

/// An HTTP response.
#[derive(Debug)]
pub struct Response {
    version: HttpVersion,
    status_code: ResponseStatusCode,
    headers: Headers,
    body: Vec<u8>,
}

impl View for Response {
    type V = ResponseModel;

    closed spec fn view(&self) -> ResponseModel {
        (self.version, self.status_code, self.headers@, self.body@)
    }
}

impl Response {
    pub fn version(&self) -> (r: &HttpVersion)
        ensures
            *r == self@.0,
    {
        &self.version
    }

    pub fn status_code(&self) -> (r: &ResponseStatusCode)
        ensures
            *r == self@.1,
    {
        &self.status_code
    }

    pub fn headers(&self) -> (r: &Headers)
        ensures
            r@ == self@.2,
    {
        &self.headers
    }

    pub fn body(&self) -> (r: &Vec<u8>)
        ensures
            r@ == self@.3,
    {
        &self.body
    }

    pub fn set_status_code(&mut self, status_code: ResponseStatusCode)
        ensures
            final(self)@ == (old(self)@.0, status_code, old(self)@.2, old(self)@.3),
    {
        self.status_code = status_code;
    }

    /// Sets a header, replacing the value of one with the same name (up to
    /// ASCII case).
    pub fn set_header(&mut self, header_name: &str, header_value: &str)
        ensures
            final(self)@ == (
                old(self)@.0,
                old(self)@.1,
                add_header(old(self)@.2, utf8(header_name@), utf8(header_value@)),
                old(self)@.3,
            ),
            names_distinct(old(self)@.2) ==> names_distinct(final(self)@.2),
    {
        self.headers.add(header_name, header_value);
    }

    pub fn set_body(&mut self, body: Vec<u8>)
        ensures
            final(self)@ == (old(self)@.0, old(self)@.1, old(self)@.2, body@),
    {
        self.body = body;
    }

    /// The response as it goes on the wire.
    pub fn as_bytes(&self) -> (r: Vec<u8>)
        ensures
            r@ == response_bytes(self@),
    {
        let mut r = self.version.as_bytes();
        r.push(32u8);
        let status = self.status_code.as_bytes();
        push_all(&mut r, status.as_slice());
        r.push(13u8);
        r.push(10u8);
        self.headers.write_lines(&mut r);
        r.push(13u8);
        r.push(10u8);
        push_all(&mut r, self.body.as_slice());
        assert(r@ =~= response_bytes(self@));
        r
    }

    /// A builder that starts from `200 OK` with no headers and no body.
    pub fn builder() -> (r: ResponseBuilder)
        ensures
            r@ == (HttpVersion::Http1_1, ResponseStatusCode::Okay, Seq::<(Seq<u8>, Seq<u8>)>::empty(), Seq::<u8>::empty()),
    {
        ResponseBuilder::new()
    }
}

/// Builds a response step by step.
#[derive(Debug)]
pub struct ResponseBuilder {
    response: Response,
}

impl View for ResponseBuilder {
    type V = ResponseModel;

    closed spec fn view(&self) -> ResponseModel {
        self.response@
    }
}

impl ResponseBuilder {
    /// Starts from `200 OK` with no headers and no body.
    pub fn new() -> (r: Self)
        ensures
            r@ == (HttpVersion::Http1_1, ResponseStatusCode::Okay, Seq::<(Seq<u8>, Seq<u8>)>::empty(), Seq::<u8>::empty()),
    {
        ResponseBuilder {
            response: Response {
                version: HttpVersion::Http1_1,
                status_code: ResponseStatusCode::Okay,
                headers: Headers::new(),
                body: Vec::new(),
            },
        }
    }

    pub fn status_code(self, status_code: ResponseStatusCode) -> (r: Self)
        ensures
            r@ == (self@.0, status_code, self@.2, self@.3),
    {
        let mut b = self;
        b.response.status_code = status_code;
        b
    }

    /// Sets a header, replacing one with the same name (up to ASCII case).
    pub fn header(self, header_name: &str, header_value: &str) -> (r: Self)
        ensures
            r@ == (self@.0, self@.1, add_header(self@.2, utf8(header_name@), utf8(header_value@)), self@.3),
            names_distinct(self@.2) ==> names_distinct(r@.2),
    {
        let mut b = self;
        b.response.headers.add(header_name, header_value);
        b
    }

    pub fn body(self, body: Vec<u8>) -> (r: Self)
        ensures
            r@ == (self@.0, self@.1, self@.2, body@),
    {
        let mut b = self;
        b.response.body = body;
        b
    }

    /// Sets the body to the bytes of `body`.
    pub fn text_body(self, body: &str) -> (r: Self)
        ensures
            r@ == (self@.0, self@.1, self@.2, utf8(body@)),
    {
        let mut b = self;
        let mut bytes: Vec<u8> = Vec::new();
        push_all(&mut bytes, body.as_bytes());
        b.response.body = bytes;
        b
    }

    /// The response; a non-empty body gets a `Content-Length` header with
    /// the body's length, replacing any value set before.
    pub fn get(self) -> (r: Response)
        ensures
            r@ == finish_spec(self@),
            names_distinct(self@.2) ==> names_distinct(r@.2),
    {
        let mut response = self.response;
        if response.body.len() > 0 {
            let len = crate::text::usize_to_string(response.body.len());
            proof { crate::request::lemma_content_length_literal(); }
            response.headers.add("Content-Length", len.as_str());
            return response;
        }
        proof { crate::request::lemma_content_length_literal(); }
        response
    }
}

} // verus!
