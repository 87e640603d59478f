use vstd::prelude::*;
use vstd::utf8::encode_utf8;

verus! {

/// The response status codes this server knows, each with its number and
/// canonical reason phrase.
#[derive(Debug, Clone, Copy, PartialEq, Eq, Structural)]
pub enum ResponseStatusCode {
    Continue,
    SwitchingProtocols,
    Okay,
    Created,
    Accepted,
    NoContent,
    MovedPermanently,
    Found,
    SeeOther,
    NotModified,
    TemporaryRedirect,
    PermanentRedirect,
    BadRequest,
    Unauthorized,
    Forbidden,
    NotFound,
    MethodNotAllowed,
    RequestTimeout,
    ImATeapot,
    TooManyRequests,
    InternalServerError,
    NotImplemented,
    BadGateway,
    ServiceUnavailable,
    GatewayTimeout,
    HttpVersionNotSupported,
}

/// The numeric value of a status code.
pub open spec fn code_value(s: ResponseStatusCode) -> u16 {
    match s {
        ResponseStatusCode::Continue => 100,
        ResponseStatusCode::SwitchingProtocols => 101,
        ResponseStatusCode::Okay => 200,
        ResponseStatusCode::Created => 201,
        ResponseStatusCode::Accepted => 202,
        ResponseStatusCode::NoContent => 204,
        ResponseStatusCode::MovedPermanently => 301,
        ResponseStatusCode::Found => 302,
        ResponseStatusCode::SeeOther => 303,
        ResponseStatusCode::NotModified => 304,
        ResponseStatusCode::TemporaryRedirect => 307,
        ResponseStatusCode::PermanentRedirect => 308,
        ResponseStatusCode::BadRequest => 400,
        ResponseStatusCode::Unauthorized => 401,
        ResponseStatusCode::Forbidden => 403,
        ResponseStatusCode::NotFound => 404,
        ResponseStatusCode::MethodNotAllowed => 405,
        ResponseStatusCode::RequestTimeout => 408,
        ResponseStatusCode::ImATeapot => 418,
        ResponseStatusCode::TooManyRequests => 429,
        ResponseStatusCode::InternalServerError => 500,
        ResponseStatusCode::NotImplemented => 501,
        ResponseStatusCode::BadGateway => 502,
        ResponseStatusCode::ServiceUnavailable => 503,
        ResponseStatusCode::GatewayTimeout => 504,
        ResponseStatusCode::HttpVersionNotSupported => 505,
    }
}

/// The canonical reason phrase of a status code.
pub open spec fn reason_text(s: ResponseStatusCode) -> Seq<char> {
    match s {
        ResponseStatusCode::Continue => "Continue"@,
        ResponseStatusCode::SwitchingProtocols => "Switching Protocols"@,
        ResponseStatusCode::Okay => "OK"@,
        ResponseStatusCode::Created => "Created"@,
        ResponseStatusCode::Accepted => "Accepted"@,
        ResponseStatusCode::NoContent => "No Content"@,
        ResponseStatusCode::MovedPermanently => "Moved Permanently"@,
        ResponseStatusCode::Found => "Found"@,
        ResponseStatusCode::SeeOther => "See Other"@,
        ResponseStatusCode::NotModified => "Not Modified"@,
        ResponseStatusCode::TemporaryRedirect => "Temporary Redirect"@,
        ResponseStatusCode::PermanentRedirect => "Permanent Redirect"@,
        ResponseStatusCode::BadRequest => "Bad Request"@,
        ResponseStatusCode::Unauthorized => "Unauthorized"@,
        ResponseStatusCode::Forbidden => "Forbidden"@,
        ResponseStatusCode::NotFound => "Not Found"@,
        ResponseStatusCode::MethodNotAllowed => "Method Not Allowed"@,
        ResponseStatusCode::RequestTimeout => "Request Timeout"@,
        ResponseStatusCode::ImATeapot => "I'm a teapot"@,
        ResponseStatusCode::TooManyRequests => "Too Many Requests"@,
        ResponseStatusCode::InternalServerError => "Internal Server Error"@,
        ResponseStatusCode::NotImplemented => "Not Implemented"@,
        ResponseStatusCode::BadGateway => "Bad Gateway"@,
        ResponseStatusCode::ServiceUnavailable => "Service Unavailable"@,
        ResponseStatusCode::GatewayTimeout => "Gateway Timeout"@,
        ResponseStatusCode::HttpVersionNotSupported => "Http Version Not Supported"@,
    }
}

/// The known status code with the given number, if any.
pub open spec fn status_of_code(c: u16) -> Option<ResponseStatusCode> {
    if exists|s: ResponseStatusCode| code_value(s) == c {
        Some(choose|s: ResponseStatusCode| code_value(s) == c)
    } else {
        None
    }
}

/// The ASCII digit for a value below ten.
pub open spec fn digit_byte(d: int) -> u8 {
    (d + 48) as u8
}

/// The three decimal digits of a status code number.
pub open spec fn code_digits(c: u16) -> Seq<u8> {
    seq![digit_byte(c as int / 100), digit_byte((c as int / 10) % 10), digit_byte(c as int % 10)]
}

/// How a status is written on a status line: `code SP reason`.
pub open spec fn status_bytes(s: ResponseStatusCode) -> Seq<u8> {
    code_digits(code_value(s)) + seq![32u8] + encode_utf8(reason_text(s))
}

/// Two distinct statuses have distinct numbers.
pub proof fn lemma_code_value_injective(a: ResponseStatusCode, b: ResponseStatusCode)
    ensures
        code_value(a) == code_value(b) ==> a == b,
{
}

impl ResponseStatusCode {
    /// The numeric value, e.g. 404.
    pub fn code(&self) -> (r: u16)
        ensures
            r == code_value(*self),
    {
        match self {
            ResponseStatusCode::Continue => 100,
            ResponseStatusCode::SwitchingProtocols => 101,
            ResponseStatusCode::Okay => 200,
            ResponseStatusCode::Created => 201,
            ResponseStatusCode::Accepted => 202,
            ResponseStatusCode::NoContent => 204,
            ResponseStatusCode::MovedPermanently => 301,
            ResponseStatusCode::Found => 302,
            ResponseStatusCode::SeeOther => 303,
            ResponseStatusCode::NotModified => 304,
            ResponseStatusCode::TemporaryRedirect => 307,
            ResponseStatusCode::PermanentRedirect => 308,
            ResponseStatusCode::BadRequest => 400,
            ResponseStatusCode::Unauthorized => 401,
            ResponseStatusCode::Forbidden => 403,
            ResponseStatusCode::NotFound => 404,
            ResponseStatusCode::MethodNotAllowed => 405,
            ResponseStatusCode::RequestTimeout => 408,
            ResponseStatusCode::ImATeapot => 418,
            ResponseStatusCode::TooManyRequests => 429,
            ResponseStatusCode::InternalServerError => 500,
            ResponseStatusCode::NotImplemented => 501,
            ResponseStatusCode::BadGateway => 502,
            ResponseStatusCode::ServiceUnavailable => 503,
            ResponseStatusCode::GatewayTimeout => 504,
            ResponseStatusCode::HttpVersionNotSupported => 505,
        }
    }

    /// The canonical reason phrase, e.g. `Not Found`.
    pub fn reason(&self) -> (r: &'static str)
        ensures
            r@ == reason_text(*self),
    {
        match self {
            ResponseStatusCode::Continue => "Continue",
            ResponseStatusCode::SwitchingProtocols => "Switching Protocols",
            ResponseStatusCode::Okay => "OK",
            ResponseStatusCode::Created => "Created",
            ResponseStatusCode::Accepted => "Accepted",
            ResponseStatusCode::NoContent => "No Content",
            ResponseStatusCode::MovedPermanently => "Moved Permanently",
            ResponseStatusCode::Found => "Found",
            ResponseStatusCode::SeeOther => "See Other",
            ResponseStatusCode::NotModified => "Not Modified",
            ResponseStatusCode::TemporaryRedirect => "Temporary Redirect",
            ResponseStatusCode::PermanentRedirect => "Permanent Redirect",
            ResponseStatusCode::BadRequest => "Bad Request",
            ResponseStatusCode::Unauthorized => "Unauthorized",
            ResponseStatusCode::Forbidden => "Forbidden",
            ResponseStatusCode::NotFound => "Not Found",
            ResponseStatusCode::MethodNotAllowed => "Method Not Allowed",
            ResponseStatusCode::RequestTimeout => "Request Timeout",
            ResponseStatusCode::ImATeapot => "I'm a teapot",
            ResponseStatusCode::TooManyRequests => "Too Many Requests",
            ResponseStatusCode::InternalServerError => "Internal Server Error",
            ResponseStatusCode::NotImplemented => "Not Implemented",
            ResponseStatusCode::BadGateway => "Bad Gateway",
            ResponseStatusCode::ServiceUnavailable => "Service Unavailable",
            ResponseStatusCode::GatewayTimeout => "Gateway Timeout",
            ResponseStatusCode::HttpVersionNotSupported => "Http Version Not Supported",
        }
    }

    /// Looks up the known status with the given number.
    pub fn try_from_code(value: u16) -> (r: Option<ResponseStatusCode>)
        ensures
            r matches Some(s) ==> code_value(s) == value,
            r is None <==> forall|s: ResponseStatusCode| code_value(s) != value,
            r == status_of_code(value),
    {
        let r = match value {
            100 => Some(ResponseStatusCode::Continue),
            101 => Some(ResponseStatusCode::SwitchingProtocols),
            200 => Some(ResponseStatusCode::Okay),
            201 => Some(ResponseStatusCode::Created),
            202 => Some(ResponseStatusCode::Accepted),
            204 => Some(ResponseStatusCode::NoContent),
            301 => Some(ResponseStatusCode::MovedPermanently),
            302 => Some(ResponseStatusCode::Found),
            303 => Some(ResponseStatusCode::SeeOther),
            304 => Some(ResponseStatusCode::NotModified),
            307 => Some(ResponseStatusCode::TemporaryRedirect),
            308 => Some(ResponseStatusCode::PermanentRedirect),
            400 => Some(ResponseStatusCode::BadRequest),
            401 => Some(ResponseStatusCode::Unauthorized),
            403 => Some(ResponseStatusCode::Forbidden),
            404 => Some(ResponseStatusCode::NotFound),
            405 => Some(ResponseStatusCode::MethodNotAllowed),
            408 => Some(ResponseStatusCode::RequestTimeout),
            418 => Some(ResponseStatusCode::ImATeapot),
            429 => Some(ResponseStatusCode::TooManyRequests),
            500 => Some(ResponseStatusCode::InternalServerError),
            501 => Some(ResponseStatusCode::NotImplemented),
            502 => Some(ResponseStatusCode::BadGateway),
            503 => Some(ResponseStatusCode::ServiceUnavailable),
            504 => Some(ResponseStatusCode::GatewayTimeout),
            505 => Some(ResponseStatusCode::HttpVersionNotSupported),
            _ => None,
        };
        proof {
            if r is None {
                assert forall|s: ResponseStatusCode| code_value(s) != value by {
                    match s {
                        ResponseStatusCode::Continue => {},
                        ResponseStatusCode::SwitchingProtocols => {},
                        ResponseStatusCode::Okay => {},
                        ResponseStatusCode::Created => {},
                        ResponseStatusCode::Accepted => {},
                        ResponseStatusCode::NoContent => {},
                        ResponseStatusCode::MovedPermanently => {},
                        ResponseStatusCode::Found => {},
                        ResponseStatusCode::SeeOther => {},
                        ResponseStatusCode::NotModified => {},
                        ResponseStatusCode::TemporaryRedirect => {},
                        ResponseStatusCode::PermanentRedirect => {},
                        ResponseStatusCode::BadRequest => {},
                        ResponseStatusCode::Unauthorized => {},
                        ResponseStatusCode::Forbidden => {},
                        ResponseStatusCode::NotFound => {},
                        ResponseStatusCode::MethodNotAllowed => {},
                        ResponseStatusCode::RequestTimeout => {},
                        ResponseStatusCode::ImATeapot => {},
                        ResponseStatusCode::TooManyRequests => {},
                        ResponseStatusCode::InternalServerError => {},
                        ResponseStatusCode::NotImplemented => {},
                        ResponseStatusCode::BadGateway => {},
                        ResponseStatusCode::ServiceUnavailable => {},
                        ResponseStatusCode::GatewayTimeout => {},
                        ResponseStatusCode::HttpVersionNotSupported => {},
                    }
                }
            } else {
                let s = r->0;
                assert(code_value(s) == value);
                let t = choose|t: ResponseStatusCode| code_value(t) == value;
                lemma_code_value_injective(s, t);
            }
        }
        r
    }

    /// Whether the status is a redirection (3xx).
    pub fn is_redirect(&self) -> (r: bool)
        ensures
            r == (300 <= code_value(*self) < 400),
    {
        let c = self.code();
        300 <= c && c < 400
    }

    /// Whether the status signals an error (4xx or 5xx).
    pub fn is_error(&self) -> (r: bool)
        ensures
            r == (code_value(*self) >= 400),
    {
        self.code() >= 400
    }

    /// The status as it appears on a status line, e.g. `404 Not Found`.
    pub fn as_bytes(&self) -> (r: Vec<u8>)
        ensures
            r@ == status_bytes(*self),
    {
        let c = self.code();
        assert(100 <= c < 1000);
        let mut r: Vec<u8> = Vec::new();
        r.push((c / 100 + 48) as u8);
        r.push(((c / 10) % 10 + 48) as u8);
        r.push((c % 10 + 48) as u8);
        r.push(32u8);
        let reason = self.reason().as_bytes();
        let mut i: usize = 0;
        while i < reason.len()
            invariant
                0 <= i <= reason@.len(),
                r@ == code_digits(c) + seq![32u8] + reason@.subrange(0, i as int),
            decreases reason@.len() - i,
        {
            r.push(reason[i]);
            assert(reason@.subrange(0, i as int + 1) =~= reason@.subrange(0, i as int).push(reason@[i as int]));
            i = i + 1;
        }
        assert(reason@.subrange(0, reason@.len() as int) =~= reason@);
        r
    }
}

} // verus!
