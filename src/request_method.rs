use vstd::prelude::*;
use crate::text::utf8;

verus! {

/// The request methods the server understands.
#[derive(Debug, Clone, Copy, PartialEq, Eq, Structural)]
pub enum RequestMethod {
    Get,
    Head,
    Options,
    Post,
    Put,
    Patch,
    Delete,
}

/// How a method is written on a request line.
pub open spec fn method_text(m: RequestMethod) -> Seq<char> {
    match m {
        RequestMethod::Get => "GET"@,
        RequestMethod::Head => "HEAD"@,
        RequestMethod::Options => "OPTIONS"@,
        RequestMethod::Post => "POST"@,
        RequestMethod::Put => "PUT"@,
        RequestMethod::Patch => "PATCH"@,
        RequestMethod::Delete => "DELETE"@,
    }
}

/// The method whose name has the given bytes, if any.
pub open spec fn method_of_bytes(b: Seq<u8>) -> Option<RequestMethod> {
    if exists|m: RequestMethod| utf8(method_text(m)) == b {
        Some(choose|m: RequestMethod| utf8(method_text(m)) == b)
    } else {
        None
    }
}

/// GET, HEAD and OPTIONS are the safe methods.
pub open spec fn is_safe_method(m: RequestMethod) -> bool {
    m == RequestMethod::Get || m == RequestMethod::Head || m == RequestMethod::Options
}

/// The list of safe methods as advertised in an `Allow` header.
pub open spec fn safe_methods_text() -> Seq<char> {
    method_text(RequestMethod::Get) + ", "@ + method_text(RequestMethod::Head) + ", "@
        + method_text(RequestMethod::Options)
}

/// Distinct methods are written differently.
pub proof fn lemma_method_text_injective(a: RequestMethod, b: RequestMethod)
    requires
        utf8(method_text(a)) == utf8(method_text(b)),
    ensures
        a == b,
{
    reveal_strlit("GET");
    reveal_strlit("HEAD");
    reveal_strlit("OPTIONS");
    reveal_strlit("POST");
    reveal_strlit("PUT");
    reveal_strlit("PATCH");
    reveal_strlit("DELETE");
    vstd::utf8::encode_utf8_decode_utf8(method_text(a));
    vstd::utf8::encode_utf8_decode_utf8(method_text(b));
    if a != b {
        let ta = method_text(a);
        let tb = method_text(b);
        assert(ta != tb) by {
            match a {
                RequestMethod::Get => { assert(ta.len() == 3); },
                _ => {},
            }
            if ta.len() == tb.len() && ta.len() > 1 {
                assert(ta[0] != tb[0] || ta[1] != tb[1] || ta[2] != tb[2]);
            }
        }
    }
}

impl RequestMethod {
    /// The method's name, e.g. `GET`.
    pub fn as_str(&self) -> (r: &'static str)
        ensures
            r@ == method_text(*self),
    {
        match self {
            RequestMethod::Get => "GET",
            RequestMethod::Head => "HEAD",
            RequestMethod::Options => "OPTIONS",
            RequestMethod::Post => "POST",
            RequestMethod::Put => "PUT",
            RequestMethod::Patch => "PATCH",
            RequestMethod::Delete => "DELETE",
        }
    }

    /// Whether the method is one of GET, HEAD and OPTIONS.
    pub fn is_safe(&self) -> (r: bool)
        ensures
            r == is_safe_method(*self),
    {
        matches!(self, RequestMethod::Get | RequestMethod::Head | RequestMethod::Options)
    }

    /// The safe methods joined with `, `: `GET, HEAD, OPTIONS`.
    pub fn safe_methods_str() -> (r: String)
        ensures
            r@ == safe_methods_text(),
    {
        let mut r = RequestMethod::Get.as_str().to_owned();
        r.append(", ");
        r.append(RequestMethod::Head.as_str());
        r.append(", ");
        r.append(RequestMethod::Options.as_str());
        r
    }

    /// Recognises a method name written as bytes.
    pub fn from_bytes(b: &[u8]) -> (r: Option<RequestMethod>)
        ensures
            r == method_of_bytes(b@),
    {
        let all = [
            RequestMethod::Get,
            RequestMethod::Head,
            RequestMethod::Options,
            RequestMethod::Post,
            RequestMethod::Put,
            RequestMethod::Patch,
            RequestMethod::Delete,
        ];
        let mut k: usize = 0;
        while k < 7
            invariant
                0 <= k <= 7,
                all@ == seq![RequestMethod::Get, RequestMethod::Head, RequestMethod::Options, RequestMethod::Post, RequestMethod::Put, RequestMethod::Patch, RequestMethod::Delete],
                forall|j: int| 0 <= j < k ==> utf8(method_text(#[trigger] all@[j])) != b@,
            decreases 7 - k,
        {
            let m = all[k];
            if crate::bytes::slice_eq(m.as_str().as_bytes(), b) {
                proof {
                    let c = choose|c: RequestMethod| utf8(method_text(c)) == b@;
                    lemma_method_text_injective(m, c);
                }
                return Some(m);
            }
            k = k + 1;
        }
        proof {
            assert forall|m: RequestMethod| utf8(method_text(m)) != b@ by {
                match m {
                    RequestMethod::Get => assert(all@[0] == m),
                    RequestMethod::Head => assert(all@[1] == m),
                    RequestMethod::Options => assert(all@[2] == m),
                    RequestMethod::Post => assert(all@[3] == m),
                    RequestMethod::Put => assert(all@[4] == m),
                    RequestMethod::Patch => assert(all@[5] == m),
                    RequestMethod::Delete => assert(all@[6] == m),
                }
            }
        }
        None
    }
}

} // verus!
