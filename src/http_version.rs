use vstd::prelude::*;

verus! {

/// The protocol versions that can appear on a request line.
#[derive(Debug, Clone, Copy, PartialEq, Eq, Structural)]
pub enum HttpVersion {
    Http0_9,
    Http1_0,
    Http1_1,
    Http2,
}

/// The bytes of `"HTTP/1.1"`.
pub open spec fn http11_bytes() -> Seq<u8> {
    seq![72u8, 84u8, 84u8, 80u8, 47u8, 49u8, 46u8, 49u8]
}

/// How a version is written on the wire.
pub open spec fn version_bytes(v: HttpVersion) -> Seq<u8> {
    match v {
        HttpVersion::Http0_9 => seq![72u8, 84u8, 84u8, 80u8, 47u8, 48u8, 46u8, 57u8],
        HttpVersion::Http1_0 => seq![72u8, 84u8, 84u8, 80u8, 47u8, 49u8, 46u8, 48u8],
        HttpVersion::Http1_1 => http11_bytes(),
        HttpVersion::Http2 => seq![72u8, 84u8, 84u8, 80u8, 47u8, 50u8],
    }
}

impl HttpVersion {
    /// The textual form of the version, e.g. `HTTP/1.1`.
    pub fn as_bytes(&self) -> (r: Vec<u8>)
        ensures
            r@ == version_bytes(*self),
    {
        let r = match self {
            HttpVersion::Http0_9 => vec![72u8, 84u8, 84u8, 80u8, 47u8, 48u8, 46u8, 57u8],
            HttpVersion::Http1_0 => vec![72u8, 84u8, 84u8, 80u8, 47u8, 49u8, 46u8, 48u8],
            HttpVersion::Http1_1 => vec![72u8, 84u8, 84u8, 80u8, 47u8, 49u8, 46u8, 49u8],
            HttpVersion::Http2 => vec![72u8, 84u8, 84u8, 80u8, 47u8, 50u8],
        };
        assert(r@ =~= version_bytes(*self));
        r
    }

    /// Recognises a version written as bytes.
    pub fn from_bytes(b: &[u8]) -> (r: Option<HttpVersion>)
        ensures
            r matches Some(v) ==> version_bytes(v) == b@,
            r is None ==> forall|v: HttpVersion| version_bytes(v) != b@,
    {
        let candidates = [
            HttpVersion::Http0_9,
            HttpVersion::Http1_0,
            HttpVersion::Http1_1,
            HttpVersion::Http2,
        ];
        let mut k: usize = 0;
        while k < 4
            invariant
                0 <= k <= 4,
                candidates@ == seq![HttpVersion::Http0_9, HttpVersion::Http1_0, HttpVersion::Http1_1, HttpVersion::Http2],
                forall|j: int| 0 <= j < k ==> version_bytes(#[trigger] candidates@[j]) != b@,
            decreases 4 - k,
        {
            let v = candidates[k];
            let w = v.as_bytes();
            if crate::bytes::slice_eq(w.as_slice(), b) {
                return Some(v);
            }
            k = k + 1;
        }
        proof {
            assert forall|v: HttpVersion| version_bytes(v) != b@ by {
                match v {
                    HttpVersion::Http0_9 => assert(candidates@[0] == v),
                    HttpVersion::Http1_0 => assert(candidates@[1] == v),
                    HttpVersion::Http1_1 => assert(candidates@[2] == v),
                    HttpVersion::Http2 => assert(candidates@[3] == v),
                }
            }
        }
        None
    }
}

} // verus!
