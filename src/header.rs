use vstd::prelude::*;
use crate::text::{ci_eq, lower, utf8, parse_decimal_spec};
use crate::token::all_tchars;

verus! {

/// Header entries as byte strings: (name, value), in insertion order.
pub type HeaderList = Seq<(Seq<u8>, Seq<u8>)>;

/// The first index at or after `i` whose name equals `name` up to case.
pub open spec fn find_from(hs: HeaderList, name: Seq<u8>, i: int) -> Option<int>
    decreases hs.len() - i,
{
    if i < 0 || i >= hs.len() {
        None
    } else if ci_eq(hs[i].0, name) {
        Some(i)
    } else {
        find_from(hs, name, i + 1)
    }
}

/// The index of the entry named `name` (up to case), if any.
pub open spec fn find_header(hs: HeaderList, name: Seq<u8>) -> Option<int> {
    find_from(hs, name, 0)
}

/// The value of the entry named `name` (up to case), if any.
pub open spec fn header_value(hs: HeaderList, name: Seq<u8>) -> Option<Seq<u8>> {
    match find_header(hs, name) {
        Some(i) => Some(hs[i].1),
        None => None,
    }
}

/// Some entry is named `name` and, when `value` is given, has that value;
/// both compared up to case.
pub open spec fn has_header_spec(hs: HeaderList, name: Seq<u8>, value: Option<Seq<u8>>) -> bool {
    exists|i: int|
        0 <= i < hs.len() && #[trigger] ci_eq(hs[i].0, name) && (value is None || ci_eq(
            hs[i].1,
            value->0,
        ))
}

/// Adding a header: an entry with the same name (up to case) keeps its
/// place and name and takes the new value; otherwise the entry is appended.
pub open spec fn add_header(hs: HeaderList, name: Seq<u8>, value: Seq<u8>) -> HeaderList {
    match find_header(hs, name) {
        Some(i) => hs.update(i, (hs[i].0, value)),
        None => hs.push((name, value)),
    }
}

/// No two entries have names that are equal up to case.
pub open spec fn names_distinct(hs: HeaderList) -> bool {
    forall|i: int, j: int| 0 <= i < j < hs.len() ==> !ci_eq(#[trigger] hs[i].0, #[trigger] hs[j].0)
}

/// One header line: `name: value` CR LF.
pub open spec fn header_line(h: (Seq<u8>, Seq<u8>)) -> Seq<u8> {
    h.0 + seq![58u8, 32u8] + h.1 + seq![13u8, 10u8]
}

/// All header lines, in order.
pub open spec fn header_lines(hs: HeaderList) -> Seq<u8>
    decreases hs.len(),
{
    if hs.len() == 0 {
        Seq::empty()
    } else {
        header_lines(hs.drop_last()) + header_line(hs.last())
    }
}

/// The bytes of `Content-Length`.
pub open spec fn content_length_name() -> Seq<u8> {
    seq![67u8, 111u8, 110u8, 116u8, 101u8, 110u8, 116u8, 45u8, 76u8, 101u8, 110u8, 103u8, 116u8, 104u8]
}

/// A header is acceptable when its name is a non-empty token and, for
/// `Content-Length`, its value is a non-negative integer.
pub open spec fn header_valid_spec(name: Seq<u8>, value: Seq<u8>) -> bool {
    name.len() > 0 && all_tchars(name) && (ci_eq(name, content_length_name()) ==> parse_decimal_spec(value) is Some)
}

/// Whether a header may be accepted: its name is a non-empty token and, for
/// `Content-Length` (in any case), its value is a non-negative integer.
pub fn is_header_valid(header_name: &str, header_value: &str) -> (r: bool)
    ensures
        r == header_valid_spec(utf8(header_name@), utf8(header_value@)),
{
    let name = header_name.as_bytes();
    if name.len() == 0 || !crate::token::is_token_bytes(name) {
        return false;
    }
    let cl: Vec<u8> = vec![67u8, 111u8, 110u8, 116u8, 101u8, 110u8, 116u8, 45u8, 76u8, 101u8, 110u8, 103u8, 116u8, 104u8];
    assert(cl@ =~= content_length_name());
    if crate::text::eq_ignore_ascii_case(name, cl.as_slice()) {
        return crate::text::parse_decimal(header_value.as_bytes()).is_some();
    }
    true
}

pub proof fn lemma_ci_eq_symmetric(a: Seq<u8>, b: Seq<u8>)
    ensures
        ci_eq(a, b) == ci_eq(b, a),
{
}

pub proof fn lemma_ci_eq_transitive(a: Seq<u8>, b: Seq<u8>, c: Seq<u8>)
    requires
        ci_eq(a, b),
        ci_eq(b, c),
    ensures
        ci_eq(a, c),
{
    assert forall|i: int| 0 <= i < a.len() implies lower(#[trigger] a[i]) == lower(c[i]) by {
        assert(lower(a[i]) == lower(b[i]));
    }
}

/// What `find_from` returns, stated without recursion.
pub proof fn lemma_find_from(hs: HeaderList, name: Seq<u8>, i: int)
    requires
        0 <= i <= hs.len(),
    ensures
        find_from(hs, name, i) matches Some(k) ==> i <= k < hs.len() && ci_eq(hs[k].0, name)
            && forall|j: int| i <= j < k ==> !ci_eq(#[trigger] hs[j].0, name),
        find_from(hs, name, i) is None ==> forall|j: int| i <= j < hs.len() ==> !ci_eq(#[trigger] hs[j].0, name),
    decreases hs.len() - i,
{
    if i < hs.len() && !ci_eq(hs[i].0, name) {
        lemma_find_from(hs, name, i + 1);
    }
}

/// Adding keeps names distinct.
pub proof fn lemma_add_keeps_distinct(hs: HeaderList, name: Seq<u8>, value: Seq<u8>)
    requires
        names_distinct(hs),
    ensures
        names_distinct(add_header(hs, name, value)),
{
    lemma_find_from(hs, name, 0);
    let r = add_header(hs, name, value);
    if find_header(hs, name) is None {
        assert forall|i: int, j: int| 0 <= i < j < r.len() implies !ci_eq(#[trigger] r[i].0, #[trigger] r[j].0) by {
            if j == hs.len() {
                lemma_ci_eq_symmetric(hs[i].0, name);
            }
        }
    }
}

/// The headers of a request or response: an ordered list of (name, value)
/// entries, looked up up to ASCII case, in which no two names are equal up
/// to case.
#[derive(Debug, Clone)]
pub struct Headers {
    inner: Vec<(String, String)>,
}

impl View for Headers {
    type V = HeaderList;

    closed spec fn view(&self) -> HeaderList {
        self.inner@.map_values(|p: (String, String)| (utf8(p.0@), utf8(p.1@)))
    }
}

impl Headers {
    /// No headers.
    pub fn new() -> (r: Headers)
        ensures
            r@ == Seq::<(Seq<u8>, Seq<u8>)>::empty(),
    {
        let r = Headers { inner: Vec::new() };
        assert(r@ =~= Seq::<(Seq<u8>, Seq<u8>)>::empty());
        r
    }

    /// The number of entries.
    pub fn len(&self) -> (r: usize)
        ensures
            r == self@.len(),
    {
        self.inner.len()
    }

    /// The name of entry `i`.
    pub fn name_at(&self, i: usize) -> (r: &str)
        requires
            i < self@.len(),
        ensures
            utf8(r@) == self@[i as int].0,
    {
        self.inner[i].0.as_str()
    }

    /// The value of entry `i`.
    pub fn value_at(&self, i: usize) -> (r: &str)
        requires
            i < self@.len(),
        ensures
            utf8(r@) == self@[i as int].1,
    {
        self.inner[i].1.as_str()
    }

    /// The index of the entry named `name` (up to case).
    fn position(&self, name: &[u8]) -> (r: Option<usize>)
        ensures
            r matches Some(k) ==> find_header(self@, name@) == Some(k as int) && k < self@.len(),
            r is None ==> find_header(self@, name@) is None,
            self@.len() == self.inner@.len(),
    {
        proof { lemma_find_from(self@, name@, 0); }
        let mut i: usize = 0;
        while i < self.inner.len()
            invariant
                0 <= i <= self@.len(),
                self@.len() == self.inner@.len(),
                find_from(self@, name@, 0) == find_from(self@, name@, i as int),
            decreases self@.len() - i,
        {
            let n = self.inner[i].0.as_str().as_bytes();
            assert(n@ == self@[i as int].0);
            if crate::text::eq_ignore_ascii_case(n, name) {
                proof { lemma_ci_eq_symmetric(n@, name@); }
                return Some(i);
            }
            proof { lemma_ci_eq_symmetric(n@, name@); }
            i = i + 1;
        }
        None
    }

    /// Whether an entry is named `header_name` and, when `header_value` is
    /// given, has that value; both compared up to case.
    pub fn has(&self, header_name: &str, header_value: Option<&str>) -> (r: bool)
        ensures
            r == has_header_spec(
                self@,
                utf8(header_name@),
                match header_value {
                    Some(v) => Some(utf8(v@)),
                    None => None,
                },
            ),
    {
        let name = header_name.as_bytes();
        let ghost want = match header_value {
            Some(v) => Some(utf8(v@)),
            None => None::<Seq<u8>>,
        };
        let mut i: usize = 0;
        while i < self.inner.len()
            invariant
                0 <= i <= self@.len(),
                self@.len() == self.inner@.len(),
                name@ == utf8(header_name@),
                want == match header_value {
                    Some(v) => Some(utf8(v@)),
                    None => None,
                },
                forall|j: int|
                    0 <= j < i ==> !(#[trigger] ci_eq(self@[j].0, name@) && (want is None || ci_eq(
                        self@[j].1,
                        want->0,
                    ))),
            decreases self@.len() - i,
        {
            let n = self.inner[i].0.as_str().as_bytes();
            assert(n@ == self@[i as int].0);
            if crate::text::eq_ignore_ascii_case(n, name) {
                match header_value {
                    None => {
                        return true;
                    },
                    Some(v) => {
                        let val = self.inner[i].1.as_str().as_bytes();
                        assert(val@ == self@[i as int].1);
                        if crate::text::eq_ignore_ascii_case(val, v.as_bytes()) {
                            return true;
                        }
                    },
                }
            }
            i = i + 1;
        }
        false
    }

    /// The value of the entry named `header_name` (up to case).
    pub fn get(&self, header_name: &str) -> (r: Option<String>)
        ensures
            r is Some <==> header_value(self@, utf8(header_name@)) is Some,
            r matches Some(s) ==> header_value(self@, utf8(header_name@)) == Some(utf8(s@)),
    {
        match self.position(header_name.as_bytes()) {
            Some(k) => {
                let v = self.inner[k].1.clone();
                assert(utf8(v@) == self@[k as int].1);
                Some(v)
            },
            None => None,
        }
    }

    /// Sets a header: an entry with the same name (up to case) takes the
    /// new value in place, otherwise a new entry is appended.
    pub fn add(&mut self, header_name: &str, header_value: &str)
        ensures
            final(self)@ == add_header(old(self)@, utf8(header_name@), utf8(header_value@)),
            names_distinct(old(self)@) ==> names_distinct(final(self)@),
    {
        proof {
            if names_distinct(self@) {
                lemma_add_keeps_distinct(self@, utf8(header_name@), utf8(header_value@));
            }
        }
        match self.position(header_name.as_bytes()) {
            Some(k) => {
                let name = self.inner[k].0.clone();
                let ghost before = self@;
                self.inner.set(k, (name, header_value.to_owned()));
                assert(self@ =~= before.update(k as int, (before[k as int].0, utf8(header_value@))));
            },
            None => {
                let ghost before = self@;
                self.inner.push((header_name.to_owned(), header_value.to_owned()));
                assert(self@ =~= before.push((utf8(header_name@), utf8(header_value@))));
            },
        }
    }

    /// Writes every entry as a `name: value` CR LF line, in order.
    pub fn write_lines(&self, out: &mut Vec<u8>)
        ensures
            final(out)@ == old(out)@ + header_lines(self@),
    {
        let ghost start = out@;
        let mut i: usize = 0;
        while i < self.inner.len()
            invariant
                0 <= i <= self@.len(),
                self@.len() == self.inner@.len(),
                out@ == start + header_lines(self@.subrange(0, i as int)),
            decreases self@.len() - i,
        {
            let ghost before = out@;
            crate::bytes::push_all(out, self.inner[i].0.as_str().as_bytes());
            out.push(58u8);
            out.push(32u8);
            crate::bytes::push_all(out, self.inner[i].1.as_str().as_bytes());
            out.push(13u8);
            out.push(10u8);
            assert(self@.subrange(0, i as int + 1).drop_last() =~= self@.subrange(0, i as int));
            assert(out@ =~= before + header_line(self@[i as int]));
            i = i + 1;
        }
        assert(self@.subrange(0, self@.len() as int) =~= self@);
    }

    /// A copy of the entries as (name, value) pairs, in order.
    pub fn to_vec(&self) -> (r: Vec<(String, String)>)
        ensures
            r@.len() == self@.len(),
            forall|i: int| 0 <= i < r@.len() ==> (utf8((#[trigger] r@[i]).0@), utf8(r@[i].1@)) == self@[i],
    {
        let mut r: Vec<(String, String)> = Vec::new();
        let mut i: usize = 0;
        while i < self.inner.len()
            invariant
                0 <= i <= self@.len(),
                self@.len() == self.inner@.len(),
                r@.len() == i,
                forall|j: int| 0 <= j < i ==> (utf8((#[trigger] r@[j]).0@), utf8(r@[j].1@)) == self@[j],
            decreases self@.len() - i,
        {
            let n = self.inner[i].0.clone();
            let v = self.inner[i].1.clone();
            r.push((n, v));
            i = i + 1;
        }
        r
    }
}

} // verus!
