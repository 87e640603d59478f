use vstd::prelude::*;

verus! {

/// Compares two byte slices for equality.
pub fn slice_eq(a: &[u8], b: &[u8]) -> (r: bool)
    ensures
        r == (a@ == b@),
{
    if a.len() != b.len() {
        return false;
    }
    let mut i: usize = 0;
    while i < a.len()
        invariant
            a@.len() == b@.len(),
            0 <= i <= a@.len(),
            forall|j: int| 0 <= j < i ==> a@[j] == b@[j],
        decreases a@.len() - i,
    {
        if a[i] != b[i] {
            return false;
        }
        i = i + 1;
    }
    assert(a@ =~= b@);
    true
}

/// Appends all of `s` to `out`.
pub fn push_all(out: &mut Vec<u8>, s: &[u8])
    ensures
        final(out)@ == old(out)@ + s@,
{
    let ghost start = out@;
    let mut i: usize = 0;
    while i < s.len()
        invariant
            0 <= i <= s@.len(),
            out@ == start + s@.subrange(0, i as int),
        decreases s@.len() - i,
    {
        out.push(s[i]);
        assert(s@.subrange(0, i as int + 1) =~= s@.subrange(0, i as int).push(s@[i as int]));
        i = i + 1;
    }
    assert(s@.subrange(0, s@.len() as int) =~= s@);
}

/// A copy of `b[from..to]`.
pub fn copy_range(b: &[u8], from: usize, to: usize) -> (r: Vec<u8>)
    requires
        from <= to <= b@.len(),
    ensures
        r@ == b@.subrange(from as int, to as int),
{
    let mut r: Vec<u8> = Vec::new();
    push_all(&mut r, &b[from..to]);
    assert(r@ =~= b@.subrange(from as int, to as int));
    r
}

/// The first index at or after `i` that holds `x`.
pub open spec fn find_byte_spec(b: Seq<u8>, x: u8, i: int) -> Option<int>
    decreases b.len() - i,
{
    if i < 0 || i >= b.len() {
        None
    } else if b[i] == x {
        Some(i)
    } else {
        find_byte_spec(b, x, i + 1)
    }
}

/// What `find_byte_spec` returns, stated without recursion.
pub proof fn lemma_find_byte(b: Seq<u8>, x: u8, i: int)
    requires
        0 <= i,
    ensures
        find_byte_spec(b, x, i) matches Some(k) ==> i <= k < b.len() && b[k] == x
            && forall|j: int| i <= j < k ==> b[j] != x,
        find_byte_spec(b, x, i) is None ==> forall|j: int| i <= j < b.len() ==> b[j] != x,
    decreases b.len() - i,
{
    if i < b.len() && b[i] != x {
        lemma_find_byte(b, x, i + 1);
    }
}

/// The first index at or after `from` that holds `x`.
pub fn find_byte(b: &[u8], x: u8, from: usize) -> (r: Option<usize>)
    ensures
        r matches Some(k) ==> find_byte_spec(b@, x, from as int) == Some(k as int) && from <= k < b@.len(),
        r is None ==> find_byte_spec(b@, x, from as int) is None,
{
    proof { lemma_find_byte(b@, x, from as int); }
    let mut i: usize = from;
    while i < b.len()
        invariant
            from <= i,
            find_byte_spec(b@, x, from as int) == find_byte_spec(b@, x, i as int),
        decreases b@.len() - i,
    {
        if b[i] == x {
            return Some(i);
        }
        i = i + 1;
    }
    None
}

} // verus!
