use vstd::prelude::*;
use crate::text::utf8;

verus! {

/// A byte that may appear in a token: an ASCII letter or digit, or one of
/// ``! # % & ' * + - . ^ _ ` | ~``.
pub open spec fn is_tchar(c: u8) -> bool {
    (48 <= c <= 57) || (65 <= c <= 90) || (97 <= c <= 122) || c == 33 || c == 35 || c == 37
        || c == 38 || c == 39 || c == 42 || c == 43 || c == 45 || c == 46 || c == 94 || c == 95
        || c == 96 || c == 124 || c == 126
}

/// Every byte is a token byte.
pub open spec fn all_tchars(s: Seq<u8>) -> bool {
    forall|i: int| 0 <= i < s.len() ==> is_tchar(#[trigger] s[i])
}

/// Whether one byte is a token byte.
pub fn is_tchar_byte(c: u8) -> (r: bool)
    ensures
        r == is_tchar(c),
{
    (48 <= c && c <= 57) || (65 <= c && c <= 90) || (97 <= c && c <= 122) || c == 33 || c == 35
        || c == 37 || c == 38 || c == 39 || c == 42 || c == 43 || c == 45 || c == 46 || c == 94
        || c == 95 || c == 96 || c == 124 || c == 126
}

/// Whether every byte is a token byte.
pub fn is_token_bytes(s: &[u8]) -> (r: bool)
    ensures
        r == all_tchars(s@),
{
    let mut i: usize = 0;
    while i < s.len()
        invariant
            0 <= i <= s@.len(),
            forall|j: int| 0 <= j < i ==> is_tchar(#[trigger] s@[j]),
        decreases s@.len() - i,
    {
        if !is_tchar_byte(s[i]) {
            return false;
        }
        i = i + 1;
    }
    true
}

/// Whether the text consists of token characters only.
pub fn is_valid_token(value: &str) -> (r: bool)
    ensures
        r == all_tchars(utf8(value@)),
{
    is_token_bytes(value.as_bytes())
}

} // verus!
