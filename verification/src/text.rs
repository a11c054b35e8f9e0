//! Comparison of text, proved from its UTF-8 encoding, and search in
//! sequences.

use vstd::prelude::*;
use vstd::string::*;
use vstd::utf8::*;

verus! {

/// Whether two byte slices hold the same bytes.
pub fn bytes_eq(a: &[u8], b: &[u8]) -> (same: bool)
    ensures
        same == (a@ == b@),
{
    if a.len() != b.len() {
        return false;
    }
    let mut i: usize = 0;
    while i < a.len()
        invariant
            a@.len() == b@.len(),
            i <= a@.len(),
            forall|j: int| 0 <= j < i ==> a@[j] == b@[j],
        decreases a@.len() - i,
    {
        if a[i] != b[i] {
            return false;
        }
        i += 1;
    }
    assert(a@ =~= b@);
    true
}

/// Whether two strings hold the same characters.
pub fn str_eq(a: &str, b: &str) -> (same: bool)
    ensures
        same == (a@ == b@),
{
    let same = bytes_eq(a.as_bytes(), b.as_bytes());
    proof {
        encode_utf8_decode_utf8(a@);
        encode_utf8_decode_utf8(b@);
    }
    same
}

/// Where the first occurrence of `needle` in `s` is, given that there is none
/// before `at`.
pub proof fn lemma_first_index<A>(s: Seq<A>, needle: A, at: int)
    requires
        0 <= at <= s.len(),
        forall|j: int| 0 <= j < at ==> s[j] != needle,
    ensures
        at == s.len() ==> s.index_of_first(needle) is None,
        at < s.len() && s[at] == needle ==> s.index_of_first(needle) == Some(at),
{
    s.index_of_first_ensures(needle);
    match s.index_of_first(needle) {
        Some(first) => {
            if at < s.len() && s[at] == needle && at < first {
                assert(s[at] != needle);
            }
        },
        None => {
            if at < s.len() && s[at] == needle {
                assert(s.contains(needle));
            }
        },
    }
}

} // verus!
