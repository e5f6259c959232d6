//! Byte-level text helpers: ASCII lowercasing and substring search, used to
//! match configured name fragments against process executable names.

use vstd::prelude::*;

verus! {

/// ASCII lowercasing of a single byte.
pub open spec fn spec_lower_byte(b: u8) -> u8 {
    if 65 <= b <= 90 {
        (b + 32) as u8
    } else {
        b
    }
}

/// ASCII lowercasing of a byte sequence.
pub open spec fn spec_lower(s: Seq<u8>) -> Seq<u8> {
    s.map_values(|b: u8| spec_lower_byte(b))
}

/// `needle` occurs contiguously inside `haystack`.
pub open spec fn is_substring(needle: Seq<u8>, haystack: Seq<u8>) -> bool {
    exists|i: int|
        0 <= i && i + needle.len() <= haystack.len() && #[trigger] haystack.subrange(
            i,
            i + needle.len(),
        ) == needle
}

/// Lowercasing is idempotent: a lowercased string lowercases to itself.
pub proof fn lemma_lower_idempotent(s: Seq<u8>)
    ensures
        spec_lower(spec_lower(s)) == spec_lower(s),
{
    assert(spec_lower(spec_lower(s)) =~= spec_lower(s));
}

/// Lowercase one byte.
pub fn lower_byte(b: u8) -> (r: u8)
    ensures
        r == spec_lower_byte(b),
{
    if 65 <= b && b <= 90 {
        b + 32
    } else {
        b
    }
}

/// Lowercase a whole byte string.
pub fn lower_bytes(s: &Vec<u8>) -> (r: Vec<u8>)
    ensures
        r@ == spec_lower(s@),
{
    let mut out: Vec<u8> = Vec::new();
    let mut i: usize = 0;
    while i < s.len()
        invariant
            i <= s.len(),
            out@ == spec_lower(s@.subrange(0, i as int)),
        decreases s.len() - i,
    {
        out.push(lower_byte(s[i]));
        proof {
            assert(s@.subrange(0, i + 1).drop_last() == s@.subrange(0, i as int));
            assert(out@ =~= spec_lower(s@.subrange(0, i + 1)));
        }
        i = i + 1;
    }
    proof {
        assert(s@.subrange(0, s@.len() as int) == s@);
    }
    out
}

/// Whether `needle` matches at position `i` of `haystack`.
fn matches_at(needle: &Vec<u8>, haystack: &Vec<u8>, i: usize) -> (r: bool)
    requires
        i + needle@.len() <= haystack@.len(),
    ensures
        r == (haystack@.subrange(i as int, i + needle@.len()) == needle@),
{
    let n = haystack.len();
    let mut j: usize = 0;
    while j < needle.len()
        invariant
            j <= needle@.len(),
            n == haystack@.len(),
            i + needle@.len() <= n,
            forall|k: int| 0 <= k < j ==> haystack@[i + k] == needle@[k],
        decreases needle.len() - j,
    {
        if haystack[i + j] != needle[j] {
            proof {
                assert(haystack@.subrange(i as int, i + needle@.len())[j as int] != needle@[j as int]);
            }
            return false;
        }
        j = j + 1;
    }
    proof {
        assert(haystack@.subrange(i as int, i + needle@.len()) =~= needle@);
    }
    true
}

/// Substring search: does `needle` occur inside `haystack`?
pub fn contains_bytes(needle: &Vec<u8>, haystack: &Vec<u8>) -> (r: bool)
    ensures
        r == is_substring(needle@, haystack@),
{
    if needle.len() > haystack.len() {
        return false;
    }
    if needle.len() == 0 {
        proof {
            assert(haystack@.subrange(0, 0 + needle@.len() as int) =~= needle@);
        }
        return true;
    }
    let n = haystack.len();
    let last = n - needle.len();
    let mut i: usize = 0;
    while i <= last
        invariant
            1 <= needle@.len() <= haystack@.len(),
            n == haystack@.len(),
            last == haystack@.len() - needle@.len(),
            i <= last + 1,
            forall|k: int|
                0 <= k < i ==> #[trigger] haystack@.subrange(k, k + needle@.len()) != needle@,
        decreases last + 1 - i,
    {
        if matches_at(needle, haystack, i) {
            return true;
        }
        i = i + 1;
    }
    false
}

} // verus!
