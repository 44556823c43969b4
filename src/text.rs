use vstd::prelude::*;
use vstd::string::StringSliceAdditionalSpecFns;
use vstd::utf8::*;

verus! {

broadcast use vstd::utf8::group_utf8_lib;

/// The bytes of a string slice, as UTF-8.
pub open spec fn bytes_of(s: &str) -> Seq<u8> {
    s.spec_bytes()
}

/// `i` is the position of the first occurrence of `d` in `s`.
pub open spec fn is_first(s: Seq<u8>, d: u8, i: int) -> bool {
    &&& 0 <= i < s.len()
    &&& s[i] == d
    &&& forall|k: int| 0 <= k < i ==> s[k] != d
}

/// The position of the first occurrence of `d` in `s`, if `d` occurs.
pub open spec fn first_index(s: Seq<u8>, d: u8) -> Option<int> {
    if exists|i: int| is_first(s, d, i) {
        Some(choose|i: int| is_first(s, d, i))
    } else {
        None
    }
}

/// The part of `s` before position `i`, and the part after it.
pub open spec fn around(s: Seq<u8>, i: int) -> (Seq<u8>, Seq<u8>) {
    (s.subrange(0, i), s.subrange(i + 1, s.len() as int))
}

/// An occurrence of `d` at `k` means that `d` has a first occurrence.
proof fn lemma_first_exists(s: Seq<u8>, d: u8, k: int)
    requires
        0 <= k < s.len(),
        s[k] == d,
    ensures
        exists|i: int| is_first(s, d, i),
    decreases k,
{
    if exists|m: int| 0 <= m < k && s[m] == d {
        let m = choose|m: int| 0 <= m < k && s[m] == d;
        lemma_first_exists(s, d, m);
    } else {
        assert(is_first(s, d, k));
    }
}

pub proof fn lemma_first_index(s: Seq<u8>, d: u8)
    ensures
        match first_index(s, d) {
            Some(i) => is_first(s, d, i),
            None => forall|k: int| 0 <= k < s.len() ==> s[k] != d,
        },
{
    assert forall|k: int| 0 <= k < s.len() && s[k] == d implies first_index(s, d) is Some by {
        lemma_first_exists(s, d, k);
    }
}

/// The first occurrence of `d` is unique.
pub proof fn lemma_is_first_unique(s: Seq<u8>, d: u8, i: int)
    requires
        is_first(s, d, i),
    ensures
        first_index(s, d) == Some(i),
{
    lemma_first_index(s, d);
    let j = first_index(s, d)->0;
    assert(!(j < i));
    assert(!(i < j));
}

/// `first_index` with positions given as `usize`.
pub open spec fn found(r: Option<usize>) -> Option<int> {
    match r {
        Some(i) => Some(i as int),
        None => None,
    }
}

/// A character boundary that starts a one-byte character is followed by another boundary.
proof fn lemma_boundary_after_ascii(b: Seq<u8>, i: int)
    requires
        valid_utf8(b),
        0 <= i < b.len(),
        is_char_boundary(b, i),
        b[i] <= 0x7f,
    ensures
        is_char_boundary(b, i + 1),
    decreases b.len(),
{
    reveal_with_fuel(is_char_boundary, 2);
    if i > 0 {
        let n = length_of_first_scalar(b);
        let rest = pop_first_scalar(b);
        assert(rest[i - n] == b[i]);
        lemma_boundary_after_ascii(rest, i - n);
    }
}

/// Both sides of a one-byte character are character boundaries.
pub proof fn lemma_ascii_boundaries(b: Seq<u8>, i: int)
    requires
        valid_utf8(b),
        0 <= i < b.len(),
        b[i] <= 0x7f,
    ensures
        is_char_boundary(b, i),
        is_char_boundary(b, i + 1),
{
    is_char_boundary_iff_not_is_continuation_byte(b, i);
    lemma_boundary_after_ascii(b, i);
}

/// Position of the first occurrence of `d` in `s`.
pub fn find_byte(s: &[u8], d: u8) -> (r: Option<usize>)
    ensures
        found(r) == first_index(s@, d),
{
    let mut i: usize = 0;
    while i < s.len()
        invariant
            i <= s@.len(),
            forall|k: int| 0 <= k < i ==> s@[k] != d,
        decreases s@.len() - i,
    {
        if s[i] == d {
            proof {
                lemma_is_first_unique(s@, d, i as int);
            }
            return Some(i);
        }
        i = i + 1;
    }
    proof {
        lemma_first_index(s@, d);
    }
    None
}

/// Splits `s` around the one-byte character at byte position `i`, which
/// belongs to neither part.
pub fn split_around<'a>(s: &'a str, i: usize) -> (r: (&'a str, &'a str))
    requires
        i < bytes_of(s).len(),
        bytes_of(s)[i as int] <= 0x7f,
    ensures
        (bytes_of(r.0), bytes_of(r.1)) == around(bytes_of(s), i as int),
{
    proof {
        lemma_ascii_boundaries(bytes_of(s), i as int);
    }
    let (head, tail) = s.split_at(i);
    proof {
        assert(bytes_of(tail).len() > 0);
        assert(bytes_of(tail)[0] == bytes_of(s)[i as int]);
        lemma_ascii_boundaries(bytes_of(tail), 0);
    }
    let (_, after) = tail.split_at(1);
    proof {
        assert(bytes_of(after) =~= bytes_of(s).subrange(i + 1, bytes_of(s).len() as int));
    }
    (head, after)
}

/// Whether two byte strings are equal.
pub fn bytes_eq(a: &[u8], b: &[u8]) -> (r: bool)
    ensures
        r == (a@ == b@),
{
    if a.len() != b.len() {
        return false;
    }
    let mut i: usize = 0;
    while i < a.len()
        invariant
            a@.len() == b@.len(),
            i <= a@.len(),
            forall|k: int| 0 <= k < i ==> a@[k] == b@[k],
        decreases a@.len() - i,
    {
        if a[i] != b[i] {
            return false;
        }
        i = i + 1;
    }
    assert(a@ =~= b@);
    true
}

/// Whether two string slices hold the same text.
pub fn str_eq(a: &str, b: &str) -> (r: bool)
    ensures
        r == (bytes_of(a) == bytes_of(b)),
        r == (a@ == b@),
{
    proof {
        vstd::utf8::encode_utf8_decode_utf8(a@);
        vstd::utf8::encode_utf8_decode_utf8(b@);
    }
    bytes_eq(a.as_bytes(), b.as_bytes())
}

} // verus!
