//! Byte-level helpers shared by the response builder and the request
//! parser: decimal rendering of integers, bridging from `&str` literals
//! to byte vectors, and elementwise byte-sequence comparisons.

use vstd::prelude::*;
use vstd::slice::slice_to_vec;
use vstd::string::StringSliceAdditionalSpecFns;

verus! {

/// The decimal digits of `n`, most significant first, as ASCII bytes.
pub open spec fn dec_digits(n: nat) -> Seq<u8>
    decreases n,
{
    if n < 10 {
        seq![(48 + n) as u8]
    } else {
        dec_digits(n / 10) + seq![(48 + n % 10) as u8]
    }
}

/// Renders `n` in decimal, matching `dec_digits`.
pub fn u64_to_dec(n: u64) -> (r: Vec<u8>)
    ensures
        r@ == dec_digits(n as nat),
    decreases n,
{
    if n < 10 {
        let mut v: Vec<u8> = Vec::new();
        v.push((48 + n) as u8);
        proof {
            assert(v@ =~= dec_digits(n as nat));
        }
        v
    } else {
        let mut v = u64_to_dec(n / 10);
        v.push((48 + n % 10) as u8);
        proof {
            assert(v@ =~= dec_digits(n as nat));
        }
        v
    }
}

/// The UTF-8 bytes of `s`, as a fresh vector.
pub fn str_to_bytes(s: &str) -> (r: Vec<u8>)
    ensures
        r@ == s.spec_bytes(),
{
    slice_to_vec(s.as_bytes())
}

/// Appends the UTF-8 bytes of `s` to `out`.
pub fn append_str(out: &mut Vec<u8>, s: &str)
    ensures
        final(out)@ == old(out)@ + s.spec_bytes(),
{
    let mut b = slice_to_vec(s.as_bytes());
    out.append(&mut b);
}

/// Appends a copy of `b` to `out`.
pub fn append_slice(out: &mut Vec<u8>, b: &[u8])
    ensures
        final(out)@ == old(out)@ + b@,
{
    let mut v = slice_to_vec(b);
    out.append(&mut v);
}

/// Whether two byte sequences are equal.
pub fn bytes_eq(a: &[u8], b: &[u8]) -> (r: bool)
    ensures
        r == (a@ == b@),
{
    if a.len() != b.len() {
        proof {
            assert(a@.len() != b@.len());
        }
        return false;
    }
    let mut i: usize = 0;
    while i < a.len()
        invariant
            0 <= i <= a@.len(),
            a@.len() == b@.len(),
            forall|j: int| 0 <= j < i ==> a@[j] == b@[j],
        decreases a@.len() - i,
    {
        if a[i] != b[i] {
            return false;
        }
        i += 1;
    }
    proof {
        assert(a@ =~= b@);
    }
    true
}

/// ASCII lower-casing of one byte: maps `A`..`Z` to `a`..`z`.
pub open spec fn to_lower(b: u8) -> u8 {
    if 65 <= b && b <= 90 {
        (b + 32) as u8
    } else {
        b
    }
}

/// Equality of byte sequences up to ASCII case.
pub open spec fn eq_nocase(a: Seq<u8>, b: Seq<u8>) -> bool {
    a.len() == b.len() && (forall|i: int| 0 <= i < a.len() ==> to_lower(a[i]) == to_lower(b[i]))
}

/// Whether two byte sequences are equal up to ASCII case.
pub fn bytes_eq_nocase(a: &[u8], b: &[u8]) -> (r: bool)
    ensures
        r == eq_nocase(a@, b@),
{
    if a.len() != b.len() {
        return false;
    }
    let mut i: usize = 0;
    while i < a.len()
        invariant
            0 <= i <= a@.len(),
            a@.len() == b@.len(),
            forall|j: int| 0 <= j < i ==> to_lower(a@[j]) == to_lower(b@[j]),
        decreases a@.len() - i,
    {
        let x = a[i];
        let y = b[i];
        let xl = if 65 <= x && x <= 90 { x + 32 } else { x };
        let yl = if 65 <= y && y <= 90 { y + 32 } else { y };
        if xl != yl {
            return false;
        }
        i += 1;
    }
    true
}

/// Whether `p` occurs at the start of `s`.
pub fn bytes_starts_with(s: &[u8], p: &[u8]) -> (r: bool)
    ensures
        r == p@.is_prefix_of(s@),
{
    if p.len() > s.len() {
        return false;
    }
    let mut i: usize = 0;
    while i < p.len()
        invariant
            0 <= i <= p@.len(),
            p@.len() <= s@.len(),
            forall|j: int| 0 <= j < i ==> s@[j] == p@[j],
        decreases p@.len() - i,
    {
        if s[i] != p[i] {
            proof {
                assert(s@.subrange(0, p@.len() as int)[i as int] != p@[i as int]);
            }
            return false;
        }
        i += 1;
    }
    proof {
        assert(s@.subrange(0, p@.len() as int) =~= p@);
    }
    true
}

/// Whether `pat` occurs as a contiguous run in `s` starting at `i`.
pub open spec fn occurs_at(s: Seq<u8>, pat: Seq<u8>, i: int) -> bool {
    &&& 0 <= i
    &&& i + pat.len() <= s.len()
    &&& forall|j: int| 0 <= j < pat.len() ==> s[i + j] == pat[j]
}

/// Whether `pat` occurs anywhere in `s`.
pub open spec fn contains_seq(s: Seq<u8>, pat: Seq<u8>) -> bool {
    exists|i: int| occurs_at(s, pat, i)
}

/// A sequence assembled around `p` contains `p`, right where it was put.
pub proof fn lemma_occurs_concat(a: Seq<u8>, p: Seq<u8>, b: Seq<u8>)
    ensures
        occurs_at(a + p + b, p, a.len() as int),
        contains_seq(a + p + b, p),
{
    assert forall|j: int| 0 <= j < p.len() implies (a + p + b)[a.len() + j] == p[j] by {
        assert((a + p)[a.len() + j] == p[j]);
    }
}

/// Whether `pat` occurs as a contiguous byte run anywhere in `s`.
pub fn bytes_contains(s: &[u8], pat: &[u8]) -> (r: bool)
    ensures
        r == contains_seq(s@, pat@),
{
    if pat.len() > s.len() {
        return false;
    }
    if pat.len() == 0 {
        proof {
            assert(occurs_at(s@, pat@, 0));
        }
        return true;
    }
    let n: usize = s.len();
    let limit: usize = n - pat.len();
    let mut i: usize = 0;
    while i <= limit
        invariant
            0 <= i <= limit + 1,
            n == s@.len(),
            1 <= pat@.len() <= s@.len(),
            limit == s@.len() - pat@.len(),
            forall|k: int| 0 <= k < i ==> !occurs_at(s@, pat@, k),
        decreases limit + 1 - i,
    {
        let mut j: usize = 0;
        let mut hit: bool = true;
        while j < pat.len()
            invariant
                0 <= j <= pat@.len(),
                n == s@.len(),
                1 <= pat@.len() <= s@.len(),
                limit == s@.len() - pat@.len(),
                i <= limit,
                hit ==> forall|k: int| 0 <= k < j ==> s@[i + k] == pat@[k],
                !hit ==> !occurs_at(s@, pat@, i as int),
            decreases pat@.len() - j,
        {
            if s[i + j] != pat[j] {
                hit = false;
                proof {
                    assert(!occurs_at(s@, pat@, i as int));
                }
                j = pat.len();
            } else {
                j += 1;
            }
        }
        if hit {
            proof {
                assert(occurs_at(s@, pat@, i as int));
            }
            return true;
        }
        i += 1;
    }
    proof {
        assert forall|k: int| !occurs_at(s@, pat@, k) by {
            if occurs_at(s@, pat@, k) {
                assert(0 <= k <= limit);
            }
        }
    }
    false
}

} // verus!
