//! Small verified helpers over byte strings.
//!
//! Paths, headers, stream lines and URLs are handled as byte sequences
//! throughout the library; these helpers give the exact sequence-level
//! facts the rest of the crate builds on.

use vstd::prelude::*;

verus! {

/// `prefix` stands at the front of `s`.
pub open spec fn is_prefix_of(prefix: Seq<u8>, s: Seq<u8>) -> bool {
    prefix.len() <= s.len() && s.take(prefix.len() as int) == prefix
}

/// `needle` occurs in `s` starting at index `i`.
pub open spec fn occurs_at(needle: Seq<u8>, s: Seq<u8>, i: int) -> bool {
    0 <= i && i + needle.len() <= s.len() && s.subrange(i, i + needle.len() as int) == needle
}

/// `needle` occurs somewhere in `s`.
pub open spec fn contains_seq(needle: Seq<u8>, s: Seq<u8>) -> bool {
    exists|i: int| occurs_at(needle, s, i)
}

/// Exact byte-for-byte equality of two slices.
pub fn bytes_eq(a: &[u8], b: &[u8]) -> (r: bool)
    ensures
        r == (a@ == b@),
{
    if a.len() != b.len() {
        assert(a@.len() != b@.len());
        return false;
    }
    let n = a.len();
    let mut i: usize = 0;
    while i < n
        invariant
            n == a@.len() == b@.len(),
            0 <= i <= n,
            forall|j: int| 0 <= j < i ==> a@[j] == b@[j],
        decreases n - i,
    {
        if a[i] != b[i] {
            return false;
        }
        i += 1;
    }
    proof {
        assert(a@ =~= b@);
    }
    true
}

/// Does `s` start with `prefix`?
pub fn starts_with(s: &[u8], prefix: &[u8]) -> (r: bool)
    ensures
        r == is_prefix_of(prefix@, s@),
{
    if prefix.len() > s.len() {
        return false;
    }
    let n = prefix.len();
    let mut i: usize = 0;
    while i < n
        invariant
            n == prefix@.len() <= s@.len(),
            0 <= i <= n,
            forall|j: int| 0 <= j < i ==> s@[j] == prefix@[j],
        decreases n - i,
    {
        if s[i] != prefix[i] {
            assert(s@.take(n as int)[i as int] != prefix@[i as int]);
            return false;
        }
        i += 1;
    }
    proof {
        assert(s@.take(n as int) =~= prefix@);
    }
    true
}

/// Does `needle` occur anywhere in `s`?
pub fn contains(s: &[u8], needle: &[u8]) -> (r: bool)
    ensures
        r == contains_seq(needle@, s@),
{
    if needle.len() > s.len() {
        assert(forall|i: int| !occurs_at(needle@, s@, i));
        return false;
    }
    if needle.len() == 0 {
        proof {
            assert(s@.subrange(0, 0) =~= needle@);
            assert(occurs_at(needle@, s@, 0));
        }
        return true;
    }
    let last = s.len() - needle.len();
    let mut i: usize = 0;
    loop
        invariant
            1 <= needle@.len() <= s@.len(),
            s@.len() <= usize::MAX,
            last == s@.len() - needle@.len(),
            0 <= i <= last + 1,
            forall|k: int| 0 <= k < i ==> !occurs_at(needle@, s@, k),
        decreases last + 1 - i,
    {
        if i > last {
            proof {
                assert(forall|k: int| occurs_at(needle@, s@, k) ==> 0 <= k <= last);
            }
            return false;
        }
        let sub = vstd::slice::slice_subrange(s, i, i + needle.len());
        if bytes_eq(sub, needle) {
            assert(occurs_at(needle@, s@, i as int));
            return true;
        }
        proof {
            assert(s@.subrange(i as int, i + needle@.len()) != needle@);
        }
        i += 1;
    }
}

/// Append the bytes of `src` to `dst`.
pub fn append_bytes(dst: &mut Vec<u8>, src: &[u8])
    ensures
        final(dst)@ == old(dst)@ + src@,
{
    let n = src.len();
    let mut i: usize = 0;
    proof {
        assert(dst@ =~= old(dst)@ + src@.take(0));
    }
    while i < n
        invariant
            n == src@.len(),
            0 <= i <= n,
            dst@ == old(dst)@ + src@.take(i as int),
        decreases n - i,
    {
        dst.push(src[i]);
        proof {
            assert(old(dst)@ + src@.take(i as int) + seq![src@[i as int]] =~= old(dst)@
                + src@.take(i as int + 1));
        }
        i += 1;
    }
    proof {
        assert(src@.take(n as int) =~= src@);
    }
}

/// The index of the first occurrence of `b` in `s`, or -1 when `b` does
/// not occur.
pub open spec fn spec_find(s: Seq<u8>, b: u8) -> int
    decreases s.len(),
{
    if s.len() == 0 {
        -1
    } else if s[0] == b {
        0
    } else {
        let r = spec_find(s.drop_first(), b);
        if r < 0 {
            -1
        } else {
            r + 1
        }
    }
}

/// What `spec_find` returns: -1 exactly when `b` is absent, else the
/// least index holding `b`.
pub proof fn lemma_spec_find(s: Seq<u8>, b: u8)
    ensures
        spec_find(s, b) == -1 <==> forall|j: int| 0 <= j < s.len() ==> s[j] != b,
        spec_find(s, b) >= 0 ==> spec_find(s, b) < s.len() && s[spec_find(s, b)] == b && forall|
            j: int,
        | 0 <= j < spec_find(s, b) ==> s[j] != b,
    decreases s.len(),
{
    if s.len() == 0 {
    } else if s[0] == b {
    } else {
        lemma_spec_find(s.drop_first(), b);
        assert(forall|j: int| 1 <= j < s.len() ==> s[j] == s.drop_first()[j - 1]);
    }
}

/// Find the first occurrence of `b` in `s`.
pub fn find_byte(s: &[u8], b: u8) -> (r: Option<usize>)
    ensures
        r matches Some(i) ==> spec_find(s@, b) == i && i < s@.len() && s@[i as int] == b,
        r is None ==> spec_find(s@, b) == -1,
{
    let n = s.len();
    let mut i: usize = 0;
    while i < n
        invariant
            n == s@.len(),
            0 <= i <= n,
            forall|j: int| 0 <= j < i ==> s@[j] != b,
        decreases n - i,
    {
        if s[i] == b {
            proof {
                lemma_spec_find(s@, b);
            }
            return Some(i);
        }
        i += 1;
    }
    proof {
        lemma_spec_find(s@, b);
    }
    None
}

/// The decimal digits of a positive count of `n`, most significant first;
/// empty once `n` reaches zero.
pub open spec fn spec_digits(n: int) -> Seq<u8>
    decreases n,
{
    if n <= 0 {
        Seq::empty()
    } else {
        spec_digits(n / 10) + seq![(n % 10 + ('0' as u8)) as u8]
    }
}

/// The decimal rendering of `n`: its digits, or a single zero digit.
pub open spec fn spec_dec(n: int) -> Seq<u8> {
    if n == 0 {
        seq![('0' as u8)]
    } else {
        spec_digits(n)
    }
}

/// Render `n` in decimal, most significant digit first.
pub fn u64_to_dec(n: u64) -> (r: Vec<u8>)
    ensures
        r@ == spec_dec(n as int),
{
    if n == 0 {
        let mut r: Vec<u8> = Vec::new();
        r.push('0' as u8);
        proof {
            assert(r@ =~= spec_dec(0));
        }
        return r;
    }
    let mut rev: Vec<u8> = Vec::new();
    let mut m: u64 = n;
    proof {
        assert(rev@.reverse() =~= Seq::<u8>::empty());
        assert(spec_digits(n as int) =~= spec_digits(n as int) + rev@.reverse());
    }
    while m > 0
        invariant
            spec_digits(n as int) == spec_digits(m as int) + rev@.reverse(),
        decreases m,
    {
        let d: u8 = (m % 10) as u8 + ('0' as u8);
        proof {
            assert(spec_digits(m as int) == spec_digits(m as int / 10) + seq![d]);
            assert((rev@.push(d)).reverse() =~= seq![d] + rev@.reverse());
            assert(spec_digits(m as int / 10) + (seq![d] + rev@.reverse()) =~= spec_digits(
                m as int / 10,
            ) + seq![d] + rev@.reverse());
        }
        rev.push(d);
        m = m / 10;
    }
    let mut r: Vec<u8> = Vec::new();
    let mut i: usize = rev.len();
    proof {
        assert(r@ =~= rev@.reverse().take(0));
    }
    while i > 0
        invariant
            0 <= i <= rev@.len(),
            r@ == rev@.reverse().take((rev@.len() - i) as int),
        decreases i,
    {
        i -= 1;
        r.push(rev[i]);
        proof {
            assert(rev@.reverse().take((rev@.len() - i) as int) =~= rev@.reverse().take(
                (rev@.len() - i - 1) as int,
            ) + seq![rev@[i as int]]);
        }
    }
    proof {
        assert(rev@.reverse().take(rev@.len() as int) =~= rev@.reverse());
        assert(Seq::<u8>::empty() + rev@.reverse() =~= rev@.reverse());
    }
    r
}

} // verus!
