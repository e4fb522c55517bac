//! Byte-level text helpers for framed telemetry records.
//!
//! Records arrive as ASCII byte strings. Everything the engine does with
//! them — trimming surrounding whitespace, testing a trigger suffix,
//! splitting on commas, rendering default slot names — is defined here
//! over `Seq<u8>` and proved on the executable counterparts.

use vstd::prelude::*;

verus! {

/// ASCII whitespace, as trimmed from both ends of a framed record.
pub open spec fn is_space(b: u8) -> bool {
    b == 9 || b == 10 || b == 11 || b == 12 || b == 13 || b == 32
}

/// `s` with leading whitespace removed.
pub open spec fn trim_front(s: Seq<u8>) -> Seq<u8>
    decreases s.len(),
{
    if s.len() > 0 && is_space(s[0]) {
        trim_front(s.subrange(1, s.len() as int))
    } else {
        s
    }
}

/// `s` with trailing whitespace removed.
pub open spec fn trim_back(s: Seq<u8>) -> Seq<u8>
    decreases s.len(),
{
    if s.len() > 0 && is_space(s[s.len() - 1]) {
        trim_back(s.subrange(0, s.len() - 1))
    } else {
        s
    }
}

/// `s` with whitespace removed from both ends.
pub open spec fn trimmed(s: Seq<u8>) -> Seq<u8> {
    trim_back(trim_front(s))
}

/// `s` ends with `suffix`.
pub open spec fn ends_with(s: Seq<u8>, suffix: Seq<u8>) -> bool {
    s.len() >= suffix.len() && s.subrange(s.len() - suffix.len(), s.len() as int) == suffix
}

/// Index of the first occurrence of `b` in `s`, or `s.len()` if absent.
pub open spec fn find_byte(s: Seq<u8>, b: u8) -> nat
    decreases s.len(),
{
    if s.len() == 0 {
        0
    } else if s[0] == b {
        0
    } else {
        (1 + find_byte(s.subrange(1, s.len() as int), b)) as nat
    }
}

/// Decimal digits of `n`, most significant first.
pub open spec fn dec_digits(n: nat) -> Seq<u8>
    decreases n,
{
    if n < 10 {
        seq![(48 + n) as u8]
    } else {
        dec_digits(n / 10).push((48 + n % 10) as u8)
    }
}

pub proof fn lemma_find_byte(s: Seq<u8>, b: u8)
    ensures
        find_byte(s, b) <= s.len(),
        find_byte(s, b) < s.len() ==> s[find_byte(s, b) as int] == b,
        forall|k: int| 0 <= k < find_byte(s, b) ==> s[k] != b,
    decreases s.len(),
{
    if s.len() > 0 && s[0] != b {
        let t = s.subrange(1, s.len() as int);
        lemma_find_byte(t, b);
        assert forall|k: int| 0 <= k < find_byte(s, b) implies s[k] != b by {
            if k >= 1 {
                assert(s[k] == t[k - 1]);
            }
        }
    }
}

/// The position of the first occurrence is pinned by what stands before
/// it and at it.
pub proof fn lemma_find_byte_is(s: Seq<u8>, b: u8, i: int)
    requires
        0 <= i <= s.len(),
        forall|k: int| 0 <= k < i ==> s[k] != b,
        i == s.len() || s[i] == b,
    ensures
        find_byte(s, b) == i,
    decreases s.len(),
{
    if s.len() > 0 && s[0] != b {
        let t = s.subrange(1, s.len() as int);
        assert(forall|k: int| 0 <= k < i - 1 ==> t[k] != b);
        lemma_find_byte_is(t, b, i - 1);
    }
}

/// Skipping a wholly-space prefix does not change `trim_front`.
proof fn lemma_trim_front_skip(s: Seq<u8>, i: int)
    requires
        0 <= i <= s.len(),
        forall|k: int| 0 <= k < i ==> is_space(s[k]),
    ensures
        trim_front(s) == trim_front(s.subrange(i, s.len() as int)),
    decreases i,
{
    if i > 0 {
        let t = s.subrange(1, s.len() as int);
        lemma_trim_front_skip(t, i - 1);
        assert(t.subrange(i - 1, t.len() as int) =~= s.subrange(i, s.len() as int));
    } else {
        assert(s.subrange(0, s.len() as int) =~= s);
    }
}

/// A sequence that starts with a non-space byte (or is empty) is its own
/// `trim_front`.
proof fn lemma_trim_front_fixed(s: Seq<u8>)
    requires
        s.len() == 0 || !is_space(s[0]),
    ensures
        trim_front(s) == s,
{
}

/// Dropping a wholly-space suffix does not change `trim_back`.
proof fn lemma_trim_back_skip(s: Seq<u8>, j: int)
    requires
        0 <= j <= s.len(),
        forall|k: int| j <= k < s.len() ==> is_space(s[k]),
    ensures
        trim_back(s) == trim_back(s.subrange(0, j)),
    decreases s.len() - j,
{
    if j < s.len() {
        let t = s.subrange(0, s.len() - 1);
        lemma_trim_back_skip(t, j);
        assert(t.subrange(0, j) =~= s.subrange(0, j));
    } else {
        assert(s.subrange(0, s.len() as int) =~= s);
    }
}

/// A sequence that ends with a non-space byte (or is empty) is its own
/// `trim_back`.
proof fn lemma_trim_back_fixed(s: Seq<u8>)
    requires
        s.len() == 0 || !is_space(s[s.len() - 1]),
    ensures
        trim_back(s) == s,
{
}

/// The two-cursor characterization of `trimmed`: if everything left of
/// `lo` and right of `hi` is space and the bytes at the cursors are not,
/// the trimmed sequence is exactly `s[lo..hi]`.
proof fn lemma_trimmed_is(s: Seq<u8>, lo: int, hi: int)
    requires
        0 <= lo <= hi <= s.len(),
        forall|k: int| 0 <= k < lo ==> is_space(s[k]),
        forall|k: int| hi <= k < s.len() ==> is_space(s[k]),
        lo == hi || (!is_space(s[lo]) && !is_space(s[hi - 1])),
    ensures
        trimmed(s) == s.subrange(lo, hi),
{
    if lo == hi {
        // all of s is space; trim_front eats everything
        lemma_trim_front_skip(s, s.len() as int);
        assert(s.subrange(s.len() as int, s.len() as int) =~= Seq::<u8>::empty());
        assert(trim_front(s) =~= Seq::<u8>::empty());
        assert(s.subrange(lo, hi) =~= Seq::<u8>::empty());
    } else {
        lemma_trim_front_skip(s, lo);
        let t = s.subrange(lo, s.len() as int);
        lemma_trim_front_fixed(t);
        lemma_trim_back_skip(t, hi - lo);
        assert(t.subrange(0, hi - lo) =~= s.subrange(lo, hi));
        lemma_trim_back_fixed(s.subrange(lo, hi));
    }
}

/// Executable test for ASCII whitespace.
pub fn space_byte(b: u8) -> (r: bool)
    ensures
        r == is_space(b),
{
    b == 9 || b == 10 || b == 11 || b == 12 || b == 13 || b == 32
}

/// Copy of `s` with ASCII whitespace removed from both ends.
pub fn trim_bytes(s: &[u8]) -> (r: Vec<u8>)
    ensures
        r@ == trimmed(s@),
{
    let n = s.len();
    let mut lo: usize = 0;
    while lo < n && space_byte(s[lo])
        invariant
            0 <= lo <= n == s@.len(),
            forall|k: int| 0 <= k < lo ==> is_space(s@[k]),
        decreases n - lo,
    {
        lo = lo + 1;
    }
    let mut hi: usize = n;
    while hi > lo && space_byte(s[hi - 1])
        invariant
            lo <= hi <= n == s@.len(),
            forall|k: int| hi <= k < n ==> is_space(s@[k]),
        decreases hi,
    {
        hi = hi - 1;
    }
    let mut r: Vec<u8> = Vec::new();
    let mut k = lo;
    while k < hi
        invariant
            lo <= k <= hi <= n == s@.len(),
            r@ == s@.subrange(lo as int, k as int),
        decreases hi - k,
    {
        r.push(s[k]);
        assert(s@.subrange(lo as int, k + 1) =~= s@.subrange(lo as int, k as int).push(
            s@[k as int],
        ));
        k = k + 1;
    }
    proof {
        lemma_trimmed_is(s@, lo as int, hi as int);
    }
    r
}

/// Does `s` end with `suffix`?
pub fn ends_with_bytes(s: &[u8], suffix: &[u8]) -> (r: bool)
    ensures
        r == ends_with(s@, suffix@),
{
    let n = s.len();
    let m = suffix.len();
    if n < m {
        return false;
    }
    let off = n - m;
    let mut k: usize = 0;
    while k < m
        invariant
            0 <= k <= m <= n == s@.len(),
            m == suffix@.len(),
            off == n - m,
            forall|j: int| 0 <= j < k ==> s@[off + j] == suffix@[j],
        decreases m - k,
    {
        if s[off + k] != suffix[k] {
            assert(s@.subrange(n - m, n as int)[k as int] != suffix@[k as int]);
            return false;
        }
        k = k + 1;
    }
    assert(s@.subrange(n - m, n as int) =~= suffix@);
    true
}

/// Decimal rendering of `n` as ASCII digit bytes.
pub fn dec_bytes(n: usize) -> (r: Vec<u8>)
    ensures
        r@ == dec_digits(n as nat),
    decreases n,
{
    if n < 10 {
        let mut r: Vec<u8> = Vec::new();
        r.push(48 + (n as u8));
        assert(r@ =~= seq![(48 + n) as u8]);
        r
    } else {
        let mut r = dec_bytes(n / 10);
        r.push(48 + ((n % 10) as u8));
        r
    }
}

} // verus!
