//! Strand-independent representatives of k-mers.
//!
//! A stretch of double-stranded DNA can be read from either strand. The two readings are
//! reverse complements of each other, and the canonical k-mer is the smaller of the two in
//! byte-lexicographic order, so that both readings are counted as one.

use vstd::prelude::*;
use vstd::slice::slice_to_vec;

verus! {

/// The base that pairs with `b` on the opposite strand: `A` with `T` and `C` with `G`.
/// Every other byte, an ambiguity code for instance, stands for itself.
pub open spec fn complement(b: u8) -> u8 {
    if b == 0x41u8 {
        0x54u8
    } else if b == 0x54u8 {
        0x41u8
    } else if b == 0x43u8 {
        0x47u8
    } else if b == 0x47u8 {
        0x43u8
    } else {
        b
    }
}

/// The opposite strand of `s`, read in its own direction: the bases of `s` in reverse
/// order, each one complemented.
pub open spec fn revcomp(s: Seq<u8>) -> Seq<u8> {
    Seq::new(s.len(), |i: int| complement(s[s.len() - 1 - i]))
}

/// Byte-lexicographic order on what `a` and `b` hold from position `i` on, given that they
/// agree before it: the first position at which they differ decides, and where there is
/// none the shorter sequence comes first.
pub open spec fn lex_le_from(a: Seq<u8>, b: Seq<u8>, i: int) -> bool
    decreases a.len() - i,
{
    if i < 0 || i >= a.len() {
        true
    } else if i >= b.len() {
        false
    } else if a[i] != b[i] {
        a[i] < b[i]
    } else {
        lex_le_from(a, b, i + 1)
    }
}

/// `a` is at most `b` in byte-lexicographic order.
pub open spec fn lex_le(a: Seq<u8>, b: Seq<u8>) -> bool {
    lex_le_from(a, b, 0)
}

/// The canonical form of a window: the smaller of the window and its reverse complement.
/// A window that equals its reverse complement is its own canonical form.
pub open spec fn canonical(w: Seq<u8>) -> Seq<u8> {
    if lex_le(w, revcomp(w)) {
        w
    } else {
        revcomp(w)
    }
}

/// Complements one base.
pub fn complement_base(b: u8) -> (r: u8)
    ensures
        r == complement(b),
{
    if b == 0x41u8 {
        0x54u8
    } else if b == 0x54u8 {
        0x41u8
    } else if b == 0x43u8 {
        0x47u8
    } else if b == 0x47u8 {
        0x43u8
    } else {
        b
    }
}

/// The reverse complement of `kmer`.
pub fn reverse_complement(kmer: &[u8]) -> (rc: Vec<u8>)
    ensures
        rc@ == revcomp(kmer@),
{
    let n: usize = kmer.len();
    let mut rc: Vec<u8> = Vec::with_capacity(n);
    let mut i: usize = 0;
    while i < n
        invariant
            n == kmer@.len(),
            i <= n,
            rc@.len() == i,
            forall|j: int| 0 <= j < i ==> rc@[j] == complement(kmer@[n - 1 - j]),
        decreases n - i,
    {
        rc.push(complement_base(kmer[n - 1 - i]));
        i += 1;
    }
    assert(rc@ =~= revcomp(kmer@));
    rc
}

/// Whether `a` is at most `b` in byte-lexicographic order.
pub fn lex_le_bytes(a: &[u8], b: &[u8]) -> (r: bool)
    ensures
        r == lex_le(a@, b@),
{
    let mut i: usize = 0;
    while i < a.len() && i < b.len()
        invariant
            i <= a@.len(),
            i <= b@.len(),
            lex_le(a@, b@) == lex_le_from(a@, b@, i as int),
        decreases a@.len() - i,
    {
        if a[i] != b[i] {
            return a[i] < b[i];
        }
        i += 1;
    }
    i >= a.len()
}

/// The canonical form of `kmer`: `kmer` itself where it is at most its reverse complement,
/// else the reverse complement.
pub fn canonical_kmer(kmer: &[u8]) -> (c: Vec<u8>)
    ensures
        c@ == canonical(kmer@),
{
    let rc = reverse_complement(kmer);
    if lex_le_bytes(kmer, rc.as_slice()) {
        slice_to_vec(kmer)
    } else {
        rc
    }
}

/// Complementing a base twice gives the base back.
pub proof fn complement_involution(b: u8)
    ensures
        complement(complement(b)) == b,
{
}

/// The reverse complement of the reverse complement is the sequence itself.
pub proof fn revcomp_involution(s: Seq<u8>)
    ensures
        revcomp(revcomp(s)) == s,
{
    assert(revcomp(revcomp(s)) =~= s);
}

/// Two sequences that agree before `i` are ordered one way or the other from `i` on.
proof fn lex_le_from_total(a: Seq<u8>, b: Seq<u8>, i: int)
    requires
        0 <= i,
    ensures
        lex_le_from(a, b, i) || lex_le_from(b, a, i),
    decreases a.len() - i,
{
    if i < a.len() && i < b.len() && a[i] == b[i] {
        lex_le_from_total(a, b, i + 1);
    }
}

/// Two sequences that agree before `i` and are ordered both ways from `i` on have the
/// same length and agree from `i` on too.
proof fn lex_le_from_antisymmetric(a: Seq<u8>, b: Seq<u8>, i: int)
    requires
        0 <= i <= a.len(),
        i <= b.len(),
        lex_le_from(a, b, i),
        lex_le_from(b, a, i),
    ensures
        a.len() == b.len(),
        forall|j: int| i <= j < a.len() ==> a[j] == b[j],
    decreases a.len() - i,
{
    if i < a.len() && i < b.len() {
        lex_le_from_antisymmetric(a, b, i + 1);
    }
}

/// `a` comes before `b` by a first difference: they agree before some position, and there
/// `a` holds the smaller byte.
pub open spec fn differs_below(a: Seq<u8>, b: Seq<u8>) -> bool {
    exists|n: int|
        0 <= n < a.len() && n < b.len() && a.take(n) == b.take(n) && #[trigger] a[n] < b[n]
}

/// The order from position `i` on, for two sequences that agree before `i`, is the order
/// by prefix and first difference.
proof fn lex_le_from_by_first_difference(a: Seq<u8>, b: Seq<u8>, i: int)
    requires
        0 <= i <= a.len(),
        i <= b.len(),
        a.take(i) == b.take(i),
    ensures
        lex_le_from(a, b, i) <==> a.is_prefix_of(b) || differs_below(a, b),
    decreases a.len() - i,
{
    assert forall|n: int| 0 <= n < i implies a[n] == b[n] by {
        assert(a.take(i)[n] == a[n]);
        assert(b.take(i)[n] == b[n]);
    }
    if i == a.len() {
        assert(a =~= b.subrange(0, a.len() as int));
    } else if i == b.len() {
        assert(!differs_below(a, b));
    } else if a[i] != b[i] {
        assert(!a.is_prefix_of(b)) by {
            if a.is_prefix_of(b) {
                assert(b.subrange(0, a.len() as int)[i] == a[i]);
            }
        }
        if a[i] < b[i] {
            assert(differs_below(a, b));
        } else {
            assert forall|n: int|
                0 <= n < a.len() && n < b.len() && a.take(n) == b.take(n) implies !(#[trigger] a[n]
                < b[n]) by {
                if n > i {
                    assert(a.take(n)[i] == a[i]);
                    assert(b.take(n)[i] == b[i]);
                }
            }
        }
    } else {
        assert(a.take(i + 1) =~= b.take(i + 1));
        lex_le_from_by_first_difference(a, b, i + 1);
    }
}

/// The order is the byte-lexicographic one: `a` is at most `b` exactly if `a` is a prefix
/// of `b`, or `a` holds the smaller byte at the first position at which they differ.
pub proof fn lex_le_by_first_difference(a: Seq<u8>, b: Seq<u8>)
    ensures
        lex_le(a, b) <==> a.is_prefix_of(b) || differs_below(a, b),
{
    assert(a.take(0) =~= b.take(0));
    lex_le_from_by_first_difference(a, b, 0);
}

/// Any two sequences are ordered one way or the other.
pub proof fn lex_le_total(a: Seq<u8>, b: Seq<u8>)
    ensures
        lex_le(a, b) || lex_le(b, a),
{
    lex_le_from_total(a, b, 0);
}

/// Two sequences that are ordered both ways are equal.
pub proof fn lex_le_antisymmetric(a: Seq<u8>, b: Seq<u8>)
    requires
        lex_le(a, b),
        lex_le(b, a),
    ensures
        a == b,
{
    lex_le_from_antisymmetric(a, b, 0);
    assert(a =~= b);
}

/// A canonical form is as long as its window, and is at most the window and at most the
/// window's reverse complement.
pub proof fn canonical_is_least(w: Seq<u8>)
    ensures
        canonical(w).len() == w.len(),
        canonical(w) == w || canonical(w) == revcomp(w),
        lex_le(canonical(w), w),
        lex_le(canonical(w), revcomp(w)),
{
    lex_le_total(w, w);
    lex_le_total(revcomp(w), revcomp(w));
    lex_le_total(w, revcomp(w));
}

/// Canonicalization is idempotent: a canonical form is its own canonical form.
pub proof fn canonical_idempotent(w: Seq<u8>)
    ensures
        canonical(canonical(w)) == canonical(w),
{
    revcomp_involution(w);
    lex_le_total(w, revcomp(w));
}

/// Canonicalization does not depend on the strand: a window and its reverse complement
/// have the same canonical form.
pub proof fn canonical_strand_invariant(w: Seq<u8>)
    ensures
        canonical(revcomp(w)) == canonical(w),
{
    revcomp_involution(w);
    lex_le_total(w, revcomp(w));
    if lex_le(w, revcomp(w)) && lex_le(revcomp(w), w) {
        lex_le_antisymmetric(w, revcomp(w));
    }
}

/// A window that equals its reverse complement is its own canonical form.
pub proof fn canonical_of_palindrome(w: Seq<u8>)
    requires
        w == revcomp(w),
    ensures
        canonical(w) == w,
{
}

} // verus!
