//! Byte-level models shared by the hashing operations: the big-endian value
//! of a byte string, and the in-order concatenation of a list of encodings.

use vstd::prelude::*;

verus! {

/// The unsigned big-endian integer value of a byte string.
/// The empty string denotes zero.
pub open spec fn be_nat(s: Seq<u8>) -> nat
    decreases s.len(),
{
    if s.len() == 0 {
        0
    } else {
        be_nat(s.drop_last()) * 256 + (s.last() as nat)
    }
}

/// Concatenation of a list of byte strings, keeping the list's order.
pub open spec fn concat_all(parts: Seq<Seq<u8>>) -> Seq<u8>
    decreases parts.len(),
{
    if parts.len() == 0 {
        Seq::empty()
    } else {
        concat_all(parts.drop_last()) + parts.last()
    }
}

/// Concatenating a two-element list joins the two byte strings in order.
pub proof fn lemma_concat_all_two(x: Seq<u8>, y: Seq<u8>)
    ensures
        concat_all(seq![x, y]) == x + y,
{
    let m = seq![x, y];
    let m1 = seq![x];
    assert(m1.last() == x);
    assert(m1.drop_last() =~= Seq::<Seq<u8>>::empty());
    assert(concat_all(m1.drop_last()) == Seq::<u8>::empty());
    assert(concat_all(m1) =~= x);
    assert(m.last() == y);
    assert(m.drop_last() =~= m1);
    assert(concat_all(m) =~= x + y);
}

/// A byte string with its leading zero bytes removed: the canonical
/// big-endian encoding of its value.
pub open spec fn trim_leading_zeros(s: Seq<u8>) -> Seq<u8>
    decreases s.len(),
{
    if s.len() == 0 || s[0] != 0 {
        s
    } else {
        trim_leading_zeros(s.subrange(1, s.len() as int))
    }
}

/// Dropping one leading zero byte does not change the big-endian value.
pub proof fn lemma_be_nat_drop_leading_zero(s: Seq<u8>)
    requires
        s.len() > 0,
        s[0] == 0,
    ensures
        be_nat(s) == be_nat(s.subrange(1, s.len() as int)),
    decreases s.len(),
{
    if s.len() == 1 {
        assert(s.drop_last().len() == 0);
        assert(s.subrange(1, 1).len() == 0);
        assert(s.last() == s[0]);
        assert(be_nat(s) == be_nat(s.drop_last()) * 256 + (s.last() as nat));
        assert(be_nat(s) == 0);
    } else {
        let t = s.drop_last();
        assert(t.len() > 0 && t[0] == 0);
        lemma_be_nat_drop_leading_zero(t);
        let s1 = s.subrange(1, s.len() as int);
        assert(s1.drop_last() =~= t.subrange(1, t.len() as int));
        assert(s1.last() == s.last());
        assert(be_nat(s1) == be_nat(s1.drop_last()) * 256 + (s1.last() as nat));
        assert(be_nat(s) == be_nat(t) * 256 + (s.last() as nat));
    }
}

/// Trimming leading zeros does not change the big-endian value.
pub proof fn lemma_be_nat_trim(s: Seq<u8>)
    ensures
        be_nat(trim_leading_zeros(s)) == be_nat(s),
    decreases s.len(),
{
    if s.len() == 0 || s[0] != 0 {
    } else {
        lemma_be_nat_drop_leading_zero(s);
        lemma_be_nat_trim(s.subrange(1, s.len() as int));
    }
}

/// A trimmed byte string is canonical: empty, or with a nonzero first byte.
pub proof fn lemma_trim_canonical(s: Seq<u8>)
    ensures
        trim_leading_zeros(s).len() == 0 || trim_leading_zeros(s)[0] != 0,
    decreases s.len(),
{
    if s.len() == 0 || s[0] != 0 {
    } else {
        lemma_trim_canonical(s.subrange(1, s.len() as int));
    }
}

/// Trimming removes exactly the leading zero bytes: if the first `i` bytes of
/// `s` are zero and the byte after them (if any) is not, the trimmed string is
/// the suffix of `s` that starts at `i`.
pub proof fn lemma_trim_is_suffix(s: Seq<u8>, i: int)
    requires
        0 <= i <= s.len(),
        forall|j: int| 0 <= j < i ==> s[j] == 0,
        i == s.len() || s[i] != 0,
    ensures
        trim_leading_zeros(s) == s.subrange(i, s.len() as int),
    decreases i,
{
    if i == 0 {
        assert(s.subrange(0, s.len() as int) =~= s);
    } else {
        let s1 = s.subrange(1, s.len() as int);
        lemma_trim_is_suffix(s1, i - 1);
        assert(s1.subrange(i - 1, s1.len() as int) =~= s.subrange(i, s.len() as int));
    }
}

/// A canonical nonempty byte string has a value greater than zero.
pub proof fn lemma_be_nat_positive(s: Seq<u8>)
    requires
        s.len() > 0,
        s[0] != 0,
    ensures
        be_nat(s) > 0,
    decreases s.len(),
{
    if s.len() == 1 {
    } else {
        let t = s.drop_last();
        lemma_be_nat_positive(t);
    }
}

} // verus!
