//! Arbitrary-precision non-negative integers, held as their canonical
//! big-endian byte encoding. This is the form in which the hashing
//! operations consume and produce big integers: the encoding itself is the
//! hash input, and the digest bytes are read back as an integer.

use vstd::prelude::*;
use crate::encoding::be_nat;
use crate::encoding::trim_leading_zeros;
use crate::encoding::lemma_be_nat_trim;
use crate::encoding::lemma_trim_canonical;
use crate::encoding::lemma_trim_is_suffix;
use crate::encoding::lemma_be_nat_positive;

verus! {

/// An arbitrary-precision non-negative integer in canonical big-endian form:
/// no leading zero byte, and the empty encoding denotes zero.
pub struct Bignum {
    pub bytes: Vec<u8>,
}

impl Bignum {
    /// Canonical form: the encoding is empty or starts with a nonzero byte.
    pub open spec fn well_formed(self) -> bool {
        self.bytes@.len() == 0 || self.bytes@[0] != 0
    }

    /// The integer value the encoding denotes.
    pub open spec fn value(self) -> nat {
        be_nat(self.bytes@)
    }

    /// Builds the canonical big integer whose value is the unsigned
    /// big-endian reading of `bytes`: leading zero bytes are stripped.
    pub fn from_be_bytes(bytes: Vec<u8>) -> (r: Bignum)
        ensures
            r.well_formed(),
            r.bytes@ == trim_leading_zeros(bytes@),
            r.value() == be_nat(bytes@),
    {
        let n = bytes.len();
        let mut i: usize = 0;
        while i < n && bytes[i] == 0
            invariant
                n == bytes@.len(),
                i <= n,
                forall|j: int| 0 <= j < i ==> bytes@[j] == 0,
            decreases n - i,
        {
            i = i + 1;
        }
        let mut out: Vec<u8> = Vec::new();
        let mut k: usize = i;
        while k < n
            invariant
                n == bytes@.len(),
                i <= k <= n,
                out@ == bytes@.subrange(i as int, k as int),
            decreases n - k,
        {
            let b = bytes[k];
            out.push(b);
            k = k + 1;
            assert(out@ =~= bytes@.subrange(i as int, k as int));
        }
        proof {
            lemma_trim_is_suffix(bytes@, i as int);
            lemma_trim_canonical(bytes@);
            lemma_be_nat_trim(bytes@);
        }
        Bignum { bytes: out }
    }

    /// True exactly when the integer is zero.
    pub fn is_zero(&self) -> (r: bool)
        requires
            self.well_formed(),
        ensures
            r == (self.value() == 0),
    {
        proof {
            if self.bytes@.len() > 0 {
                lemma_be_nat_positive(self.bytes@);
            }
        }
        self.bytes.len() == 0
    }
}

} // verus!
