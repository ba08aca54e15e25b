//! Domain-separated hashing: BLAKE2b-512 over big integers and over curve
//! points, under a caller-chosen personalization tag.
//!
//! Each operation feeds the canonical encodings of its inputs, in the order
//! supplied, into one fresh BLAKE2b context configured for a 64-byte output
//! and tagged with the persona (no key, no salt), and reads the digest back:
//! as an unsigned big-endian integer, or as a scalar of the curve's group
//! obtained by reducing that integer modulo the group order.

use vstd::prelude::*;
use crate::bignum::Bignum;
use crate::encoding::be_nat;
use crate::encoding::concat_all;
use crate::encoding::trim_leading_zeros;

verus! {

/// Longest personalization tag BLAKE2b accepts, in bytes.
pub const PERSONA_MAX_LEN: usize = 16;

/// Length in bytes of the canonical compressed encoding of a curve point.
pub const POINT_BYTES_LEN: usize = 33;

/// Length in bytes of the canonical encoding of a scalar of the curve group.
pub const SCALAR_BYTES_LEN: usize = 32;

/// The 64-byte BLAKE2b digest of `data` under the personalization tag
/// `persona`, with no key and no salt: a fixed function of its two arguments.
pub uninterp spec fn blake2b_digest(persona: Seq<u8>, data: Seq<u8>) -> Seq<u8>;

/// Relies on blake2b_simd's `Params::hash`: BLAKE2b with `hash_length(64)`,
/// no key, no salt, and the given personalization returns a 64-byte digest
/// that depends on the personalization and the input bytes alone.
/// `Params::personal` panics on a tag longer than 16 bytes, so those tags
/// are excluded.
#[verifier::external_body]
fn blake2b64(persona: &[u8], data: &[u8]) -> (r: Vec<u8>)
    requires
        persona@.len() <= PERSONA_MAX_LEN,
    ensures
        r@ == blake2b_digest(persona@, data@),
        r@.len() == 64,
{
    let hash = blake2b_simd::Params::new().hash_length(64).personal(persona).hash(data);
    hash.as_bytes().to_vec()
}

/// The canonical encoding of the scalar a digest denotes: the digest read as
/// an unsigned big-endian integer, reduced modulo the order of the secp256k1
/// group, in the scalar's canonical 32-byte form. A fixed function of the
/// digest bytes alone.
pub uninterp spec fn scalar_digest_bytes(digest: Seq<u8>) -> Seq<u8>;

/// Relies on curv's `BigInt::from_bytes` (reads bytes as an unsigned
/// big-endian integer), `Scalar::from_bigint` (reduces that integer modulo
/// the group order; it never panics, since it reduces before it builds the
/// scalar), and `Scalar::to_bytes` (the scalar's canonical 32-byte encoding).
/// The result depends on the digest bytes alone.
#[verifier::external_body]
fn scalar_from_digest(digest: &[u8]) -> (r: Vec<u8>)
    ensures
        r@ == scalar_digest_bytes(digest@),
        r@.len() == SCALAR_BYTES_LEN,
{
    let n = <curv::BigInt as curv::arithmetic::Converter>::from_bytes(digest);
    let s = curv::elliptic::curves::Scalar::<curv::elliptic::curves::Secp256k1>::from_bigint(&n);
    s.to_bytes().to_vec()
}

/// A scalar-field element of the curve group, held as its canonical
/// fixed-length byte encoding. Equal encodings denote equal field elements.
pub struct ScalarBytes {
    pub bytes: Vec<u8>,
}

impl ScalarBytes {
    /// A scalar encoding has the field's fixed length.
    pub open spec fn well_formed(self) -> bool {
        self.bytes@.len() == SCALAR_BYTES_LEN
    }
}

/// The canonical fixed-length byte encoding of a curve point, as produced by
/// the curve library's compressed serialization. The encoding is the only
/// aspect of a point the hashing operations read.
pub struct PointBytes {
    pub bytes: Vec<u8>,
}

impl PointBytes {
    /// A point encoding has the curve's fixed length.
    pub open spec fn well_formed(self) -> bool {
        self.bytes@.len() == POINT_BYTES_LEN
    }

    /// Wraps a canonical point encoding; rejects bytes of any other length.
    pub fn new(bytes: Vec<u8>) -> (r: Option<PointBytes>)
        ensures
            match r {
                Some(p) => p.well_formed() && p.bytes@ == bytes@,
                None => bytes@.len() != POINT_BYTES_LEN,
            },
    {
        if bytes.len() == POINT_BYTES_LEN {
            Some(PointBytes { bytes })
        } else {
            None
        }
    }
}

/// The byte string fed to the hash for a list of big integers: their
/// canonical encodings, concatenated in the order supplied.
pub open spec fn bignum_hash_input(values: Seq<Bignum>) -> Seq<u8> {
    concat_all(values.map_values(|b: Bignum| b.bytes@))
}

/// The bytes of the integer `create_hash` returns: the digest of the inputs'
/// concatenated encodings under `persona`, in canonical big-endian form.
pub open spec fn hash_integers_bytes(values: Seq<Bignum>, persona: Seq<u8>) -> Seq<u8> {
    trim_leading_zeros(blake2b_digest(persona, bignum_hash_input(values)))
}

/// The byte string fed to the hash for a list of curve points: their
/// canonical encodings, concatenated in the order supplied.
pub open spec fn point_hash_input(points: Seq<PointBytes>) -> Seq<u8> {
    concat_all(points.map_values(|p: PointBytes| p.bytes@))
}

/// The bytes of the scalar `create_hash_from_ge` returns: the digest of the
/// points' concatenated encodings under `persona`, reduced into the scalar
/// field, in the scalar's canonical encoding.
pub open spec fn hash_points_bytes(points: Seq<PointBytes>, persona: Seq<u8>) -> Seq<u8> {
    scalar_digest_bytes(blake2b_digest(persona, point_hash_input(points)))
}

/// BLAKE2b-512 domain-separated hashing of big integers and of curve points.
pub struct Blake;

impl Blake {
    /// Hashes the canonical encodings of `big_ints`, in the order supplied,
    /// under the domain-separation tag `persona`, and returns the 64-byte
    /// digest read as an unsigned big-endian integer.
    pub fn create_hash(big_ints: &[Bignum], persona: &[u8]) -> (r: Bignum)
        requires
            persona@.len() <= PERSONA_MAX_LEN,
            forall|i: int| 0 <= i < big_ints@.len() ==> big_ints@[i].well_formed(),
        ensures
            r.well_formed(),
            r.bytes@ == hash_integers_bytes(big_ints@, persona@),
            r.value() == be_nat(blake2b_digest(persona@, bignum_hash_input(big_ints@))),
    {
        let mut data: Vec<u8> = Vec::new();
        let n = big_ints.len();
        let mut i: usize = 0;
        while i < n
            invariant
                n == big_ints@.len(),
                i <= n,
                data@ == concat_all(
                    big_ints@.subrange(0, i as int).map_values(|b: Bignum| b.bytes@),
                ),
            decreases n - i,
        {
            let src = &big_ints[i].bytes;
            let ghost prefix = data@;
            let m = src.len();
            let mut k: usize = 0;
            while k < m
                invariant
                    m == src@.len(),
                    k <= m,
                    data@ == prefix + src@.subrange(0, k as int),
                decreases m - k,
            {
                data.push(src[k]);
                k = k + 1;
                assert(data@ =~= prefix + src@.subrange(0, k as int));
            }
            proof {
                let f = |b: Bignum| b.bytes@;
                let m1 = big_ints@.subrange(0, i + 1).map_values(f);
                let m0 = big_ints@.subrange(0, i as int).map_values(f);
                assert(m1.drop_last() =~= m0);
                assert(src@.subrange(0, m as int) =~= src@);
                assert(data@ =~= concat_all(m1));
            }
            i = i + 1;
        }
        proof {
            assert(big_ints@.subrange(0, n as int) =~= big_ints@);
        }
        let digest = blake2b64(persona, data.as_slice());
        Bignum::from_be_bytes(digest)
    }

    /// Hashes the canonical encodings of `ge_vec`, in the order supplied,
    /// under the domain-separation tag `persona`, and returns the scalar
    /// denoted by the 64-byte digest: the digest read as an unsigned
    /// big-endian integer, reduced modulo the curve's group order. The
    /// reduction is the scalar type's own; this operation hands it the raw
    /// digest integer.
    pub fn create_hash_from_ge(ge_vec: &[PointBytes], persona: &[u8]) -> (r: ScalarBytes)
        requires
            persona@.len() <= PERSONA_MAX_LEN,
            forall|i: int| 0 <= i < ge_vec@.len() ==> ge_vec@[i].well_formed(),
        ensures
            r.well_formed(),
            r.bytes@ == hash_points_bytes(ge_vec@, persona@),
    {
        let mut data: Vec<u8> = Vec::new();
        let n = ge_vec.len();
        let mut i: usize = 0;
        while i < n
            invariant
                n == ge_vec@.len(),
                i <= n,
                data@ == concat_all(
                    ge_vec@.subrange(0, i as int).map_values(|p: PointBytes| p.bytes@),
                ),
            decreases n - i,
        {
            let src = &ge_vec[i].bytes;
            let ghost prefix = data@;
            let m = src.len();
            let mut k: usize = 0;
            while k < m
                invariant
                    m == src@.len(),
                    k <= m,
                    data@ == prefix + src@.subrange(0, k as int),
                decreases m - k,
            {
                data.push(src[k]);
                k = k + 1;
                assert(data@ =~= prefix + src@.subrange(0, k as int));
            }
            proof {
                let f = |p: PointBytes| p.bytes@;
                let m1 = ge_vec@.subrange(0, i + 1).map_values(f);
                let m0 = ge_vec@.subrange(0, i as int).map_values(f);
                assert(m1.drop_last() =~= m0);
                assert(src@.subrange(0, m as int) =~= src@);
                assert(data@ =~= concat_all(m1));
            }
            i = i + 1;
        }
        proof {
            assert(ge_vec@.subrange(0, n as int) =~= ge_vec@);
        }
        let digest = blake2b64(persona, data.as_slice());
        let bytes = scalar_from_digest(digest.as_slice());
        ScalarBytes { bytes }
    }
}

/// Law: `create_hash` is deterministic. Two results obtained for the same
/// values and the same persona are the same integer, bit for bit.
pub proof fn lemma_create_hash_deterministic(
    r1: Bignum,
    r2: Bignum,
    values: Seq<Bignum>,
    persona: Seq<u8>,
)
    requires
        r1.bytes@ == hash_integers_bytes(values, persona),
        r2.bytes@ == hash_integers_bytes(values, persona),
    ensures
        r1.bytes@ == r2.bytes@,
        r1.value() == r2.value(),
{
}

/// Law: `create_hash_from_ge` is deterministic. Two results obtained for the
/// same points and the same persona are the same scalar: their canonical
/// encodings agree byte for byte.
pub proof fn lemma_create_hash_from_ge_deterministic(
    r1: ScalarBytes,
    r2: ScalarBytes,
    points: Seq<PointBytes>,
    persona: Seq<u8>,
)
    requires
        r1.bytes@ == hash_points_bytes(points, persona),
        r2.bytes@ == hash_points_bytes(points, persona),
    ensures
        r1.bytes@ == r2.bytes@,
{
}

/// Law (order sensitivity, up to the hash primitive): swapping two points
/// whose encodings differ changes the byte string fed to the hash. Because
/// point encodings share one fixed length, the concatenation taken in one
/// order never equals the concatenation taken in the other. That a different
/// hash input yields a different digest is the hash primitive's collision
/// resistance, which lies outside this library's model.
pub proof fn lemma_point_hash_input_order_sensitive(p: PointBytes, q: PointBytes)
    requires
        p.well_formed(),
        q.well_formed(),
        p.bytes@ != q.bytes@,
    ensures
        point_hash_input(seq![p, q]) != point_hash_input(seq![q, p]),
{
    let f = |t: PointBytes| t.bytes@;
    assert(seq![p, q].map_values(f) =~= seq![p.bytes@, q.bytes@]);
    assert(seq![q, p].map_values(f) =~= seq![q.bytes@, p.bytes@]);
    crate::encoding::lemma_concat_all_two(p.bytes@, q.bytes@);
    crate::encoding::lemma_concat_all_two(q.bytes@, p.bytes@);
    let a = p.bytes@ + q.bytes@;
    let b = q.bytes@ + p.bytes@;
    if a == b {
        assert forall|j: int| 0 <= j < POINT_BYTES_LEN implies p.bytes@[j] == q.bytes@[j] by {
            assert(a[j] == p.bytes@[j]);
            assert(b[j] == q.bytes@[j]);
        }
        assert(p.bytes@ =~= q.bytes@);
    }
}

} // verus!
