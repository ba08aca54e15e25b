//! Tests for the domain-separated hashing operations, driven through the
//! actual curve and big-integer library.

use curv::arithmetic::Converter;
use curv::arithmetic::One;
use curv::arithmetic::Zero;
use curv::elliptic::curves::Point;
use curv::elliptic::curves::Secp256k1;
use curv::BigInt;
use domain_hasher::bignum::Bignum;
use domain_hasher::hashing::Blake;
use domain_hasher::hashing::PointBytes;

fn bignum_of(n: &BigInt) -> Bignum {
    Bignum::from_be_bytes(n.to_bytes())
}

fn point_bytes_of(p: &Point<Secp256k1>) -> PointBytes {
    match PointBytes::new(p.to_bytes(true).to_vec()) {
        Some(pb) => pb,
        None => panic!("a compressed secp256k1 point encodes to 33 bytes"),
    }
}

#[test]
fn create_hash_test() {
    let result = Blake::create_hash(
        &[bignum_of(&BigInt::one()), bignum_of(&BigInt::zero())],
        b"Zcash_RedJubjubH",
    );
    assert!(BigInt::from_bytes(&result.bytes) > BigInt::zero());
}

#[test]
fn create_hash_from_ge_test() {
    let point = Point::<Secp256k1>::base_point2().clone();
    let generator = Point::<Secp256k1>::generator().to_point();
    let result1 = Blake::create_hash_from_ge(
        &[point_bytes_of(&point), point_bytes_of(&generator)],
        b"Zcash_RedJubjubH",
    );
    assert!(BigInt::from_bytes(&result1.bytes).to_str_radix(2).len() > 240);
    let result2 = Blake::create_hash_from_ge(
        &[point_bytes_of(&generator), point_bytes_of(&point)],
        b"Zcash_RedJubjubH",
    );
    assert_ne!(result1.bytes, result2.bytes);
    let result3 = Blake::create_hash_from_ge(
        &[point_bytes_of(&generator), point_bytes_of(&point)],
        b"Zcash_RedJubjubH",
    );
    assert_eq!(result2.bytes, result3.bytes);
}

#[test]
fn hash_integers_repeated_calls_agree() {
    let r1 = Blake::create_hash(
        &[bignum_of(&BigInt::from(41)), bignum_of(&BigInt::from(59))],
        b"some-tag",
    );
    let r2 = Blake::create_hash(
        &[bignum_of(&BigInt::from(41)), bignum_of(&BigInt::from(59))],
        b"some-tag",
    );
    assert_eq!(r1.bytes, r2.bytes);
}

#[test]
fn hash_integers_order_sensitive() {
    let r1 = Blake::create_hash(
        &[bignum_of(&BigInt::from(1)), bignum_of(&BigInt::from(2))],
        b"some-tag",
    );
    let r2 = Blake::create_hash(
        &[bignum_of(&BigInt::from(2)), bignum_of(&BigInt::from(1))],
        b"some-tag",
    );
    assert_ne!(r1.bytes, r2.bytes);
}

#[test]
fn hash_integers_domain_separation() {
    let r1 = Blake::create_hash(&[bignum_of(&BigInt::from(7))], b"tag-one");
    let r2 = Blake::create_hash(&[bignum_of(&BigInt::from(7))], b"tag-two");
    assert_ne!(r1.bytes, r2.bytes);
}

#[test]
fn hash_points_domain_separation() {
    let generator = Point::<Secp256k1>::generator().to_point();
    let r1 = Blake::create_hash_from_ge(&[point_bytes_of(&generator)], b"tag-one");
    let r2 = Blake::create_hash_from_ge(&[point_bytes_of(&generator)], b"tag-two");
    assert_ne!(r1.bytes, r2.bytes);
}

#[test]
fn hash_of_empty_list_is_full_digest() {
    let result = Blake::create_hash(&[], b"some-tag");
    assert!(!result.is_zero());
    assert!(result.bytes.len() > 30);
    assert!(result.bytes.len() <= 64);
}

#[test]
fn scalar_output_has_field_length() {
    let generator = Point::<Secp256k1>::generator().to_point();
    let result = Blake::create_hash_from_ge(&[point_bytes_of(&generator)], b"some-tag");
    assert_eq!(result.bytes.len(), 32);
}

#[test]
fn point_bytes_rejects_wrong_length() {
    assert!(PointBytes::new(vec![7u8; 10]).is_none());
    assert!(PointBytes::new(vec![7u8; 33]).is_some());
}

#[test]
fn bignum_strips_leading_zeros() {
    let b = Bignum::from_be_bytes(vec![0u8, 0u8, 5u8]);
    assert_eq!(b.bytes, vec![5u8]);
    assert!(!b.is_zero());
    let z = Bignum::from_be_bytes(Vec::new());
    assert!(z.is_zero());
    assert_eq!(BigInt::from_bytes(&b.bytes), BigInt::from(5));
}
