//! Domain-separated hashing for an elliptic-curve setting: BLAKE2b-512 over
//! the canonical encodings of big integers or of curve points, under a
//! caller-chosen personalization tag, read back as a big integer or as a
//! scalar-field element.

pub mod bignum;
pub mod encoding;
pub mod hashing;
