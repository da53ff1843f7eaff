//! An educational cryptographic toolkit: a keyed XOR stream cipher over
//! base-36 messages, and a simplified HMAC-style message authentication
//! scheme, both built on an arbitrary-precision integer library and a
//! cryptographic hash.

pub mod base256;
pub mod base36;
pub mod bignum;
pub mod hashing;
pub mod hmac;
pub mod xor_cipher;
pub mod xor_math;

pub use hmac::HMAC;
