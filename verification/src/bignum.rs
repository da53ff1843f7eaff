//! The trusted boundary to the arbitrary-precision integer library. A
//! `BigUint` is opaque to the verifier; `big_value` names the natural number
//! it holds, and each wrapper states, over that name, what the library call
//! computes.

use vstd::prelude::*;

use crate::base256::bytes_be_val;
use crate::base256::bytes_be_repr;
use crate::base36::base36_val;
use crate::base36::base36_bytes;
use crate::base36::chars_of_bytes;
use crate::base36::valid_base36;
use crate::xor_math::nat_xor;
use num_bigint::BigUint;
use num_bigint::RandBigInt;
use num_traits::FromPrimitive;
use vstd::arithmetic::power2::pow2;

verus! {

#[verifier::external_type_specification]
#[verifier::external_body]
pub struct ExBigUint(BigUint);

/// The natural number a `BigUint` holds.
pub uninterp spec fn big_value(b: BigUint) -> nat;

/// Relies on `BigUint::parse_bytes` with radix 36: a nonempty string of
/// digits and letters (either case) is read as a base-36 numeral, most
/// significant symbol first.
#[verifier::external_body]
pub(crate) fn big_from_base36(message: &[u8], radix: u32) -> (r: BigUint)
    requires
        radix == 36,
        valid_base36(message@),
    ensures
        big_value(r) == base36_val(message@),
{
    BigUint::parse_bytes(message, radix).unwrap()
}

/// Relies on `BigUint::to_str_radix` with radix 36: the canonical base-36
/// numeral of the value, lowercase and without leading zeros.
#[verifier::external_body]
pub(crate) fn big_to_base36(n: BigUint, radix: u32) -> (r: String)
    requires
        radix == 36,
    ensures
        r@ == chars_of_bytes(base36_bytes(big_value(n))),
{
    n.to_str_radix(radix)
}

/// Relies on the `BitXor` impl of `BigUint`: bitwise exclusive or of the two
/// values.
#[verifier::external_body]
pub(crate) fn big_xor(a: &BigUint, b: &BigUint) -> (r: BigUint)
    ensures
        big_value(r) == nat_xor(big_value(*a), big_value(*b)),
{
    a ^ b
}

/// Relies on `BigUint::from_bytes_be`: the bytes are read big-endian,
/// base 256.
#[verifier::external_body]
pub(crate) fn big_from_bytes_be(bytes: &[u8]) -> (r: BigUint)
    ensures
        big_value(r) == bytes_be_val(bytes@),
{
    BigUint::from_bytes_be(bytes)
}

/// Relies on `BigUint::to_bytes_be`: the canonical big-endian serialization
/// of the value, without leading zero bytes (`[0]` for zero).
#[verifier::external_body]
pub(crate) fn big_to_bytes_be(n: &BigUint) -> (r: Vec<u8>)
    ensures
        r@ == bytes_be_repr(big_value(*n)),
{
    n.to_bytes_be()
}

/// Relies on `num_traits::FromPrimitive::from_u32` for `BigUint`, which
/// embeds any `u32`.
#[verifier::external_body]
pub(crate) fn big_from_u32(i: u32) -> (r: BigUint)
    ensures
        big_value(r) == i as nat,
{
    FromPrimitive::from_u32(i).unwrap()
}

/// Relies on `rand::thread_rng` and `RandBigInt::gen_biguint`: a random
/// integer of at most `bits` bits; nothing is assumed beyond that bound.
#[verifier::external_body]
pub(crate) fn random_biguint(bits: u64) -> (r: BigUint)
    ensures
        big_value(r) < pow2(bits as nat),
{
    rand::thread_rng().gen_biguint(bits)
}

} // verus!
