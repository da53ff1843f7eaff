//! A basic and naive message authentication scheme modeled on HMAC, purely
//! for learning purposes. The key is XORed against single-byte padding
//! constants (not against a block-sized key as standard HMAC prescribes —
//! that simplification is deliberate and preserved), and the tag is a
//! two-stage hash: `H((K ^ opad) || H((K ^ ipad) || m))`.

use vstd::prelude::*;

use crate::base256::bytes_be_repr;
use crate::base256::bytes_be_val;
use crate::base256::lemma_bytes_be_repr_injective;
use crate::bignum::big_from_bytes_be;
use crate::bignum::big_to_bytes_be;
use crate::bignum::big_value;
use crate::bignum::big_xor;
use crate::hashing::sha256;
use crate::hashing::sha256_of;
use crate::xor_math::lemma_nat_xor_injective;
use crate::xor_math::nat_xor;
use num_bigint::BigUint;

verus! {

/// The inner padding constant, XORed against the full-width key.
pub open spec fn ipad_val() -> nat {
    0x36
}

/// The outer padding constant, XORed against the full-width key.
pub open spec fn opad_val() -> nat {
    0x5c
}

/// The input of the inner hash stage: the serialized inner key followed by
/// the message.
pub open spec fn inner_input_spec(key: nat, message: Seq<u8>) -> Seq<u8> {
    bytes_be_repr(nat_xor(key, ipad_val())) + message
}

/// The input of the outer hash stage: the serialized outer key followed by
/// the inner digest.
pub open spec fn outer_input_spec(key: nat, message: Seq<u8>) -> Seq<u8> {
    bytes_be_repr(nat_xor(key, opad_val())) + sha256_of(inner_input_spec(key, message))
}

/// The authentication tag for a message under a key: the outer digest.
pub open spec fn auth_tag_spec(key: nat, message: Seq<u8>) -> Seq<u8> {
    sha256_of(outer_input_spec(key, message))
}

/// Contains the secret key for the authentication scheme.
pub struct HMAC {
    secret: BigUint,
}

impl HMAC {
    /// The number the held secret key denotes.
    pub closed spec fn secret_value(&self) -> nat {
        big_value(self.secret)
    }

    /// Creates a new engine around an existing secret.
    pub fn from_existing_secret(secret: BigUint) -> (r: HMAC)
        ensures
            r.secret_value() == big_value(secret),
    {
        HMAC { secret }
    }

    /// Creates a hashed authentication tag for a message using the secret.
    /// Deterministic: the tag is a function of the secret's value and the
    /// message bytes alone.
    pub fn generate_auth(&self, message: &[u8]) -> (r: Vec<u8>)
        ensures
            r@ == auth_tag_spec(self.secret_value(), message@),
            r@.len() == 32,
    {
        let opad: Vec<u8> = vec![0x5c];
        let ipad: Vec<u8> = vec![0x36];
        proof {
            assert(opad@.drop_last() =~= Seq::<u8>::empty());
            assert(bytes_be_val(Seq::<u8>::empty()) == 0);
            assert(ipad@.drop_last() =~= Seq::<u8>::empty());
        }
        let outer_xor = big_xor(&self.secret, &big_from_bytes_be(opad.as_slice()));
        let inner_xor = big_xor(&self.secret, &big_from_bytes_be(ipad.as_slice()));

        let mut inner_concat = big_to_bytes_be(&inner_xor);
        extend_bytes(&mut inner_concat, message);
        let inner_hash = sha256(inner_concat.as_slice());

        let mut preimage = big_to_bytes_be(&outer_xor);
        extend_bytes(&mut preimage, inner_hash.as_slice());
        sha256(preimage.as_slice())
    }

    /// Verifies a message against an authentication tag: recomputes the tag
    /// and compares byte for byte. Returns true iff they are equal.
    pub fn check_auth(&self, message: &[u8], auth_hash: &Vec<u8>) -> (r: bool)
        ensures
            r == (auth_hash@ == auth_tag_spec(self.secret_value(), message@)),
    {
        let expected = self.generate_auth(message);
        bytes_eq(expected.as_slice(), auth_hash.as_slice())
    }
}

/// Appends a byte slice to a vector.
fn extend_bytes(dst: &mut Vec<u8>, src: &[u8])
    ensures
        final(dst)@ == old(dst)@ + src@,
{
    let mut i: usize = 0;
    while i < src.len()
        invariant
            0 <= i <= src@.len(),
            dst@ == old(dst)@ + src@.take(i as int),
        decreases src@.len() - i,
    {
        dst.push(src[i]);
        proof {
            assert(old(dst)@ + src@.take(i as int) + seq![src@[i as int]] =~= old(dst)@
                + src@.take(i as int + 1));
        }
        i = i + 1;
    }
    proof {
        assert(src@.take(src@.len() as int) =~= src@);
    }
}

/// Byte-for-byte equality of two slices.
fn bytes_eq(a: &[u8], b: &[u8]) -> (r: bool)
    ensures
        r == (a@ == b@),
{
    if a.len() != b.len() {
        return false;
    }
    let mut i: usize = 0;
    while i < a.len()
        invariant
            0 <= i <= a@.len(),
            a@.len() == b@.len(),
            forall|j: int| 0 <= j < i ==> a@[j] == b@[j],
        decreases a@.len() - i,
    {
        if a[i] != b[i] {
            return false;
        }
        i = i + 1;
    }
    proof {
        assert(a@ =~= b@);
    }
    true
}

/// Tag generation is deterministic: two engines holding equal secret values
/// produce equal tags over equal messages, on every call.
pub proof fn lemma_auth_deterministic(k1: nat, k2: nat, m1: Seq<u8>, m2: Seq<u8>)
    requires
        k1 == k2,
        m1 == m2,
    ensures
        auth_tag_spec(k1, m1) == auth_tag_spec(k2, m2),
{
}

/// Key separation, up to hash collisions: distinct secret values make both
/// hash stages act on distinct inputs, so a tag generated under one key
/// verifies under another only if the hash itself collides.
pub proof fn lemma_key_separation_inputs(k1: nat, k2: nat, m: Seq<u8>)
    requires
        k1 != k2,
    ensures
        inner_input_spec(k1, m) != inner_input_spec(k2, m),
        sha256_of(inner_input_spec(k1, m)) == sha256_of(inner_input_spec(k2, m))
            ==> outer_input_spec(k1, m) != outer_input_spec(k2, m),
{
    let r1 = bytes_be_repr(nat_xor(k1, ipad_val()));
    let r2 = bytes_be_repr(nat_xor(k2, ipad_val()));
    assert(r1 != r2) by {
        if r1 == r2 {
            lemma_bytes_be_repr_injective(nat_xor(k1, ipad_val()), nat_xor(k2, ipad_val()));
            lemma_nat_xor_injective(k1, k2, ipad_val());
        }
    }
    lemma_concat_right_cancel(r1, r2, m);
    let o1 = bytes_be_repr(nat_xor(k1, opad_val()));
    let o2 = bytes_be_repr(nat_xor(k2, opad_val()));
    assert(o1 != o2) by {
        if o1 == o2 {
            lemma_bytes_be_repr_injective(nat_xor(k1, opad_val()), nat_xor(k2, opad_val()));
            lemma_nat_xor_injective(k1, k2, opad_val());
        }
    }
    if sha256_of(inner_input_spec(k1, m)) == sha256_of(inner_input_spec(k2, m)) {
        lemma_concat_right_cancel(o1, o2, sha256_of(inner_input_spec(k1, m)));
    }
}

/// Integrity, up to hash collisions: under one key, distinct messages make
/// the inner hash stage act on distinct inputs, so a tag verifies a message
/// other than the one it was generated for only if the hash itself collides.
pub proof fn lemma_message_separation_inputs(k: nat, m1: Seq<u8>, m2: Seq<u8>)
    requires
        m1 != m2,
    ensures
        inner_input_spec(k, m1) != inner_input_spec(k, m2),
{
    let prefix = bytes_be_repr(nat_xor(k, ipad_val()));
    if prefix + m1 == prefix + m2 {
        assert((prefix + m1).len() == prefix.len() + m1.len());
        assert((prefix + m2).len() == prefix.len() + m2.len());
        assert(m1 =~= m2) by {
            assert(forall|i: int|
                0 <= i < m1.len() ==> m1[i] == (prefix + m1)[prefix.len() + i]);
            assert(forall|i: int|
                0 <= i < m2.len() ==> m2[i] == (prefix + m2)[prefix.len() + i]);
        }
    }
}

/// Concatenation with a common suffix preserves distinctness.
proof fn lemma_concat_right_cancel(x: Seq<u8>, y: Seq<u8>, suffix: Seq<u8>)
    requires
        x != y,
    ensures
        x + suffix != y + suffix,
{
    if x + suffix == y + suffix {
        assert((x + suffix).len() == x.len() + suffix.len());
        assert((y + suffix).len() == y.len() + suffix.len());
        assert(x.len() == y.len());
        assert(x =~= y) by {
            assert(forall|i: int| 0 <= i < x.len() ==> x[i] == (x + suffix)[i]);
            assert(forall|i: int| 0 <= i < y.len() ==> y[i] == (y + suffix)[i]);
        }
    }
}

} // verus!
