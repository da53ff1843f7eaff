//! A keyed, reversible transform of base-36 messages: the message is read as
//! a large natural number, XORed with a secret key, and re-encoded in
//! canonical base-36. Encryption and decryption are the same operation, since
//! XOR is self-inverse. Re-encoding is lossy with respect to leading zero
//! symbols and letter case: a decrypted message is the canonical form of the
//! original.

use vstd::prelude::*;

use crate::base36::all_digits36;
use crate::base36::base36_bytes;
use crate::base36::base36_val;
use crate::base36::canonical_base36;
use crate::base36::chars_of_bytes;
use crate::base36::is_digit36;
use crate::base36::lemma_base36_bytes_canonical;
use crate::base36::lemma_base36_bytes_of_val;
use crate::base36::lemma_base36_val_of_bytes;
use crate::base36::lemma_chars_of_bytes_utf8;
use crate::base36::valid_base36;
use crate::bignum::big_from_base36;
use crate::bignum::big_from_u32;
use crate::bignum::big_to_base36;
use crate::bignum::big_value;
use crate::bignum::big_xor;
use crate::bignum::random_biguint;
use crate::xor_math::lemma_nat_xor_comm;
use crate::xor_math::lemma_nat_xor_injective;
use crate::xor_math::lemma_nat_xor_self_inverse;
use crate::xor_math::nat_xor;
use num_bigint::BigUint;
use vstd::arithmetic::power2::pow2;
use vstd::utf8::encode_utf8;

verus! {

/// The ways a transform call can fail.
#[derive(Clone, Copy, Debug, PartialEq, Eq, Structural)]
pub enum CipherError {
    /// The input holds a byte outside the 36-symbol alphabet, or is empty
    /// and so denotes no numeral.
    InvalidAlphabet,
}

/// What both `encrypt_message` and `decrypt_message` return on a valid
/// input: the canonical base-36 encoding of the input's value XORed with the
/// key.
pub open spec fn transform_spec(input: Seq<u8>, key: nat) -> Seq<char> {
    chars_of_bytes(base36_bytes(nat_xor(base36_val(input), key)))
}

/// A candidate key `guess` "hits" when decrypting the ciphertext bytes under
/// it succeeds and returns exactly `message`.
pub open spec fn search_hit(cipher_bytes: Seq<u8>, message: Seq<char>, guess: nat) -> bool {
    valid_base36(cipher_bytes) && message == transform_spec(cipher_bytes, guess)
}

/// The keyed XOR transform, fixed to the 36-symbol alphabet and 256-bit
/// secrets.
pub struct XORCipher {
    /// Base 36 radix is used: the message space holds the symbols
    /// `0-9`, `a-z` and `A-Z`.
    radix: u32,
    /// The bit size of a generated secret.
    bit_range: usize,
}

impl XORCipher {
    #[verifier::type_invariant]
    spec fn wf(self) -> bool {
        self.radix == 36 && self.bit_range == 256
    }

    /// Constructor with the default radix of 36 and bit range of 256.
    pub fn new() -> (r: XORCipher) {
        XORCipher { radix: 36, bit_range: 256 }
    }

    /// A fresh random secret of 256 bits.
    pub fn generate_secret(&self) -> (r: BigUint)
        ensures
            big_value(r) < pow2(256),
    {
        proof {
            use_type_invariant(&*self);
        }
        random_biguint(self.bit_range as u64)
    }

    /// Parses a message as a base-36 numeral; rejects any byte outside the
    /// alphabet, and the empty message.
    pub fn bytes_to_biguint(&self, message: &[u8]) -> (r: Result<BigUint, CipherError>)
        ensures
            r is Ok <==> valid_base36(message@),
            r is Ok ==> big_value(r->Ok_0) == base36_val(message@),
            r is Err ==> r->Err_0 == CipherError::InvalidAlphabet,
    {
        proof {
            use_type_invariant(&*self);
        }
        if check_alphabet(message) {
            Ok(big_from_base36(message, self.radix))
        } else {
            Err(CipherError::InvalidAlphabet)
        }
    }

    /// XORs a message value with the secret. Since this is a plain XOR,
    /// encryption and decryption are the same operation.
    pub fn encrypt(&self, message: BigUint, secret: &BigUint) -> (r: BigUint)
        ensures
            big_value(r) == nat_xor(big_value(message), big_value(*secret)),
    {
        big_xor(&message, secret)
    }

    /// Renders a value as its canonical base-36 numeral.
    pub fn big_uint_to_str(&self, message: BigUint) -> (r: String)
        ensures
            r@ == chars_of_bytes(base36_bytes(big_value(message))),
    {
        proof {
            use_type_invariant(&*self);
        }
        big_to_base36(message, self.radix)
    }

    /// Encrypts a message (bytes from the 36-symbol alphabet) under a secret.
    pub fn encrypt_message(&self, message: &[u8], secret: &BigUint) -> (r: Result<
        String,
        CipherError,
    >)
        ensures
            r is Ok <==> valid_base36(message@),
            r is Ok ==> r->Ok_0@ == transform_spec(message@, big_value(*secret)),
            r is Err ==> r->Err_0 == CipherError::InvalidAlphabet,
    {
        match self.bytes_to_biguint(message) {
            Ok(m) => Ok(self.big_uint_to_str(self.encrypt(m, secret))),
            Err(e) => Err(e),
        }
    }

    /// Decrypts a ciphertext under a secret: the identical operation to
    /// `encrypt_message`, under a different name for clarity.
    pub fn decrypt_message(&self, cipher_text: &[u8], secret: &BigUint) -> (r: Result<
        String,
        CipherError,
    >)
        ensures
            r is Ok <==> valid_base36(cipher_text@),
            r is Ok ==> r->Ok_0@ == transform_spec(cipher_text@, big_value(*secret)),
            r is Err ==> r->Err_0 == CipherError::InvalidAlphabet,
    {
        self.encrypt_message(cipher_text, secret)
    }

    /// Tries every small secret in `[start, end)` against a known plaintext;
    /// returns true exactly when some candidate decrypts the ciphertext to
    /// the plaintext. A demonstration of why small keyspaces are weak, not a
    /// tool for real use.
    pub fn exhaustive_search(
        &self,
        message: &String,
        cipher_text: &String,
        start: u32,
        end: u32,
    ) -> (r: bool)
        ensures
            r == exists|g: nat|
                start <= g < end && #[trigger] search_hit(
                    encode_utf8(cipher_text@),
                    message@,
                    g,
                ),
    {
        if start >= end {
            return false;
        }
        let cbytes: &[u8] = cipher_text.as_str().as_bytes();
        let mut i: u32 = start;
        while i < end
            invariant
                start <= i <= end,
                cbytes@ == encode_utf8(cipher_text@),
                forall|g: nat|
                    start <= g < i ==> !(#[trigger] search_hit(
                        encode_utf8(cipher_text@),
                        message@,
                        g,
                    )),
            decreases end - i,
        {
            let secret_guess = big_from_u32(i);
            match self.decrypt_message(cbytes, &secret_guess) {
                Ok(decrypted) => {
                    if *message == decrypted {
                        assert(search_hit(encode_utf8(cipher_text@), message@, i as nat));
                        return true;
                    }
                },
                Err(_) => {},
            }
            i = i + 1;
        }
        false
    }
}

/// True exactly when the bytes form a well-formed base-36 numeral.
fn check_alphabet(message: &[u8]) -> (r: bool)
    ensures
        r == valid_base36(message@),
{
    if message.len() == 0 {
        return false;
    }
    let mut i: usize = 0;
    while i < message.len()
        invariant
            0 <= i <= message@.len(),
            forall|j: int| 0 <= j < i ==> is_digit36(#[trigger] message@[j]),
        decreases message@.len() - i,
    {
        let b = message[i];
        if !((48 <= b && b <= 57) || (97 <= b && b <= 122) || (65 <= b && b <= 90)) {
            assert(!is_digit36(message@[i as int]));
            return false;
        }
        i = i + 1;
    }
    assert(all_digits36(message@));
    true
}

/// Round trip: decrypting an encryption under the same key returns the
/// canonical form of the message — uppercase letters fold to lowercase and
/// leading zero symbols are dropped — and a message already in canonical
/// form comes back unchanged. Since `encrypt_message` and `decrypt_message`
/// share one specification, the law holds with the two calls in either
/// order.
pub proof fn lemma_round_trip(m: Seq<u8>, key: nat)
    requires
        valid_base36(m),
    ensures
        valid_base36(encode_utf8(transform_spec(m, key))),
        transform_spec(encode_utf8(transform_spec(m, key)), key) == chars_of_bytes(
            base36_bytes(base36_val(m)),
        ),
        canonical_base36(m) ==> transform_spec(encode_utf8(transform_spec(m, key)), key)
            == chars_of_bytes(m),
{
    let c_val = nat_xor(base36_val(m), key);
    let cb = base36_bytes(c_val);
    lemma_base36_bytes_canonical(c_val);
    assert(forall|i: int| 0 <= i < cb.len() ==> #[trigger] cb[i] < 128);
    lemma_chars_of_bytes_utf8(cb);
    lemma_base36_val_of_bytes(c_val);
    lemma_nat_xor_self_inverse(base36_val(m), key);
    if canonical_base36(m) {
        lemma_base36_bytes_of_val(m);
    }
}

/// Byte strings with equal character readings are equal.
proof fn lemma_chars_of_bytes_injective(a: Seq<u8>, b: Seq<u8>)
    requires
        chars_of_bytes(a) == chars_of_bytes(b),
    ensures
        a == b,
{
    assert(a.len() == chars_of_bytes(a).len());
    assert(b.len() == chars_of_bytes(b).len());
    assert forall|i: int| 0 <= i < a.len() implies a[i] == b[i] by {
        assert(chars_of_bytes(a)[i] == a[i] as char);
        assert(chars_of_bytes(b)[i] == b[i] as char);
        assert((a[i] as char) as u32 == a[i] as u32);
        assert((b[i] as char) as u32 == b[i] as u32);
    }
    assert(a =~= b);
}

/// Against a plaintext in canonical form, a candidate key hits exactly when
/// it is the true key: XOR is injective and the canonical encoding is a
/// bijection onto canonical numerals.
pub proof fn lemma_search_hit_iff_true_secret(p: Seq<u8>, key: nat, g: nat)
    requires
        canonical_base36(p),
    ensures
        search_hit(base36_bytes(nat_xor(base36_val(p), key)), chars_of_bytes(p), g) <==> g == key,
{
    let v = base36_val(p);
    let c_val = nat_xor(v, key);
    let cb = base36_bytes(c_val);
    lemma_base36_bytes_canonical(c_val);
    lemma_base36_val_of_bytes(c_val);
    lemma_nat_xor_self_inverse(v, key);
    if g == key {
        lemma_base36_bytes_of_val(p);
    }
    if search_hit(cb, chars_of_bytes(p), g) {
        let q = base36_bytes(nat_xor(c_val, g));
        lemma_chars_of_bytes_injective(p, q);
        lemma_base36_val_of_bytes(nat_xor(c_val, g));
        lemma_nat_xor_comm(c_val, g);
        lemma_nat_xor_comm(c_val, key);
        lemma_nat_xor_injective(g, key, c_val);
    }
}

/// The exhaustive search bound: against a ciphertext produced from a
/// canonical plaintext under `key`, the search over `[start, end)` (as
/// `exhaustive_search` reports it) succeeds exactly when the true key lies
/// in that range.
pub proof fn lemma_exhaustive_search_bound(p: Seq<u8>, key: nat, start: u32, end: u32)
    requires
        canonical_base36(p),
    ensures
        (exists|g: nat|
            start <= g < end && #[trigger] search_hit(
                encode_utf8(transform_spec(p, key)),
                chars_of_bytes(p),
                g,
            )) <==> (start <= key < end),
{
    let c_val = nat_xor(base36_val(p), key);
    let cb = base36_bytes(c_val);
    lemma_base36_bytes_canonical(c_val);
    assert(forall|i: int| 0 <= i < cb.len() ==> #[trigger] cb[i] < 128);
    lemma_chars_of_bytes_utf8(cb);
    assert(encode_utf8(transform_spec(p, key)) == cb);
    assert forall|g: nat| #[trigger]
        search_hit(cb, chars_of_bytes(p), g) == (g == key) by {
        lemma_search_hit_iff_true_secret(p, key, g);
    }
    if start <= key < end {
        assert(search_hit(cb, chars_of_bytes(p), key as nat));
    }
}

} // verus!
