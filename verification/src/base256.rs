//! Big-endian byte serialization of natural numbers, as the big-integer
//! library produces it: most significant byte first, no leading zero byte,
//! and zero itself serializes as the single byte `0`.

use vstd::prelude::*;

verus! {

/// The number denoted by a big-endian byte string.
pub open spec fn bytes_be_val(s: Seq<u8>) -> nat
    decreases s.len(),
{
    if s.len() == 0 {
        0
    } else {
        bytes_be_val(s.drop_last()) * 256 + s.last() as nat
    }
}

/// The canonical big-endian serialization of a number.
pub open spec fn bytes_be_repr(n: nat) -> Seq<u8>
    decreases n,
{
    if n < 256 {
        seq![n as u8]
    } else {
        bytes_be_repr(n / 256).push((n % 256) as u8)
    }
}

/// Deserializing the canonical serialization of a number gives the number
/// back.
pub proof fn lemma_bytes_be_val_of_repr(n: nat)
    ensures
        bytes_be_val(bytes_be_repr(n)) == n,
    decreases n,
{
    if n < 256 {
        let s = bytes_be_repr(n);
        assert(s.drop_last() =~= Seq::<u8>::empty());
        assert(bytes_be_val(Seq::<u8>::empty()) == 0);
        assert(bytes_be_val(s) == bytes_be_val(s.drop_last()) * 256 + s.last());
    } else {
        lemma_bytes_be_val_of_repr(n / 256);
        let prefix = bytes_be_repr(n / 256);
        let s = prefix.push((n % 256) as u8);
        assert(s.drop_last() =~= prefix);
        assert(bytes_be_val(s) == (n / 256) * 256 + n % 256);
        assert((n / 256) * 256 + n % 256 == n) by {
            vstd::arithmetic::div_mod::lemma_fundamental_div_mod(n as int, 256);
        }
    }
}

/// The canonical serialization is injective.
pub proof fn lemma_bytes_be_repr_injective(a: nat, b: nat)
    requires
        bytes_be_repr(a) == bytes_be_repr(b),
    ensures
        a == b,
{
    lemma_bytes_be_val_of_repr(a);
    lemma_bytes_be_val_of_repr(b);
}

} // verus!
