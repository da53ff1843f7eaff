//! Bitwise exclusive or over unbounded natural numbers, defined bit by bit,
//! together with the algebraic facts the cipher rests on: XOR is commutative,
//! self-inverse, and injective in each argument.

use vstd::prelude::*;

verus! {

/// Bitwise exclusive or of two natural numbers.
pub open spec fn nat_xor(a: nat, b: nat) -> nat
    decreases a + b,
{
    if a == 0 && b == 0 {
        0
    } else {
        2 * nat_xor(a / 2, b / 2) + if a % 2 == b % 2 {
            0nat
        } else {
            1nat
        }
    }
}

/// XOR is commutative.
pub proof fn lemma_nat_xor_comm(a: nat, b: nat)
    ensures
        nat_xor(a, b) == nat_xor(b, a),
    decreases a + b,
{
    if !(a == 0 && b == 0) {
        lemma_nat_xor_comm(a / 2, b / 2);
    }
}

/// XOR is self-inverse: applying the same key twice restores the input.
pub proof fn lemma_nat_xor_self_inverse(a: nat, b: nat)
    ensures
        nat_xor(nat_xor(a, b), b) == a,
    decreases a + b,
{
    if a == 0 && b == 0 {
    } else {
        let h = nat_xor(a / 2, b / 2);
        let bit: nat = if a % 2 == b % 2 {
            0
        } else {
            1
        };
        assert(nat_xor(a, b) == 2 * h + bit);
        assert((2 * h + bit) / 2 == h && (2 * h + bit) % 2 == bit) by {
            vstd::arithmetic::div_mod::lemma_fundamental_div_mod_converse(
                (2 * h + bit) as int,
                2,
                h as int,
                bit as int,
            );
        }
        lemma_nat_xor_self_inverse(a / 2, b / 2);
        if 2 * h + bit == 0 && b == 0 {
            assert(a % 2 == 0);
            assert(a == 2 * (a / 2) + a % 2);
        } else {
            assert(nat_xor(2 * h + bit, b) == 2 * nat_xor(h, b / 2) + if bit == b % 2 {
                0nat
            } else {
                1nat
            });
            assert(a == 2 * (a / 2) + a % 2);
        }
    }
}

/// XOR with a fixed key is injective.
pub proof fn lemma_nat_xor_injective(a: nat, b: nat, k: nat)
    requires
        nat_xor(a, k) == nat_xor(b, k),
    ensures
        a == b,
{
    lemma_nat_xor_self_inverse(a, k);
    lemma_nat_xor_self_inverse(b, k);
}

} // verus!
