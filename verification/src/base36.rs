//! The base-36 message alphabet. A message is a byte string over the symbols
//! `0-9`, `a-z` and `A-Z` (letters are read case-insensitively) and denotes a
//! natural number in positional base-36 notation, most significant symbol
//! first. The canonical encoding of a number uses lowercase letters and no
//! leading zero symbol.

use vstd::prelude::*;

verus! {

/// A byte that belongs to the base-36 alphabet.
pub open spec fn is_digit36(b: u8) -> bool {
    (48 <= b <= 57) || (97 <= b <= 122) || (65 <= b <= 90)
}

/// The numeric value of an alphabet byte: `0-9` then `a-z`/`A-Z` as 10 to 35.
pub open spec fn digit36_val(b: u8) -> nat
    recommends
        is_digit36(b),
{
    if 48 <= b <= 57 {
        (b - 48) as nat
    } else if 97 <= b <= 122 {
        (b - 97 + 10) as nat
    } else {
        (b - 65 + 10) as nat
    }
}

/// The canonical (lowercase) alphabet byte for a digit value below 36.
pub open spec fn digit36_byte(d: nat) -> u8
    recommends
        d < 36,
{
    if d < 10 {
        (48 + d) as u8
    } else {
        (97 + d - 10) as u8
    }
}

/// Every byte of the string belongs to the alphabet.
pub open spec fn all_digits36(s: Seq<u8>) -> bool {
    forall|i: int| 0 <= i < s.len() ==> is_digit36(s[i])
}

/// A well-formed base-36 numeral: nonempty and drawn from the alphabet.
pub open spec fn valid_base36(s: Seq<u8>) -> bool {
    s.len() > 0 && all_digits36(s)
}

/// The number denoted by a base-36 numeral, most significant symbol first.
pub open spec fn base36_val(s: Seq<u8>) -> nat
    decreases s.len(),
{
    if s.len() == 0 {
        0
    } else {
        base36_val(s.drop_last()) * 36 + digit36_val(s.last())
    }
}

/// The canonical base-36 encoding of a number: lowercase symbols, no leading
/// zero, and `0` itself encodes as the single symbol `0`.
pub open spec fn base36_bytes(n: nat) -> Seq<u8>
    decreases n,
{
    if n < 36 {
        seq![digit36_byte(n)]
    } else {
        base36_bytes(n / 36).push(digit36_byte(n % 36))
    }
}

/// A byte the canonical encoder can produce: a digit or a lowercase letter.
pub open spec fn is_canon_digit36(b: u8) -> bool {
    (48 <= b <= 57) || (97 <= b <= 122)
}

/// A numeral in canonical form: valid, lowercase, and without a leading zero
/// symbol (except for the one-symbol numeral `0`).
pub open spec fn canonical_base36(s: Seq<u8>) -> bool {
    &&& valid_base36(s)
    &&& forall|i: int| 0 <= i < s.len() ==> is_canon_digit36(#[trigger] s[i])
    &&& s.len() > 1 ==> s[0] != 48
}

/// The ASCII characters of a byte string, one character per byte.
pub open spec fn chars_of_bytes(s: Seq<u8>) -> Seq<char> {
    Seq::new(s.len(), |i: int| s[i] as char)
}

/// The canonical encoder emits a digit value's own symbol back.
proof fn lemma_digit36_round_trip(d: nat)
    requires
        d < 36,
    ensures
        is_canon_digit36(digit36_byte(d)),
        digit36_val(digit36_byte(d)) == d,
        digit36_byte(d) == 48 <==> d == 0,
{
}

/// A canonical symbol is reproduced by encoding its value.
proof fn lemma_digit36_byte_of_val(b: u8)
    requires
        is_canon_digit36(b),
    ensures
        digit36_val(b) < 36,
        digit36_byte(digit36_val(b)) == b,
{
}

/// The canonical encoding of any number is itself a canonical numeral.
pub proof fn lemma_base36_bytes_canonical(n: nat)
    ensures
        canonical_base36(base36_bytes(n)),
        base36_bytes(n)[0] == 48 <==> n == 0,
    decreases n,
{
    if n < 36 {
        lemma_digit36_round_trip(n);
    } else {
        lemma_base36_bytes_canonical(n / 36);
        lemma_digit36_round_trip(n % 36);
        let s = base36_bytes(n / 36).push(digit36_byte(n % 36));
        assert(forall|i: int|
            0 <= i < s.len() - 1 ==> s[i] == #[trigger] base36_bytes(n / 36)[i]);
    }
}

/// Decoding the canonical encoding of a number gives the number back.
pub proof fn lemma_base36_val_of_bytes(n: nat)
    ensures
        base36_val(base36_bytes(n)) == n,
    decreases n,
{
    if n < 36 {
        lemma_digit36_round_trip(n);
        let s = base36_bytes(n);
        assert(s.drop_last() =~= Seq::<u8>::empty());
        assert(base36_val(Seq::<u8>::empty()) == 0);
        assert(base36_val(s) == base36_val(s.drop_last()) * 36 + digit36_val(s.last()));
    } else {
        lemma_base36_val_of_bytes(n / 36);
        lemma_digit36_round_trip(n % 36);
        let prefix = base36_bytes(n / 36);
        let s = prefix.push(digit36_byte(n % 36));
        assert(s.drop_last() =~= prefix);
        assert(base36_val(s) == (n / 36) * 36 + n % 36);
        assert((n / 36) * 36 + n % 36 == n) by {
            vstd::arithmetic::div_mod::lemma_fundamental_div_mod(n as int, 36);
        }
    }
}

/// A valid numeral that does not start with the zero symbol denotes a
/// positive number.
proof fn lemma_base36_val_positive(s: Seq<u8>)
    requires
        valid_base36(s),
        s[0] != 48,
    ensures
        base36_val(s) >= 1,
    decreases s.len(),
{
    if s.len() == 1 {
        assert(s.drop_last() =~= Seq::<u8>::empty());
    } else {
        lemma_base36_val_positive(s.drop_last());
    }
}

/// Encoding the value of a canonical numeral reproduces the numeral: the
/// canonical form is the unique fixed point of decode-then-encode.
pub proof fn lemma_base36_bytes_of_val(s: Seq<u8>)
    requires
        canonical_base36(s),
    ensures
        base36_bytes(base36_val(s)) == s,
    decreases s.len(),
{
    let d = digit36_val(s.last());
    lemma_digit36_byte_of_val(s.last());
    if s.len() == 1 {
        assert(s.drop_last() =~= Seq::<u8>::empty());
        assert(base36_val(Seq::<u8>::empty()) == 0);
        assert(base36_val(s) == base36_val(s.drop_last()) * 36 + d);
        assert(base36_bytes(d) =~= s);
    } else {
        let prefix = s.drop_last();
        assert(canonical_base36(prefix));
        lemma_base36_val_positive(prefix);
        let v = base36_val(s);
        assert(v == base36_val(prefix) * 36 + d);
        assert(v / 36 == base36_val(prefix) && v % 36 == d) by {
            vstd::arithmetic::div_mod::lemma_fundamental_div_mod_converse(
                v as int,
                36,
                base36_val(prefix) as int,
                d as int,
            );
        }
        assert(v >= 36) by {
            assert(base36_val(prefix) * 36 >= 36) by (nonlinear_arith)
                requires
                    base36_val(prefix) >= 1,
            ;
        }
        lemma_base36_bytes_of_val(prefix);
        assert(base36_bytes(v) =~= s);
    }
}

/// Canonical numeral bytes are ASCII, so the numeral's characters encode
/// back to the same bytes under UTF-8.
pub proof fn lemma_chars_of_bytes_utf8(s: Seq<u8>)
    requires
        forall|i: int| 0 <= i < s.len() ==> s[i] < 128,
    ensures
        vstd::utf8::is_ascii_chars(chars_of_bytes(s)),
        vstd::utf8::encode_utf8(chars_of_bytes(s)) == s,
{
    let cs = chars_of_bytes(s);
    assert(forall|i: int| 0 <= i < cs.len() ==> '\0' <= #[trigger] cs[i] <= '\u{7f}');
    vstd::utf8::is_ascii_chars_encode_utf8(cs);
    assert(vstd::utf8::encode_utf8(cs) =~= s);
}

} // verus!
