//! Opaque textual form of 128-bit token identifiers.
//!
//! A token identifier is rendered as exactly 22 characters drawn from the
//! 58-letter alphabet `123456789ABCDEFGHJKLMNPQRSTUVWXYZabcdefghijkmnopqrstuvwxyz`
//! (no `0`, `O`, `I` or `l`, so the text is URL-safe and free of lookalike
//! characters), most significant digit first, with no padding and no embedded
//! metadata. Decoding rejects any text with a character outside the alphabet
//! and any text that does not denote exactly one 128-bit value.

use vstd::prelude::*;
use vstd::arithmetic::power::pow;
use vstd::arithmetic::power::lemma_pow0;
use vstd::arithmetic::power::lemma_pow1;
use vstd::arithmetic::power::lemma_pow_adds;

verus! {

/// Number of characters in the textual form of a token identifier.
pub const TOKEN_TEXT_LEN: usize = 22;

/// Why a piece of text is not the encoding of a token identifier.
#[derive(Clone, Copy, Debug, PartialEq, Eq, Structural)]
pub enum DecodeError {
    /// A character outside the token alphabet occurs in the text.
    InvalidCharacter,
    /// The text does not denote exactly 128 bits: it has the wrong number of
    /// characters, or its value does not fit in 128 bits.
    InvalidLength,
}

/// The digit value of a character of the token alphabet, or `None` for any
/// character outside it.
pub open spec fn char_digit(c: char) -> Option<u8> {
    if '1' <= c && c <= '9' {
        Some((c as u32 - '1' as u32) as u8)
    } else if 'A' <= c && c <= 'H' {
        Some((c as u32 - 'A' as u32 + 9) as u8)
    } else if 'J' <= c && c <= 'N' {
        Some((c as u32 - 'J' as u32 + 17) as u8)
    } else if 'P' <= c && c <= 'Z' {
        Some((c as u32 - 'P' as u32 + 22) as u8)
    } else if 'a' <= c && c <= 'k' {
        Some((c as u32 - 'a' as u32 + 33) as u8)
    } else if 'm' <= c && c <= 'z' {
        Some((c as u32 - 'm' as u32 + 44) as u8)
    } else {
        None
    }
}

/// The alphabet character of a digit value below 58.
pub open spec fn digit_char(d: u8) -> char {
    if d < 9 {
        (('1' as u8) + d) as char
    } else if d < 17 {
        (('A' as u8) + (d - 9)) as char
    } else if d < 22 {
        (('J' as u8) + (d - 17)) as char
    } else if d < 33 {
        (('P' as u8) + (d - 22)) as char
    } else if d < 44 {
        (('a' as u8) + (d - 33)) as char
    } else {
        (('m' as u8) + (d - 44)) as char
    }
}

/// The value of a digit sequence read most significant digit first.
pub open spec fn be_value(ds: Seq<u8>) -> int
    decreases ds.len(),
{
    if ds.len() == 0 {
        0
    } else {
        be_value(ds.drop_last()) * 58 + ds.last()
    }
}

/// Whether every character of `s` belongs to the token alphabet.
pub open spec fn all_token_chars(s: Seq<char>) -> bool {
    forall|i: int| 0 <= i < s.len() ==> char_digit(s[i]) is Some
}

/// The digit values of a text whose characters all belong to the alphabet.
pub open spec fn digit_seq(s: Seq<char>) -> Seq<u8> {
    Seq::new(s.len(), |i: int| char_digit(s[i]).unwrap())
}

/// The value a text denotes, read most significant digit first.
pub open spec fn token_value(s: Seq<char>) -> int {
    be_value(digit_seq(s))
}

/// What `decode` returns: the denoted identifier, or nothing for text of the
/// wrong length, with a foreign character, or denoting a value of more than
/// 128 bits.
pub open spec fn spec_decode(s: Seq<char>) -> Option<u128> {
    if s.len() != TOKEN_TEXT_LEN {
        None
    } else if !all_token_chars(s) {
        None
    } else if token_value(s) > u128::MAX {
        None
    } else {
        Some(token_value(s) as u128)
    }
}

proof fn lemma_be_value_nonneg(ds: Seq<u8>)
    ensures
        be_value(ds) >= 0,
    decreases ds.len(),
{
    if ds.len() > 0 {
        lemma_be_value_nonneg(ds.drop_last());
    }
}

/// Prepending a digit adds its value scaled by the weight of the position.
proof fn lemma_be_value_prepend(d: u8, ds: Seq<u8>)
    ensures
        be_value(seq![d] + ds) == d * pow(58, ds.len() as nat) + be_value(ds),
    decreases ds.len(),
{
    if ds.len() == 0 {
        assert(seq![d] + ds =~= seq![d]);
        assert(seq![d].drop_last() =~= Seq::<u8>::empty());
        assert(be_value(seq![d]) == d) by {
            reveal_with_fuel(be_value, 2);
        }
        lemma_pow0(58);
    } else {
        let n = (ds.len() - 1) as nat;
        let s = seq![d] + ds;
        assert(s.drop_last() =~= seq![d] + ds.drop_last());
        assert(s.last() == ds.last());
        lemma_be_value_prepend(d, ds.drop_last());
        lemma_pow1(58);
        lemma_pow_adds(58, 1, n);
        assert(pow(58, (n + 1) as nat) == 58 * pow(58, n));
        assert((d * pow(58, n) + be_value(ds.drop_last())) * 58 + ds.last() == d * (58 * pow(
            58,
            n,
        )) + (be_value(ds.drop_last()) * 58 + ds.last())) by (nonlinear_arith);
        assert(be_value(s) == d * pow(58, ds.len() as nat) + be_value(ds));
    }
}

/// A longer prefix of a digit sequence never denotes a smaller value.
proof fn lemma_be_value_take_monotone(ds: Seq<u8>, i: int, j: int)
    requires
        0 <= i <= j <= ds.len(),
    ensures
        be_value(ds.take(j)) >= be_value(ds.take(i)),
    decreases j - i,
{
    if i < j {
        lemma_be_value_take_monotone(ds, i, j - 1);
        assert(ds.take(j).drop_last() =~= ds.take(j - 1));
        lemma_be_value_nonneg(ds.take(j - 1));
    }
}

fn char_to_digit(c: char) -> (r: Option<u8>)
    ensures
        r == char_digit(c),
{
    if '1' <= c && c <= '9' {
        Some((c as u32 - '1' as u32) as u8)
    } else if 'A' <= c && c <= 'H' {
        Some((c as u32 - 'A' as u32 + 9) as u8)
    } else if 'J' <= c && c <= 'N' {
        Some((c as u32 - 'J' as u32 + 17) as u8)
    } else if 'P' <= c && c <= 'Z' {
        Some((c as u32 - 'P' as u32 + 22) as u8)
    } else if 'a' <= c && c <= 'k' {
        Some((c as u32 - 'a' as u32 + 33) as u8)
    } else if 'm' <= c && c <= 'z' {
        Some((c as u32 - 'm' as u32 + 44) as u8)
    } else {
        None
    }
}

fn digit_to_byte(d: u8) -> (b: u8)
    requires
        d < 58,
    ensures
        b as char == digit_char(d),
        b < 128,
{
    if d < 9 {
        ('1' as u8) + d
    } else if d < 17 {
        ('A' as u8) + (d - 9)
    } else if d < 22 {
        ('J' as u8) + (d - 17)
    } else if d < 33 {
        ('P' as u8) + (d - 22)
    } else if d < 44 {
        ('a' as u8) + (d - 33)
    } else {
        ('m' as u8) + (d - 44)
    }
}

/// The two digit maps invert each other on digit values below 58.
proof fn lemma_digit_char_roundtrip(d: u8)
    requires
        d < 58,
    ensures
        char_digit(digit_char(d)) == Some(d),
{
}

/// Relies on `String::from_utf8` of std: bytes below 128 are valid UTF-8 and
/// become the string of exactly those characters.
#[verifier::external_body]
fn ascii_to_string(bytes: Vec<u8>) -> (r: String)
    requires
        forall|i: int| 0 <= i < bytes@.len() ==> bytes@[i] < 128,
    ensures
        r@.len() == bytes@.len(),
        forall|i: int| 0 <= i < bytes@.len() ==> r@[i] == bytes@[i] as char,
{
    match String::from_utf8(bytes) {
        Ok(s) => s,
        Err(_) => String::new(),
    }
}

/// Renders a 128-bit token identifier as its opaque textual form: 22
/// characters of the token alphabet, most significant digit first, denoting
/// exactly `id`.
pub fn encode(id: u128) -> (r: String)
    ensures
        r@.len() == TOKEN_TEXT_LEN,
        all_token_chars(r@),
        token_value(r@) == id,
{
    let mut acc: u128 = id;
    let mut bytes: Vec<u8> = Vec::new();
    let ghost mut digits: Seq<u8> = Seq::empty();
    let mut k: usize = 0;
    proof {
        lemma_pow0(58);
    }
    while k < TOKEN_TEXT_LEN
        invariant
            0 <= k <= TOKEN_TEXT_LEN,
            bytes@.len() == k,
            digits.len() == k,
            forall|i: int| 0 <= i < k ==> digits[i] < 58,
            forall|i: int|
                0 <= i < k ==> (#[trigger] bytes@[i]) < 128 && bytes@[i] as char == digit_char(
                    digits[i],
                ),
            id as int == acc as int * pow(58, k as nat) + be_value(digits),
        decreases TOKEN_TEXT_LEN - k,
    {
        let d: u8 = (acc % 58) as u8;
        let next: u128 = acc / 58;
        let b = digit_to_byte(d);
        let ghost bytes_before = bytes@;
        bytes.insert(0, b);
        proof {
            assert(bytes@ =~= seq![b] + bytes_before);
            lemma_be_value_prepend(d, digits);
            lemma_pow1(58);
            lemma_pow_adds(58, 1, k as nat);
            assert(pow(58, (k + 1) as nat) == 58 * pow(58, k as nat));
            assert(acc == next * 58 + d) by (nonlinear_arith)
                requires
                    next == acc / 58 && d == acc % 58,
            ;
            assert((next as int * 58 + d) * pow(58, k as nat) == next as int * (58 * pow(
                58,
                k as nat,
            )) + d * pow(58, k as nat)) by (nonlinear_arith);
            let digits_before = digits;
            digits = seq![d] + digits;
            assert forall|i2: int|
                0 <= i2 < k + 1 implies (#[trigger] bytes@[i2]) < 128 && bytes@[i2] as char
                == digit_char(digits[i2]) by {
                if i2 == 0 {
                    assert(bytes@[0] == b);
                    assert(digits[0] == d);
                } else {
                    assert(bytes@[i2] == bytes_before[i2 - 1]);
                    assert(digits[i2] == digits_before[i2 - 1]);
                }
            }
        }
        acc = next;
        k += 1;
    }
    proof {
        lemma_be_value_nonneg(digits);
        assert(pow(58, 22) > u128::MAX) by {
            reveal_with_fuel(pow, 23);
        }
        if acc >= 1 {
            assert(acc as int * pow(58, 22) >= pow(58, 22)) by (nonlinear_arith)
                requires
                    acc >= 1 && pow(58, 22) > 0,
            ;
        }
        assert(acc == 0);
    }
    let r = ascii_to_string(bytes);
    proof {
        assert forall|i: int| 0 <= i < TOKEN_TEXT_LEN implies char_digit(r@[i]) == Some(
            digits[i],
        ) by {
            lemma_digit_char_roundtrip(digits[i]);
            assert(r@[i] == bytes@[i] as char);
        }
        assert(digit_seq(r@) =~= digits);
    }
    r
}

/// Reads the opaque textual form back into the 128-bit token identifier it
/// denotes. Fails with `InvalidCharacter` on any character outside the token
/// alphabet, and with `InvalidLength` when the text does not denote exactly
/// one 128-bit value: the character count is not 22, or the denoted value
/// does not fit in 128 bits.
pub fn decode(s: &str) -> (r: Result<u128, DecodeError>)
    ensures
        ({
            let d = spec_decode(s@);
            match r {
                Ok(x) => d == Some(x),
                Err(e) => d is None && ((e == DecodeError::InvalidCharacter) <==> (s@.len()
                    == TOKEN_TEXT_LEN && !all_token_chars(s@))),
            }
        }),
{
    let n = s.unicode_len();
    if n != TOKEN_TEXT_LEN {
        return Err(DecodeError::InvalidLength);
    }
    let mut ds: Vec<u8> = Vec::new();
    let mut i: usize = 0;
    while i < TOKEN_TEXT_LEN
        invariant
            0 <= i <= TOKEN_TEXT_LEN,
            s@.len() == TOKEN_TEXT_LEN,
            ds@.len() == i,
            forall|k: int| 0 <= k < i ==> char_digit(s@[k]) == Some(ds@[k]),
        decreases TOKEN_TEXT_LEN - i,
    {
        let c = s.get_char(i);
        match char_to_digit(c) {
            None => {
                return Err(DecodeError::InvalidCharacter);
            },
            Some(d) => {
                ds.push(d);
            },
        }
        i += 1;
    }
    proof {
        assert(digit_seq(s@) =~= ds@);
    }
    let mut acc: u128 = 0;
    let mut i: usize = 0;
    while i < TOKEN_TEXT_LEN
        invariant
            0 <= i <= TOKEN_TEXT_LEN,
            s@.len() == TOKEN_TEXT_LEN,
            ds@.len() == TOKEN_TEXT_LEN,
            forall|k: int| 0 <= k < TOKEN_TEXT_LEN ==> char_digit(s@[k]) == Some(ds@[k]),
            acc as int == be_value(ds@.take(i as int)),
        decreases TOKEN_TEXT_LEN - i,
    {
        let d = ds[i];
        proof {
            assert(digit_seq(s@) =~= ds@);
            assert(ds@.take(i + 1).drop_last() =~= ds@.take(i as int));
            assert(ds@.take(i + 1).last() == ds@[i as int]);
            assert(be_value(ds@.take(i + 1)) == acc as int * 58 + d);
        }
        let shifted = match acc.checked_mul(58) {
            Some(v) => v,
            None => {
                proof {
                    assert(digit_seq(s@) =~= ds@);
                    lemma_be_value_take_monotone(ds@, i + 1, TOKEN_TEXT_LEN as int);
                    assert(ds@.take(TOKEN_TEXT_LEN as int) =~= ds@);
                    assert(token_value(s@) > u128::MAX);
                }
                return Err(DecodeError::InvalidLength);
            },
        };
        let next = match shifted.checked_add(d as u128) {
            Some(v) => v,
            None => {
                proof {
                    assert(digit_seq(s@) =~= ds@);
                    lemma_be_value_take_monotone(ds@, i + 1, TOKEN_TEXT_LEN as int);
                    assert(ds@.take(TOKEN_TEXT_LEN as int) =~= ds@);
                    assert(token_value(s@) > u128::MAX);
                }
                return Err(DecodeError::InvalidLength);
            },
        };
        acc = next;
        i += 1;
    }
    proof {
        assert(digit_seq(s@) =~= ds@);
        assert(ds@.take(TOKEN_TEXT_LEN as int) =~= ds@);
    }
    Ok(acc)
}

/// Decoding is a left inverse of encoding: any 22-character text over the
/// token alphabet that denotes the 128-bit value `x` decodes to exactly `x`.
/// Together with the postconditions of `encode` this yields, for every
/// 128-bit `x`, that `decode` applied to `encode(x)` returns `Ok(x)`.
pub proof fn lemma_decode_of_encoding(s: Seq<char>, x: u128)
    requires
        s.len() == TOKEN_TEXT_LEN,
        all_token_chars(s),
        token_value(s) == x,
    ensures
        spec_decode(s) == Some(x),
{
}

/// Decoding rejects every malformed text: one with a character outside the
/// token alphabet, and one that does not denote exactly 128 bits, whether by
/// character count or by value.
pub proof fn lemma_decode_rejects_malformed(s: Seq<char>)
    requires
        s.len() != TOKEN_TEXT_LEN || !all_token_chars(s) || token_value(s) > u128::MAX,
    ensures
        spec_decode(s) is None,
{
}

/// A character of the token alphabet is determined by its digit value.
proof fn lemma_digit_char_inverse(c: char, d: u8)
    requires
        char_digit(c) == Some(d),
    ensures
        digit_char(d) == c,
{
}

/// Equal values have equal digits: two digit sequences of the same length,
/// all digits below 58, denoting the same value, are the same sequence.
proof fn lemma_be_value_injective(ds1: Seq<u8>, ds2: Seq<u8>)
    requires
        ds1.len() == ds2.len(),
        forall|i: int| 0 <= i < ds1.len() ==> ds1[i] < 58,
        forall|i: int| 0 <= i < ds2.len() ==> ds2[i] < 58,
        be_value(ds1) == be_value(ds2),
    ensures
        ds1 == ds2,
    decreases ds1.len(),
{
    if ds1.len() == 0 {
        assert(ds1 =~= ds2);
    } else {
        let v = be_value(ds1);
        lemma_be_value_nonneg(ds1.drop_last());
        lemma_be_value_nonneg(ds2.drop_last());
        vstd::arithmetic::div_mod::lemma_fundamental_div_mod_converse(
            v,
            58,
            be_value(ds1.drop_last()),
            ds1.last() as int,
        );
        vstd::arithmetic::div_mod::lemma_fundamental_div_mod_converse(
            v,
            58,
            be_value(ds2.drop_last()),
            ds2.last() as int,
        );
        assert(ds1.last() == ds2.last());
        assert(be_value(ds1.drop_last()) == be_value(ds2.drop_last()));
        assert(forall|i: int| 0 <= i < ds1.drop_last().len() ==> ds1.drop_last()[i] < 58);
        assert(forall|i: int| 0 <= i < ds2.drop_last().len() ==> ds2.drop_last()[i] < 58);
        lemma_be_value_injective(ds1.drop_last(), ds2.drop_last());
        assert(ds1 =~= ds1.drop_last().push(ds1.last()));
        assert(ds2 =~= ds2.drop_last().push(ds2.last()));
    }
}

/// A 128-bit value has exactly one rendering: two 22-character texts over
/// the token alphabet denoting the same value are the same text. Together
/// with its postconditions this pins the result of `encode` completely.
pub proof fn lemma_encoding_unique(s1: Seq<char>, s2: Seq<char>)
    requires
        s1.len() == TOKEN_TEXT_LEN,
        all_token_chars(s1),
        s2.len() == TOKEN_TEXT_LEN,
        all_token_chars(s2),
        token_value(s1) == token_value(s2),
    ensures
        s1 == s2,
{
    let ds1 = digit_seq(s1);
    let ds2 = digit_seq(s2);
    assert forall|i: int| 0 <= i < ds1.len() implies ds1[i] < 58 by {
        assert(char_digit(s1[i]) is Some);
    }
    assert forall|i: int| 0 <= i < ds2.len() implies ds2[i] < 58 by {
        assert(char_digit(s2[i]) is Some);
    }
    lemma_be_value_injective(ds1, ds2);
    assert forall|i: int| 0 <= i < s1.len() implies s1[i] == s2[i] by {
        assert(char_digit(s1[i]) == Some(ds1[i]));
        assert(char_digit(s2[i]) == Some(ds2[i]));
        assert(ds1[i] == ds2[i]);
        lemma_digit_char_inverse(s1[i], ds1[i]);
        lemma_digit_char_inverse(s2[i], ds2[i]);
    }
    assert(s1 =~= s2);
}

} // verus!
