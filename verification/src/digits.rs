//! Hexadecimal text: what counts as a digit, what bytes a text stands for,
//! and the text of given bytes.

use hex::FromHexError;
use vstd::prelude::*;
use vstd::utf8::{encode_utf8, is_ascii_chars, is_ascii_chars_encode_utf8};

verus! {

/// The error type of the `hex` crate, carried through unread.
#[verifier::external_type_specification]
#[verifier::external_body]
pub struct ExFromHexError(FromHexError);

/// Whether `c` is an ASCII hexadecimal digit, in either case.
pub open spec fn is_digit(c: u8) -> bool {
    ||| 0x30 <= c <= 0x39
    ||| 0x41 <= c <= 0x46
    ||| 0x61 <= c <= 0x66
}

/// The value, 0 to 15, of a hexadecimal digit.
pub open spec fn digit_value(c: u8) -> int {
    if 0x30 <= c <= 0x39 {
        c - 0x30
    } else if 0x41 <= c <= 0x46 {
        c - 0x41 + 10
    } else {
        c - 0x61 + 10
    }
}

/// A text that stands for bytes: digits only, two for each byte.
pub open spec fn is_hex_text(text: Seq<u8>) -> bool {
    &&& text.len() % 2 == 0
    &&& forall|i: int| 0 <= i < text.len() ==> is_digit(#[trigger] text[i])
}

/// The bytes that a hexadecimal text stands for, high digit first.
#[verifier::opaque]
pub open spec fn hex_bytes(text: Seq<u8>) -> Seq<u8> {
    Seq::new(
        text.len() / 2,
        |i: int| (16 * digit_value(text[2 * i]) + digit_value(text[2 * i + 1])) as u8,
    )
}

/// The lower-case digit of a value from 0 to 15.
pub open spec fn lower_digit(n: int) -> u8 {
    if n < 10 {
        (0x30 + n) as u8
    } else {
        (0x61 + n - 10) as u8
    }
}

/// The digit at place `i` of the text of `bytes`.
pub open spec fn text_digit(bytes: Seq<u8>, i: int) -> u8 {
    if i % 2 == 0 {
        lower_digit(bytes[i / 2] as int / 16)
    } else {
        lower_digit(bytes[i / 2] as int % 16)
    }
}

/// The lower-case hexadecimal text of `bytes`, as ASCII codes.
#[verifier::opaque]
pub open spec fn hex_text(bytes: Seq<u8>) -> Seq<u8> {
    Seq::new(2 * bytes.len(), |i: int| text_digit(bytes, i))
}

/// The same text as characters.
#[verifier::opaque]
pub open spec fn hex_chars(bytes: Seq<u8>) -> Seq<char> {
    Seq::new(2 * bytes.len(), |i: int| text_digit(bytes, i) as char)
}

/// The text of `bytes` behind the prefix `0x`, as ASCII codes.
pub open spec fn prefixed_text(bytes: Seq<u8>) -> Seq<u8> {
    seq![0x30u8, 0x78u8] + hex_text(bytes)
}

/// The same text as characters.
pub open spec fn prefixed_chars(bytes: Seq<u8>) -> Seq<char> {
    seq!['0', 'x'] + hex_chars(bytes)
}

/// Reading back the text of a value gives the value.
pub proof fn lemma_lower_digit(n: int)
    requires
        0 <= n < 16,
    ensures
        is_digit(lower_digit(n)),
        digit_value(lower_digit(n)) == n,
        lower_digit(n) < 0x80,
{
}

/// The text of any bytes is a hexadecimal text, and stands for those bytes.
pub proof fn lemma_text_round_trip(bytes: Seq<u8>)
    ensures
        is_hex_text(hex_text(bytes)),
        hex_bytes(hex_text(bytes)) == bytes,
{
    reveal(hex_bytes);
    reveal(hex_text);
    let text = hex_text(bytes);
    assert forall|i: int| 0 <= i < text.len() implies is_digit(#[trigger] text[i]) by {
        lemma_lower_digit(bytes[i / 2] as int / 16);
        lemma_lower_digit(bytes[i / 2] as int % 16);
    }
    assert forall|i: int| 0 <= i < bytes.len() implies #[trigger] hex_bytes(text)[i]
        == bytes[i] by {
        let b = bytes[i] as int;
        assert((2 * i) / 2 == i && (2 * i) % 2 == 0);
        assert((2 * i + 1) / 2 == i && (2 * i + 1) % 2 == 1);
        lemma_lower_digit(b / 16);
        lemma_lower_digit(b % 16);
        assert(text[2 * i] == lower_digit(b / 16));
        assert(text[2 * i + 1] == lower_digit(b % 16));
        assert(16 * (b / 16) + b % 16 == b);
    }
    assert(hex_bytes(text) =~= bytes);
}

/// `hex::decode`: succeeds exactly on an even number of hexadecimal
/// digits, and then returns the byte that each pair of digits stands for,
/// the high digit first.
#[verifier::external_body]
pub(crate) fn decode_text(text: &[u8]) -> (r: Result<Vec<u8>, FromHexError>)
    ensures
        r.is_ok() == is_hex_text(text@),
        r matches Ok(bytes) ==> bytes@ == hex_bytes(text@),
{
    hex::decode(text)
}

/// `hex::encode`: two lower-case digits for each byte, the high digit
/// first.
#[verifier::external_body]
pub(crate) fn encode_text(bytes: &[u8]) -> (r: String)
    ensures
        r@ == hex_chars(bytes@),
{
    hex::encode(bytes)
}

/// The prefixed text, character by character, is ASCII, so its bytes are
/// its characters.
pub proof fn lemma_prefixed_bytes(bytes: Seq<u8>)
    ensures
        encode_utf8(prefixed_chars(bytes)) == prefixed_text(bytes),
{
    reveal(hex_text);
    reveal(hex_chars);
    let chars = prefixed_chars(bytes);
    let text = prefixed_text(bytes);
    assert forall|i: int| 0 <= i < chars.len() implies '\0' <= #[trigger] chars[i]
        <= '\u{7f}' && chars[i] as u8 == text[i] by {
        if i >= 2 {
            let b = bytes[(i - 2) / 2] as int;
            lemma_lower_digit(b / 16);
            lemma_lower_digit(b % 16);
            assert(chars[i] == text_digit(bytes, i - 2) as char);
            assert(text[i] == text_digit(bytes, i - 2));
        }
    }
    assert(is_ascii_chars(chars));
    is_ascii_chars_encode_utf8(chars);
    assert(encode_utf8(chars) =~= text);
}

/// Writes `bytes` as `0x` and two lower-case digits for each byte.
pub fn write_prefixed(bytes: &[u8]) -> (text: String)
    ensures
        text@ == prefixed_chars(bytes@),
{
    let digits = encode_text(bytes);
    proof {
        reveal_strlit("0x");
        assert("0x"@ =~= seq!['0', 'x']);
    }
    String::from_str("0x").concat(digits.as_str())
}

} // verus!
