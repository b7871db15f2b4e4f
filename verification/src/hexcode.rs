//! Hexadecimal text: two digits per byte, high half first.
//!
//! Encoding writes lowercase digits. Decoding reads either case and rejects
//! text of odd length and text that holds anything but hexadecimal digits.

use vstd::prelude::*;
use vstd::utf8::*;

verus! {

/// The lowercase digit for a value below sixteen, as the byte it is written
/// with.
pub open spec fn digit_byte(value: int) -> u8 {
    if value < 10 {
        (0x30 + value) as u8
    } else {
        (0x57 + value) as u8
    }
}

/// The text of `bytes`, one byte per digit: the digit at position `i` shows
/// the high half of byte `i / 2` when `i` is even, and its low half when `i`
/// is odd.
pub open spec fn hex_text(bytes: Seq<u8>) -> Seq<u8> {
    Seq::new(
        2 * bytes.len(),
        |i: int|
            if i % 2 == 0 {
                digit_byte(bytes[i / 2] as int / 16)
            } else {
                digit_byte(bytes[i / 2] as int % 16)
            },
    )
}

/// The text of `bytes` as characters.
pub open spec fn hex_chars(bytes: Seq<u8>) -> Seq<char> {
    Seq::new(2 * bytes.len(), |i: int| hex_text(bytes)[i] as char)
}

/// The value of one digit, in either case, or `None` for any other byte.
pub open spec fn digit_value(digit: u8) -> Option<int> {
    if 0x30 <= digit <= 0x39 {
        Some(digit - 0x30)
    } else if 0x61 <= digit <= 0x66 {
        Some(digit - 0x61 + 10)
    } else if 0x41 <= digit <= 0x46 {
        Some(digit - 0x41 + 10)
    } else {
        None
    }
}

/// Text that decodes: an even number of bytes, each of them a digit.
pub open spec fn is_hex(text: Seq<u8>) -> bool {
    &&& text.len() % 2 == 0
    &&& forall|i: int| 0 <= i < text.len() ==> (#[trigger] digit_value(text[i])) is Some
}

/// The bytes that `text` stands for, where `is_hex(text)`.
pub open spec fn hex_bytes(text: Seq<u8>) -> Seq<u8>
    recommends
        is_hex(text),
{
    Seq::new(
        text.len() / 2,
        |i: int| (16 * digit_value(text[2 * i])->0 + digit_value(text[2 * i + 1])->0) as u8,
    )
}

/// Decoding as a whole: the bytes of well-formed text, `None` for the rest.
pub open spec fn hex_decoded(text: Seq<u8>) -> Option<Seq<u8>> {
    if is_hex(text) {
        Some(hex_bytes(text))
    } else {
        None
    }
}

/// The error type of `hex::decode`. It is carried through unread: every
/// failure to decode is treated alike.
#[verifier::external_type_specification]
#[verifier::external_body]
pub struct ExFromHexError(hex::FromHexError);

/// Calls `hex::encode`, which writes each byte as two lowercase digits, high
/// half first: the result is `hex_chars` of the input.
#[verifier::external_body]
pub(crate) fn encode(bytes: &[u8]) -> (text: String)
    ensures
        text@ == hex_chars(bytes@),
{
    hex::encode(bytes)
}

/// Calls `hex::decode`, which fails on text of odd length and on any byte
/// that is no digit of either case, and else returns one byte per pair of
/// digits: the result is `hex_decoded` of the input.
#[verifier::external_body]
pub(crate) fn decode(text: &[u8]) -> (out: Result<Vec<u8>, hex::FromHexError>)
    ensures
        match out {
            Ok(bytes) => hex_decoded(text@) == Some(bytes@),
            Err(_) => hex_decoded(text@) is None,
        },
{
    hex::decode(text)
}

/// Hexadecimal text is ASCII: as a string it occupies one byte per digit,
/// and those bytes are `hex_text`.
pub proof fn lemma_hex_chars_utf8(bytes: Seq<u8>)
    ensures
        is_ascii_chars(hex_chars(bytes)),
        encode_utf8(hex_chars(bytes)) == hex_text(bytes),
{
    let chars = hex_chars(bytes);
    assert forall|i: int| 0 <= i < chars.len() implies '\0' <= #[trigger] chars[i] <= '\u{7f}' by {
        assert(hex_text(bytes)[i] < 0x80);
    }
    is_ascii_chars_encode_utf8(chars);
    assert(encode_utf8(chars) =~= hex_text(bytes)) by {
        assert forall|i: int| 0 <= i < chars.len() implies encode_utf8(chars)[i] == hex_text(
            bytes,
        )[i] by {
            assert(chars[i] as u8 == encode_utf8(chars)[i]);
            assert(hex_text(bytes)[i] < 0x80);
        }
    }
}

/// Decoding undoes encoding: the text of any bytes is well formed and stands
/// for those bytes.
pub proof fn lemma_hex_round_trip(bytes: Seq<u8>)
    ensures
        hex_decoded(hex_text(bytes)) == Some(bytes),
{
    let text = hex_text(bytes);
    assert forall|i: int| 0 <= i < text.len() implies (#[trigger] digit_value(text[i])) is Some by {
        let b = bytes[i / 2] as int;
        assert(0 <= b / 16 < 16 && 0 <= b % 16 < 16);
    }
    assert(is_hex(text));
    assert(hex_bytes(text) =~= bytes) by {
        assert forall|j: int| 0 <= j < bytes.len() implies hex_bytes(text)[j] == bytes[j] by {
            let b = bytes[j] as int;
            assert((2 * j) / 2 == j && (2 * j) % 2 == 0);
            assert((2 * j + 1) / 2 == j && (2 * j + 1) % 2 == 1);
            assert(0 <= b / 16 < 16 && 0 <= b % 16 < 16);
            assert(text[2 * j] == digit_byte(b / 16));
            assert(text[2 * j + 1] == digit_byte(b % 16));
            assert(digit_value(digit_byte(b / 16)) == Some(b / 16));
            assert(digit_value(digit_byte(b % 16)) == Some(b % 16));
            assert(16 * (b / 16) + b % 16 == b);
        }
    }
}

/// The bytes of a string made of two parts are the bytes of the first part
/// followed by those of the second.
pub proof fn lemma_utf8_concat(first: Seq<char>, second: Seq<char>)
    ensures
        encode_utf8(first + second) == encode_utf8(first) + encode_utf8(second),
    decreases first.len(),
{
    if first.len() == 0 {
        assert(first + second =~= second);
        assert(encode_utf8(first) + encode_utf8(second) =~= encode_utf8(second));
    } else {
        lemma_utf8_concat(first.drop_first(), second);
        assert((first + second).drop_first() =~= first.drop_first() + second);
        assert((first + second)[0] == first[0]);
        assert(encode_utf8(first + second) =~= encode_utf8(first) + encode_utf8(second));
    }
}

} // verus!
