//! Hexadecimal text, through the `hex` crate: the form in which offers
//! and transactions travel between the parties and to the explorer.

use vstd::prelude::*;
use crate::error::SwapError;

verus! {

/// The lower-case digit of a value below sixteen.
pub open spec fn hex_digit(n: int) -> char {
    if n < 10 {
        (48 + n) as u8 as char
    } else {
        (87 + n) as u8 as char
    }
}

/// The value of a hexadecimal digit of either case.
pub open spec fn hex_value(c: char) -> Option<int> {
    let code = c as int;
    if 48 <= code <= 57 {
        Some(code - 48)
    } else if 97 <= code <= 102 {
        Some(code - 87)
    } else if 65 <= code <= 70 {
        Some(code - 55)
    } else {
        None
    }
}

/// The lower-case hexadecimal text of a byte string.
pub open spec fn hex_chars(bytes: Seq<u8>) -> Seq<char> {
    Seq::new(
        2 * bytes.len(),
        |i: int|
            if i % 2 == 0 {
                hex_digit(bytes[i / 2] as int / 16)
            } else {
                hex_digit(bytes[i / 2] as int % 16)
            },
    )
}

/// Whether a text is an even number of hexadecimal digits.
pub open spec fn is_hex(text: Seq<char>) -> bool {
    &&& text.len() % 2 == 0
    &&& forall|i: int| 0 <= i < text.len() ==> hex_value(#[trigger] text[i]) is Some
}

/// The bytes that a hexadecimal text stands for.
pub open spec fn hex_bytes(text: Seq<char>) -> Seq<u8> {
    Seq::new(
        text.len() / 2,
        |i: int| (hex_value(text[2 * i]).unwrap() * 16 + hex_value(text[2 * i + 1]).unwrap()) as u8,
    )
}

/// `hex::encode`. Trusted: two lower-case digits for each byte, high
/// half first.
#[verifier::external_body]
fn encode_digits(data: &[u8]) -> (text: String)
    ensures
        text@ == hex_chars(data@),
{
    hex::encode(data)
}

/// The lower-case hexadecimal text of `data`.
pub fn encode(data: &[u8]) -> (text: String)
    ensures
        text@ == hex_chars(data@),
        is_hex(text@),
        hex_bytes(text@) == data@,
{
    proof {
        lemma_hex_round_trip(data@);
    }
    encode_digits(data)
}

/// `hex::decode`. Trusted: succeeds on an even number of digits of
/// either case, with the bytes they stand for, and on nothing else.
#[verifier::external_body]
fn decode_digits(text: &str) -> (bytes: Option<Vec<u8>>)
    ensures
        bytes.is_some() == is_hex(text@),
        bytes.is_some() ==> bytes.unwrap()@ == hex_bytes(text@),
{
    hex::decode(text).ok()
}

/// The bytes of a hexadecimal text; `Malformed` for any other text.
pub fn decode(text: &str) -> (r: Result<Vec<u8>, SwapError>)
    ensures
        match r {
            Ok(bytes) => is_hex(text@) && bytes@ == hex_bytes(text@),
            Err(e) => e == SwapError::Malformed && !is_hex(text@),
        },
{
    match decode_digits(text) {
        Some(bytes) => Ok(bytes),
        None => Err(SwapError::Malformed),
    }
}

/// Decoding the text of a byte string gives the byte string back.
pub proof fn lemma_hex_round_trip(bytes: Seq<u8>)
    ensures
        is_hex(hex_chars(bytes)),
        hex_bytes(hex_chars(bytes)) == bytes,
{
    let text = hex_chars(bytes);
    assert forall|n: int| 0 <= n < 16 implies hex_value(#[trigger] hex_digit(n)) == Some(n) by {
        if n < 10 {
            assert(((48 + n) as u8 as char) as int == 48 + n);
        } else {
            assert(((87 + n) as u8 as char) as int == 87 + n);
        }
    }
    assert forall|i: int| 0 <= i < text.len() implies hex_value(#[trigger] text[i]) is Some by {
        let b = bytes[i / 2] as int;
        assert(0 <= b / 16 < 16 && 0 <= b % 16 < 16);
        if i % 2 == 0 {
            assert(text[i] == hex_digit(b / 16));
        } else {
            assert(text[i] == hex_digit(b % 16));
        }
    }
    assert forall|i: int| 0 <= i < bytes.len() implies hex_bytes(text)[i] == bytes[i] by {
        let b = bytes[i] as int;
        assert(0 <= b / 16 < 16 && 0 <= b % 16 < 16);
        assert(text[2 * i] == hex_digit(b / 16));
        assert(text[2 * i + 1] == hex_digit(b % 16));
        assert(hex_value(hex_digit(b / 16)) == Some(b / 16));
        assert(hex_value(hex_digit(b % 16)) == Some(b % 16));
    }
    assert(hex_bytes(text) =~= bytes);
}

} // verus!
