//! Hexadecimal text, as the armored artifact files hold it.
//!
//! Encoding and decoding are done by the `hex` crate. What it computes is
//! short enough to be written down, so the two calls are given exact contracts
//! over the spec functions of this module, and the round trip is proved from
//! those.

use vstd::prelude::*;
use crate::error::HexError;

verus! {

/// The lower-case digit for a value below sixteen.
pub open spec fn hex_digit(nibble: int) -> u8 {
    if nibble < 10 {
        (48 + nibble) as u8
    } else {
        (87 + nibble) as u8
    }
}

/// Two lower-case digits for each byte, the high half first.
pub open spec fn hex_encode_spec(data: Seq<u8>) -> Seq<u8> {
    Seq::new(
        2 * data.len(),
        |i: int|
            if i % 2 == 0 {
                hex_digit(data[i / 2] as int / 16)
            } else {
                hex_digit(data[i / 2] as int % 16)
            },
    )
}

/// The value of a digit, in either case; `None` for any other byte.
pub open spec fn hex_value(c: u8) -> Option<int> {
    if 48 <= c <= 57 {
        Some(c - 48)
    } else if 97 <= c <= 102 {
        Some(c - 87)
    } else if 65 <= c <= 70 {
        Some(c - 55)
    } else {
        None
    }
}

/// The first position at or after `from` that holds no digit; the length of
/// the text where there is none.
pub open spec fn first_invalid_hex(text: Seq<u8>, from: int) -> int
    decreases text.len() - from,
{
    if from < 0 || from >= text.len() {
        text.len() as int
    } else if hex_value(text[from]) is None {
        from
    } else {
        first_invalid_hex(text, from + 1)
    }
}

/// The byte that two digits stand for.
pub open spec fn hex_pair_value(high: u8, low: u8) -> u8 {
    (hex_value(high)->0 * 16 + hex_value(low)->0) as u8
}

/// What decoding a text gives: an odd length is reported first, then the
/// first byte that is no digit, and otherwise one byte for each two digits.
pub open spec fn hex_decode_spec(text: Seq<u8>) -> Result<Seq<u8>, HexError> {
    let bad = first_invalid_hex(text, 0);
    if text.len() % 2 != 0 {
        Err(HexError::OddLength)
    } else if bad < text.len() {
        Err(HexError::InvalidHexCharacter { c: text[bad] as char, index: bad as usize })
    } else {
        Ok(Seq::new(text.len() / 2, |i: int| hex_pair_value(text[2 * i], text[2 * i + 1])))
    }
}

/// A decoding result with its bytes taken as a sequence.
pub open spec fn decoded_view(decoded: Result<Vec<u8>, HexError>) -> Result<Seq<u8>, HexError> {
    match decoded {
        Ok(bytes) => Ok(bytes@),
        Err(e) => Err(e),
    }
}

/// Calls `hex::encode`.
///
/// Trusted: the result is two lower-case digits for each input byte, as the
/// codec's table of digits and its iterator over nibbles show.
#[verifier::external_body]
pub(crate) fn hex_encode(data: &[u8]) -> (text: Vec<u8>)
    ensures
        text@ == hex_encode_spec(data@),
{
    hex::encode(data).into_bytes()
}

/// Calls `hex::decode`.
///
/// Trusted: the codec rejects an odd length before it looks at any byte,
/// then fails on the first byte that is no digit, and otherwise returns a
/// byte for each pair.
#[verifier::external_body]
pub(crate) fn hex_decode(text: &[u8]) -> (decoded: Result<Vec<u8>, HexError>)
    ensures
        decoded_view(decoded) == hex_decode_spec(text@),
{
    match hex::decode(text) {
        Ok(bytes) => Ok(bytes),
        Err(hex::FromHexError::InvalidHexCharacter { c, index }) => {
            Err(HexError::InvalidHexCharacter { c, index })
        },
        Err(hex::FromHexError::OddLength) => Err(HexError::OddLength),
        Err(hex::FromHexError::InvalidStringLength) => Err(HexError::InvalidStringLength),
    }
}

/// Every byte of an encoding is a lower-case digit.
pub proof fn lemma_hex_encode_digits(data: Seq<u8>)
    ensures
        hex_encode_spec(data).len() == 2 * data.len(),
        forall|i: int|
            0 <= i < 2 * data.len() ==> {
                let c = #[trigger] hex_encode_spec(data)[i];
                (48 <= c <= 57 || 97 <= c <= 102) && hex_value(c) is Some
            },
{
}

proof fn lemma_no_invalid_digit(text: Seq<u8>, from: int)
    requires
        0 <= from <= text.len(),
        forall|i: int| 0 <= i < text.len() ==> hex_value(#[trigger] text[i]) is Some,
    ensures
        first_invalid_hex(text, from) == text.len(),
    decreases text.len() - from,
{
    if from < text.len() {
        lemma_no_invalid_digit(text, from + 1);
    }
}

/// Decoding what was encoded gives the bytes back.
pub proof fn lemma_hex_round_trip(data: Seq<u8>)
    ensures
        hex_decode_spec(hex_encode_spec(data)) == Ok::<Seq<u8>, HexError>(data),
{
    let text = hex_encode_spec(data);
    lemma_hex_encode_digits(data);
    lemma_no_invalid_digit(text, 0);
    let decoded = Seq::new(text.len() / 2, |i: int| hex_pair_value(text[2 * i], text[2 * i + 1]));
    assert(decoded =~= data) by {
        assert forall|i: int| 0 <= i < data.len() implies decoded[i] == data[i] by {
            let b = data[i] as int;
            assert(text[2 * i] == hex_digit(b / 16));
            assert(text[2 * i + 1] == hex_digit(b % 16));
            assert(b / 16 * 16 + b % 16 == b);
        }
    }
}

} // verus!
