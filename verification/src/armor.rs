//! Armored blocks: key material as hexadecimal text between a begin and an
//! end marker.

use vstd::prelude::*;
use vstd::slice::*;
use vstd::string::*;
use crate::bytes::{
    append_bytes, find_subarray, first_occurrence, is_first_occurrence, is_last_occurrence,
    last_occurrence, lemma_first_occurrence, lemma_last_occurrence, rfind_subarray, trim,
    trim_end_spec, trim_spec, trim_start_spec,
};
use crate::error::{bytes_result_view, CryptError, HexError};
use crate::hex::{
    hex_decode, hex_decode_spec, hex_encode, hex_encode_spec, lemma_hex_encode_digits,
    lemma_hex_round_trip,
};

verus! {

/// The kinds of key material that an armored block can hold.
#[derive(Debug, Clone, Copy, PartialEq, Eq, Structural)]
pub enum KeyTypes {
    All,
    PublicKey,
    SecretKey,
    SharedSecret,
    Ciphertext,
}

/// The line that opens a block of the given kind.
pub open spec fn begin_marker(kind: KeyTypes) -> Seq<u8> {
    match kind {
        KeyTypes::PublicKey => "-----BEGIN PUBLIC KEY-----".spec_bytes(),
        KeyTypes::SecretKey => "-----BEGIN SECRET KEY-----".spec_bytes(),
        KeyTypes::SharedSecret => "-----BEGIN SHARED SECRET-----".spec_bytes(),
        KeyTypes::Ciphertext => "-----BEGIN CIPHERTEXT-----".spec_bytes(),
        KeyTypes::All => Seq::empty(),
    }
}

/// The line that closes a block of the given kind.
pub open spec fn end_marker(kind: KeyTypes) -> Seq<u8> {
    match kind {
        KeyTypes::PublicKey => "-----END PUBLIC KEY-----".spec_bytes(),
        KeyTypes::SecretKey => "-----END SECRET KEY-----".spec_bytes(),
        KeyTypes::SharedSecret => "-----END SHARED SECRET-----".spec_bytes(),
        KeyTypes::Ciphertext => "-----END CIPHERTEXT-----".spec_bytes(),
        KeyTypes::All => Seq::empty(),
    }
}

fn begin_marker_bytes(kind: KeyTypes) -> (marker: &'static [u8])
    requires
        kind != KeyTypes::All,
    ensures
        marker@ == begin_marker(kind),
{
    match kind {
        KeyTypes::PublicKey => "-----BEGIN PUBLIC KEY-----".as_bytes(),
        KeyTypes::SecretKey => "-----BEGIN SECRET KEY-----".as_bytes(),
        KeyTypes::SharedSecret => "-----BEGIN SHARED SECRET-----".as_bytes(),
        _ => "-----BEGIN CIPHERTEXT-----".as_bytes(),
    }
}

fn end_marker_bytes(kind: KeyTypes) -> (marker: &'static [u8])
    requires
        kind != KeyTypes::All,
    ensures
        marker@ == end_marker(kind),
{
    match kind {
        KeyTypes::PublicKey => "-----END PUBLIC KEY-----".as_bytes(),
        KeyTypes::SecretKey => "-----END SECRET KEY-----".as_bytes(),
        KeyTypes::SharedSecret => "-----END SHARED SECRET-----".as_bytes(),
        _ => "-----END CIPHERTEXT-----".as_bytes(),
    }
}

/// The armored block for `bytes`: the begin marker, a line of lower-case
/// hexadecimal digits and the end marker, with a line feed between them.
pub open spec fn armor_spec(kind: KeyTypes, bytes: Seq<u8>) -> Seq<u8> {
    begin_marker(kind) + seq![10u8] + hex_encode_spec(bytes) + seq![10u8] + end_marker(kind)
}

/// What stands between the first begin marker and the last end marker of
/// `text`, without the white space around it. `None` where a marker is
/// missing or the last end marker starts before the first begin marker ends.
pub open spec fn armored_payload(text: Seq<u8>, kind: KeyTypes) -> Option<Seq<u8>> {
    let opening = first_occurrence(text, begin_marker(kind));
    let closing = last_occurrence(text, end_marker(kind));
    if opening is Some && closing is Some && opening->0 + begin_marker(kind).len() <= closing->0 {
        Some(trim_spec(text.subrange(opening->0 + begin_marker(kind).len(), closing->0)))
    } else {
        None
    }
}

/// The bytes that an armored text holds, or why it holds none.
pub open spec fn load_spec(text: Seq<u8>, kind: KeyTypes) -> Result<Seq<u8>, CryptError> {
    match armored_payload(text, kind) {
        None => Err(CryptError::IOError),
        Some(payload) => match hex_decode_spec(payload) {
            Ok(bytes) => Ok(bytes),
            Err(e) => Err(CryptError::HexError(e)),
        },
    }
}

/// The codec for armored artifact files.
pub struct File;

impl File {
    /// Writes `bytes` as an armored block of the given kind.
    pub fn encode(bytes: &[u8], file_type: KeyTypes) -> (text: Vec<u8>)
        requires
            file_type != KeyTypes::All,
        ensures
            text@ == armor_spec(file_type, bytes@),
    {
        let mut text: Vec<u8> = Vec::new();
        append_bytes(&mut text, begin_marker_bytes(file_type));
        text.push(10u8);
        let digits = hex_encode(bytes);
        append_bytes(&mut text, digits.as_slice());
        text.push(10u8);
        append_bytes(&mut text, end_marker_bytes(file_type));
        proof {
            assert(text@ =~= armor_spec(file_type, bytes@));
        }
        text
    }

    /// Reads the bytes out of the armored block of the given kind that
    /// `content` holds.
    ///
    /// The block runs from the first begin marker to the last end marker.
    /// A missing or misplaced marker gives `IOError`; content that is no
    /// hexadecimal text gives `HexError` with the codec's reason.
    pub fn load(content: &[u8], file_type: KeyTypes) -> (loaded: Result<Vec<u8>, CryptError>)
        requires
            file_type != KeyTypes::All,
        ensures
            bytes_result_view(loaded) == load_spec(content@, file_type),
    {
        let begin = begin_marker_bytes(file_type);
        let end = end_marker_bytes(file_type);
        let opening = match find_subarray(content, begin) {
            Some(at) => at,
            None => { return Err(CryptError::IOError); },
        };
        let closing = match rfind_subarray(content, end) {
            Some(at) => at,
            None => { return Err(CryptError::IOError); },
        };
        if closing < begin.len() || opening > closing - begin.len() {
            return Err(CryptError::IOError);
        }
        let payload = trim(slice_subrange(content, opening + begin.len(), closing));
        match hex_decode(payload) {
            Ok(bytes) => Ok(bytes),
            Err(e) => Err(CryptError::HexError(e)),
        }
    }
}

/// An armored block gives back the bytes it was made from, whatever its
/// kind and however many bytes there are.
pub proof fn lemma_armor_round_trip(kind: KeyTypes, bytes: Seq<u8>)
    ensures
        load_spec(armor_spec(kind, bytes), kind) == Ok::<Seq<u8>, CryptError>(bytes),
{
    let begin = begin_marker(kind);
    let end = end_marker(kind);
    let digits = hex_encode_spec(bytes);
    let text = armor_spec(kind, bytes);
    let closing: int = (begin.len() + 1 + digits.len() + 1) as int;
    assert(text.len() == closing + end.len());
    assert(is_first_occurrence(text, begin, 0)) by {
        assert(text.subrange(0, begin.len() as int) =~= begin);
    }
    lemma_first_occurrence(text, begin, 0);
    assert(is_last_occurrence(text, end, closing)) by {
        assert(text.subrange(closing, closing + end.len()) =~= end);
    }
    lemma_last_occurrence(text, end, closing);
    let line = text.subrange(begin.len() as int, closing);
    assert(line =~= seq![10u8] + digits + seq![10u8]);
    lemma_hex_encode_digits(bytes);
    assert(trim_spec(line) == digits) by {
        assert(line.drop_first() =~= digits + seq![10u8]);
        assert(trim_start_spec(line) == trim_start_spec(digits + seq![10u8]));
        if digits.len() > 0 {
            assert((digits + seq![10u8])[0] == digits[0]);
            assert(trim_start_spec(digits + seq![10u8]) == digits + seq![10u8]);
            assert((digits + seq![10u8]).drop_last() =~= digits);
            assert(trim_end_spec(digits + seq![10u8]) == trim_end_spec(digits));
            assert(trim_end_spec(digits) == digits);
        } else {
            assert(digits + seq![10u8] =~= seq![10u8]);
            assert(seq![10u8].drop_first() =~= Seq::<u8>::empty());
            assert(trim_start_spec(seq![10u8]) == trim_start_spec(Seq::<u8>::empty()));
            assert(trim_start_spec(Seq::<u8>::empty()) =~= Seq::<u8>::empty());
            assert(digits =~= Seq::<u8>::empty());
        }
    }
    lemma_hex_round_trip(bytes);
}

} // verus!
