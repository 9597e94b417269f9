//! The decryptor and the stages that it runs a payload through.

use vstd::prelude::*;
use vstd::slice::*;
use vstd::string::*;
use vstd::utf8::{decode_utf8, valid_utf8};
use crate::bytes::{find_subarray, first_occurrence, trim, trim_spec};
use crate::cipher::{
    ecb_decrypt, strip_trailing_zeros, xchacha20_apply, BLOCK_BYTES, STREAM_LIMIT,
};
use crate::error::{bytes_result_view, CryptError};
use crate::hex::{hex_decode, hex_decode_spec};
use crate::kem::SharedSecret;
use crate::mac::verify_hmac_spec;
use crate::path::{
    file_stem_of, original_filename, original_filename_spec, parent_of, path_file_stem,
    path_parent,
};

verus! {

/// The length of the tag at the end of an authenticated payload.
pub const MAC_TAG_BYTES: usize = 64;

/// The symmetric cipher that a payload was encrypted with.
#[derive(Debug, Clone, Copy, PartialEq, Eq, Structural)]
pub enum CipherScheme {
    /// AES-256, block by block, without chaining.
    BlockCipher,
    /// XChaCha20 with a nonce of twenty-four bytes.
    StreamCipher,
}

/// What is decrypted: a file, or a message held in memory.
#[derive(Debug, Clone, Copy, PartialEq, Eq, Structural)]
pub enum ActionType {
    FileAction,
    MessageAction,
    /// Any action that the decryptor does not know.
    Unspecified,
}

/// A decrypted file: where to write it, and what it holds.
#[derive(Debug, PartialEq, Eq)]
pub struct DecryptedFile {
    pub path: String,
    pub data: Vec<u8>,
}

/// A decrypted message, and the file to keep a copy of it in, if any.
#[derive(Debug, PartialEq, Eq)]
pub struct DecryptedMessage {
    pub text: String,
    pub side_file: Option<String>,
}

impl View for DecryptedFile {
    type V = (Seq<char>, Seq<u8>);

    open spec fn view(&self) -> (Seq<char>, Seq<u8>) {
        (self.path@, self.data@)
    }
}

impl View for DecryptedMessage {
    type V = (Seq<char>, Option<Seq<char>>);

    open spec fn view(&self) -> (Seq<char>, Option<Seq<char>>) {
        (
            self.text@,
            match self.side_file {
                Some(path) => Some(path@),
                None => None,
            },
        )
    }
}

/// The directory of a path; empty where the path has none.
pub open spec fn directory_of(path: Seq<char>) -> Seq<char> {
    match path_parent(path) {
        Some(directory) => directory,
        None => Seq::empty(),
    }
}

/// The payload of an authenticated ciphertext: what stands before the tag
/// of sixty-four bytes, where the tag is its MAC. Too few bytes for a tag
/// give `HmacShortData`, a tag that is not the MAC `HmacVerificationError`.
pub open spec fn authenticated_spec(hmac_key: Seq<u8>, data_with_hmac: Seq<u8>) -> Result<
    Seq<u8>,
    CryptError,
> {
    if data_with_hmac.len() < MAC_TAG_BYTES {
        Err(CryptError::HmacShortData)
    } else {
        match verify_hmac_spec(hmac_key, data_with_hmac, MAC_TAG_BYTES as nat) {
            Ok(payload) => Ok(payload),
            Err(_) => Err(CryptError::HmacVerificationError),
        }
    }
}

/// The plaintext of a payload under the block cipher. A payload that is
/// not made of whole blocks gives `InvalidMessageFormat`.
pub open spec fn block_plaintext_spec(key: Seq<u8>, payload: Seq<u8>) -> Result<
    Seq<u8>,
    CryptError,
> {
    if payload.len() % BLOCK_BYTES as nat != 0 {
        Err(CryptError::InvalidMessageFormat)
    } else {
        Ok(strip_trailing_zeros(ecb_decrypt(key, payload)))
    }
}

/// The plaintext of a payload under the stream cipher. A payload longer
/// than the cipher's key stream gives `InvalidMessageFormat`.
pub open spec fn stream_plaintext_spec(key: Seq<u8>, nonce: Seq<u8>, payload: Seq<u8>) -> Result<
    Seq<u8>,
    CryptError,
> {
    if payload.len() > STREAM_LIMIT {
        Err(CryptError::InvalidMessageFormat)
    } else {
        Ok(strip_trailing_zeros(xchacha20_apply(key, nonce, payload)))
    }
}

/// The plaintext of an authenticated ciphertext under the block cipher.
pub open spec fn block_decrypted_spec(key: Seq<u8>, hmac_key: Seq<u8>, data_with_hmac: Seq<u8>) -> Result<
    Seq<u8>,
    CryptError,
> {
    match authenticated_spec(hmac_key, data_with_hmac) {
        Ok(payload) => block_plaintext_spec(key, payload),
        Err(e) => Err(e),
    }
}

/// The plaintext of an authenticated ciphertext under the stream cipher.
pub open spec fn stream_decrypted_spec(
    key: Seq<u8>,
    nonce: Seq<u8>,
    hmac_key: Seq<u8>,
    data_with_hmac: Seq<u8>,
) -> Result<Seq<u8>, CryptError> {
    match authenticated_spec(hmac_key, data_with_hmac) {
        Ok(payload) => stream_plaintext_spec(key, nonce, payload),
        Err(e) => Err(e),
    }
}

/// A decrypted file: the name derived from the path of the encrypted file,
/// and the plaintext. A path without a file name gives `PathError`, before
/// the payload is looked at.
pub open spec fn file_spec(path: Seq<char>, plain: Result<Seq<u8>, CryptError>) -> Result<
    (Seq<char>, Seq<u8>),
    CryptError,
> {
    match path_file_stem(path) {
        None => Err(CryptError::PathError),
        Some(stem) => match plain {
            Ok(bytes) => Ok((original_filename_spec(directory_of(path), stem), bytes)),
            Err(e) => Err(e),
        },
    }
}

/// A decrypted message: the plaintext as text, and the side file where a
/// copy is asked for. A plaintext that is no UTF-8 gives `Utf8Error`.
pub open spec fn message_spec(plain: Result<Seq<u8>, CryptError>, safe: bool) -> Result<
    (Seq<char>, Option<Seq<char>>),
    CryptError,
> {
    match plain {
        Ok(bytes) => if valid_utf8(bytes) {
            Ok(
                (
                    decode_utf8(bytes),
                    if safe {
                        Some("./message.txt"@)
                    } else {
                        None
                    },
                ),
            )
        } else {
            Err(CryptError::Utf8Error)
        },
        Err(e) => Err(e),
    }
}

/// The bytes between the markers of an encrypted message: both markers are
/// looked for from the start of the text. A missing marker gives
/// `MissingData`; an end marker that does not come after the whole begin
/// marker gives `InvalidMessageFormat`; content that is no hexadecimal text
/// gives `HexError`.
pub open spec fn extract_message_spec(text: Seq<u8>) -> Result<Seq<u8>, CryptError> {
    let begin = "-----BEGIN ENCRYPTED MESSAGE-----".spec_bytes();
    let end = "-----END ENCRYPTED MESSAGE-----".spec_bytes();
    let opening = first_occurrence(text, begin);
    let closing = first_occurrence(text, end);
    if opening is None || closing is None {
        Err(CryptError::MissingData)
    } else if opening->0 + begin.len() > closing->0 {
        Err(CryptError::InvalidMessageFormat)
    } else {
        match hex_decode_spec(trim_spec(text.subrange(opening->0 + begin.len(), closing->0))) {
            Ok(bytes) => Ok(bytes),
            Err(e) => Err(CryptError::HexError(e)),
        }
    }
}

/// A result that holds a decrypted file, taken by its view.
pub open spec fn file_result_view(result: Result<DecryptedFile, CryptError>) -> Result<
    (Seq<char>, Seq<u8>),
    CryptError,
> {
    match result {
        Ok(file) => Ok(file@),
        Err(e) => Err(e),
    }
}

/// A result that holds a decrypted message, taken by its view.
pub open spec fn message_result_view(result: Result<DecryptedMessage, CryptError>) -> Result<
    (Seq<char>, Option<Seq<char>>),
    CryptError,
> {
    match result {
        Ok(message) => Ok(message@),
        Err(e) => Err(e),
    }
}

/// Turns bytes into text with `String::from_utf8`.
///
/// Trusted: the conversion succeeds exactly on valid UTF-8, and the text
/// then holds the characters that the bytes encode.
#[verifier::external_body]
pub(crate) fn text_from_utf8(bytes: Vec<u8>) -> (text: Option<String>)
    ensures
        text is Some <==> valid_utf8(bytes@),
        text matches Some(t) ==> t@ == decode_utf8(bytes@),
{
    String::from_utf8(bytes).ok()
}

/// Decrypts payloads; the cipher is chosen once, when it is made.
#[derive(Debug, Clone, Copy, PartialEq, Eq, Structural)]
pub struct Decrypt {
    pub scheme: CipherScheme,
}

impl Decrypt {
    /// A decryptor for the block cipher.
    pub fn new() -> (decryptor: Decrypt)
        ensures
            decryptor.scheme == CipherScheme::BlockCipher,
    {
        Decrypt { scheme: CipherScheme::BlockCipher }
    }

    /// A decryptor for the given cipher.
    pub fn with_scheme(scheme: CipherScheme) -> (decryptor: Decrypt)
        ensures
            decryptor.scheme == scheme,
    {
        Decrypt { scheme }
    }

    /// Returns the name under which the decrypted content of the file at
    /// `encrypted_path` is written: the directory of the path, a slash, and
    /// the file's stem without the counter of a unique file name.
    pub fn generate_original_filename(&self, encrypted_path: &str) -> (name: String)
        requires
            path_file_stem(encrypted_path@) is Some,
        ensures
            name@ == original_filename_spec(
                directory_of(encrypted_path@),
                path_file_stem(encrypted_path@)->0,
            ),
    {
        let directory = match parent_of(encrypted_path) {
            Some(directory) => directory,
            None => String::new(),
        };
        let stem = file_stem_of(encrypted_path).unwrap();
        original_filename(directory.as_str(), stem.as_str())
    }

    /// Returns the name under which the decrypted content of the file at
    /// `encrypted_path` is written, or `None` where the path names no file.
    pub fn original_filename_of(&self, encrypted_path: &str) -> (name: Option<String>)
        ensures
            name is Some <==> path_file_stem(encrypted_path@) is Some,
            name matches Some(n) ==> n@ == original_filename_spec(
                directory_of(encrypted_path@),
                path_file_stem(encrypted_path@)->0,
            ),
    {
        match file_stem_of(encrypted_path) {
            Some(_) => Some(self.generate_original_filename(encrypted_path)),
            None => None,
        }
    }

    /// Reads the bytes out of an encrypted message in its textual wrapper.
    pub fn extract_encrypted_message(&self, message: &str) -> (extracted: Result<
        Vec<u8>,
        CryptError,
    >)
        ensures
            bytes_result_view(extracted) == extract_message_spec(
                message.spec_bytes(),
            ),
    {
        let text = message.as_bytes();
        let begin = "-----BEGIN ENCRYPTED MESSAGE-----".as_bytes();
        let end = "-----END ENCRYPTED MESSAGE-----".as_bytes();
        let (opening, closing) = match (find_subarray(text, begin), find_subarray(text, end)) {
            (Some(opening), Some(closing)) => (opening, closing),
            _ => { return Err(CryptError::MissingData); },
        };
        if closing < begin.len() || opening > closing - begin.len() {
            return Err(CryptError::InvalidMessageFormat);
        }
        let content = trim(slice_subrange(text, opening + begin.len(), closing));
        match hex_decode(content) {
            Ok(bytes) => Ok(bytes),
            Err(e) => Err(CryptError::HexError(e)),
        }
    }

    /// Checks the MAC of an authenticated ciphertext and returns the
    /// payload that it covers.
    pub fn authenticate(&self, hmac_key: &[u8], data_with_hmac: &[u8]) -> (payload: Result<
        Vec<u8>,
        CryptError,
    >)
        ensures
            bytes_result_view(payload) == authenticated_spec(
                hmac_key@,
                data_with_hmac@,
            ),
    {
        if data_with_hmac.len() < MAC_TAG_BYTES {
            return Err(CryptError::HmacShortData);
        }
        match self.verify_hmac(hmac_key, data_with_hmac, MAC_TAG_BYTES) {
            Ok(payload) => Ok(payload),
            Err(_) => Err(CryptError::HmacVerificationError),
        }
    }

    fn block_decrypted(&self, data_with_hmac: &[u8], key: &SharedSecret, hmac_key: &[u8]) -> (plain:
        Result<Vec<u8>, CryptError>)
        ensures
            bytes_result_view(plain) == block_decrypted_spec(
                key@,
                hmac_key@,
                data_with_hmac@,
            ),
    {
        let payload = match self.authenticate(hmac_key, data_with_hmac) {
            Ok(payload) => payload,
            Err(e) => { return Err(e); },
        };
        if payload.len() % BLOCK_BYTES != 0 {
            return Err(CryptError::InvalidMessageFormat);
        }
        self.decrypt_data(payload.as_slice(), key.as_bytes())
    }

    fn stream_decrypted(
        &self,
        data_with_hmac: &[u8],
        key: &SharedSecret,
        nonce: &[u8; 24],
        hmac_key: &[u8],
    ) -> (plain: Result<Vec<u8>, CryptError>)
        ensures
            bytes_result_view(plain) == stream_decrypted_spec(
                key@,
                nonce@,
                hmac_key@,
                data_with_hmac@,
            ),
    {
        let payload = match self.authenticate(hmac_key, data_with_hmac) {
            Ok(payload) => payload,
            Err(e) => { return Err(e); },
        };
        if payload.len() as u64 > STREAM_LIMIT {
            return Err(CryptError::InvalidMessageFormat);
        }
        self.decrypt_data_xchacha20(payload.as_slice(), nonce, key.as_bytes())
    }

    fn as_file(&self, encrypted_file_path: &str, plain: Result<Vec<u8>, CryptError>) -> (file:
        Result<DecryptedFile, CryptError>)
        requires
            path_file_stem(encrypted_file_path@) is Some,
        ensures
            file_result_view(file) == file_spec(
                encrypted_file_path@,
                bytes_result_view(plain),
            ),
    {
        match plain {
            Ok(data) => Ok(
                DecryptedFile { path: self.generate_original_filename(encrypted_file_path), data },
            ),
            Err(e) => Err(e),
        }
    }

    fn as_message(&self, plain: Result<Vec<u8>, CryptError>, safe: bool) -> (message: Result<
        DecryptedMessage,
        CryptError,
    >)
        ensures
            message_result_view(message) == message_spec(
                bytes_result_view(plain),
                safe,
            ),
    {
        let bytes = match plain {
            Ok(bytes) => bytes,
            Err(e) => { return Err(e); },
        };
        let text = match text_from_utf8(bytes) {
            Some(text) => text,
            None => { return Err(CryptError::Utf8Error); },
        };
        let side_file = if safe {
            Some(String::from_str("./message.txt"))
        } else {
            None
        };
        Ok(DecryptedMessage { text, side_file })
    }

    /// Decrypts the content of an encrypted file with the block cipher:
    /// checks the MAC, decrypts, and names the file to write.
    pub fn decrypt_file(
        &self,
        encrypted_file_path: &str,
        data: &[u8],
        key: &SharedSecret,
        hmac_key: &[u8],
    ) -> (file: Result<DecryptedFile, CryptError>)
        ensures
            file_result_view(file) == file_spec(
                encrypted_file_path@,
                block_decrypted_spec(key@, hmac_key@, data@),
            ),
    {
        if file_stem_of(encrypted_file_path).is_none() {
            return Err(CryptError::PathError);
        }
        let plain = self.block_decrypted(data, key, hmac_key);
        self.as_file(encrypted_file_path, plain)
    }

    /// Decrypts an encrypted message with the block cipher: checks the MAC,
    /// decrypts, and reads the plaintext as text. With `safe` a copy of the
    /// text is to be kept in a side file.
    pub fn decrypt_msg(
        &self,
        encrypted_data_with_hmac: &[u8],
        key: &SharedSecret,
        hmac_key: &[u8],
        safe: bool,
    ) -> (message: Result<DecryptedMessage, CryptError>)
        ensures
            message_result_view(message) == message_spec(
                block_decrypted_spec(key@, hmac_key@, encrypted_data_with_hmac@),
                safe,
            ),
    {
        let plain = self.block_decrypted(encrypted_data_with_hmac, key, hmac_key);
        self.as_message(plain, safe)
    }

    /// Decrypts the content of an encrypted file with the stream cipher:
    /// checks the MAC, decrypts, and names the file to write.
    pub fn decrypt_file_xchacha20(
        &self,
        encrypted_file_path: &str,
        data: &[u8],
        key: &SharedSecret,
        nonce: &[u8; 24],
        hmac_key: &[u8],
    ) -> (file: Result<DecryptedFile, CryptError>)
        ensures
            file_result_view(file) == file_spec(
                encrypted_file_path@,
                stream_decrypted_spec(key@, nonce@, hmac_key@, data@),
            ),
    {
        if file_stem_of(encrypted_file_path).is_none() {
            return Err(CryptError::PathError);
        }
        let plain = self.stream_decrypted(data, key, nonce, hmac_key);
        self.as_file(encrypted_file_path, plain)
    }

    /// Decrypts an encrypted message with the stream cipher: checks the
    /// MAC, decrypts, and reads the plaintext as text. With `safe` a copy of
    /// the text is to be kept in a side file.
    pub fn decrypt_msg_xchacha20(
        &self,
        encrypted_data_with_hmac: &[u8],
        key: &SharedSecret,
        nonce: &[u8; 24],
        hmac_key: &[u8],
        safe: bool,
    ) -> (message: Result<DecryptedMessage, CryptError>)
        ensures
            message_result_view(message) == message_spec(
                stream_decrypted_spec(key@, nonce@, hmac_key@, encrypted_data_with_hmac@),
                safe,
            ),
    {
        let plain = self.stream_decrypted(encrypted_data_with_hmac, key, nonce, hmac_key);
        self.as_message(plain, safe)
    }
}

} // verus!
