//! The closed set of failures that the operations of this crate report.

use vstd::prelude::*;
use vstd::string::*;

verus! {

/// Why a text could not be read as hexadecimal digits.
#[derive(Debug, Clone, Copy, PartialEq, Eq)]
pub enum HexError {
    /// The byte at `index` is no hexadecimal digit; `c` is that byte as a character.
    InvalidHexCharacter { c: char, index: usize },
    /// The text has an odd number of digits.
    OddLength,
    /// The text does not have the length of the container it is decoded into.
    InvalidStringLength,
}

/// How the hex codec words an invalid character found at a position.
pub uninterp spec fn invalid_hex_character_text(c: char, index: usize) -> Seq<char>;

impl HexError {
    /// The words that describe this failure.
    pub open spec fn display_text(self) -> Seq<char> {
        match self {
            HexError::InvalidHexCharacter { c, index } => invalid_hex_character_text(c, index),
            HexError::OddLength => "Odd number of digits"@,
            HexError::InvalidStringLength => "Invalid string length"@,
        }
    }

    /// Renders the failure with the `Display` impl of `hex::FromHexError`.
    ///
    /// Trusted: the two fixed texts are those of the hex codec's source; the
    /// text for an invalid character is only given a name, since it goes
    /// through the standard debug formatting of a character.
    #[verifier::external_body]
    pub(crate) fn display(&self) -> (text: String)
        ensures
            text@ == self.display_text(),
            (*self matches HexError::InvalidHexCharacter { c, index } ==> text@
                == invalid_hex_character_text(c, index)),
    {
        let outside = match *self {
            HexError::InvalidHexCharacter { c, index } => {
                hex::FromHexError::InvalidHexCharacter { c, index }
            },
            HexError::OddLength => hex::FromHexError::OddLength,
            HexError::InvalidStringLength => hex::FromHexError::InvalidStringLength,
        };
        format!("{}", outside)
    }
}

/// A failure of a keychain, codec or decryption operation.
#[derive(Debug, PartialEq, Eq)]
pub enum CryptError {
    IOError,
    MessageExtractionError,
    InvalidMessageFormat,
    HexError(HexError),
    EncapsulationError,
    DecapsulationError,
    WriteError,
    HmacVerificationError,
    HmacShortData,
    HmacKeyErr,
    HexDecodingError(String),
    UniqueFilenameFailed,
    MissingSecretKey,
    MissingPublicKey,
    MissingCiphertext,
    MissingSharedSecret,
    MissingData,
    InvalidParameters,
    PathError,
    Utf8Error,
    SigningFailed,
    SignatureVerificationFailed,
    InvalidSignatureLength,
    InvalidSignature,
}

/// A result that holds bytes, with the bytes taken as a sequence.
pub open spec fn bytes_result_view(result: Result<Vec<u8>, CryptError>) -> Result<
    Seq<u8>,
    CryptError,
> {
    match result {
        Ok(bytes) => Ok(bytes@),
        Err(e) => Err(e),
    }
}

impl CryptError {
    /// The text shown to a user for this failure.
    pub open spec fn message_text(self) -> Seq<char> {
        match self {
            CryptError::IOError => "IO error occurred"@,
            CryptError::MessageExtractionError => "Error extracting message"@,
            CryptError::InvalidMessageFormat => "Invalid message format"@,
            CryptError::HexError(err) => "Hex error: "@ + err.display_text(),
            CryptError::EncapsulationError => "Encapsulation error"@,
            CryptError::DecapsulationError => "Decapsulation error"@,
            CryptError::WriteError => "Write error"@,
            CryptError::HmacVerificationError => "HMAC verification error"@,
            CryptError::HmacShortData => "Data is too short for HMAC verification"@,
            CryptError::HmacKeyErr => "HMAC can take key of any size"@,
            CryptError::HexDecodingError(err) => "Hex decoding error: "@ + err@,
            CryptError::UniqueFilenameFailed => "Unique filename failed"@,
            CryptError::MissingSecretKey => "Missing secret key"@,
            CryptError::MissingPublicKey => "Missing public key"@,
            CryptError::MissingCiphertext => "Missing ciphertext"@,
            CryptError::MissingSharedSecret => "Missing shared secret"@,
            CryptError::MissingData => "Missing data"@,
            CryptError::InvalidParameters => "You provided Invalid parameters"@,
            CryptError::PathError => "The provided path does not exist!"@,
            CryptError::Utf8Error => "UTF-8 conversion error"@,
            CryptError::SigningFailed => "Signing file using falcon 1024 failed!"@,
            CryptError::SignatureVerificationFailed => "verification of signature using falcon 1024 failed!"@,
            CryptError::InvalidSignature => "Signature not valid!"@,
            CryptError::InvalidSignatureLength => "Data is too short for HMAC verification"@,
        }
    }

    /// Returns the text shown to a user for this failure.
    pub fn message(&self) -> (text: String)
        ensures
            text@ == self.message_text(),
    {
        match self {
            CryptError::IOError => String::from_str("IO error occurred"),
            CryptError::MessageExtractionError => String::from_str("Error extracting message"),
            CryptError::InvalidMessageFormat => String::from_str("Invalid message format"),
            CryptError::HexError(err) => {
                let detail = err.display();
                String::from_str("Hex error: ").concat(detail.as_str())
            },
            CryptError::EncapsulationError => String::from_str("Encapsulation error"),
            CryptError::DecapsulationError => String::from_str("Decapsulation error"),
            CryptError::WriteError => String::from_str("Write error"),
            CryptError::HmacVerificationError => String::from_str("HMAC verification error"),
            CryptError::HmacShortData => String::from_str(
                "Data is too short for HMAC verification",
            ),
            CryptError::HmacKeyErr => String::from_str("HMAC can take key of any size"),
            CryptError::HexDecodingError(err) => {
                String::from_str("Hex decoding error: ").concat(err.as_str())
            },
            CryptError::UniqueFilenameFailed => String::from_str("Unique filename failed"),
            CryptError::MissingSecretKey => String::from_str("Missing secret key"),
            CryptError::MissingPublicKey => String::from_str("Missing public key"),
            CryptError::MissingCiphertext => String::from_str("Missing ciphertext"),
            CryptError::MissingSharedSecret => String::from_str("Missing shared secret"),
            CryptError::MissingData => String::from_str("Missing data"),
            CryptError::InvalidParameters => String::from_str("You provided Invalid parameters"),
            CryptError::PathError => String::from_str("The provided path does not exist!"),
            CryptError::Utf8Error => String::from_str("UTF-8 conversion error"),
            CryptError::SigningFailed => String::from_str("Signing file using falcon 1024 failed!"),
            CryptError::SignatureVerificationFailed => String::from_str(
                "verification of signature using falcon 1024 failed!",
            ),
            CryptError::InvalidSignature => String::from_str("Signature not valid!"),
            CryptError::InvalidSignatureLength => String::from_str(
                "Data is too short for HMAC verification",
            ),
        }
    }
}

} // verus!
