use crypt_guard::{CryptError, HexError};

#[test]
fn message_of_each_plain_failure() {
    let cases = [
        (CryptError::IOError, "IO error occurred"),
        (CryptError::MessageExtractionError, "Error extracting message"),
        (CryptError::InvalidMessageFormat, "Invalid message format"),
        (CryptError::EncapsulationError, "Encapsulation error"),
        (CryptError::DecapsulationError, "Decapsulation error"),
        (CryptError::WriteError, "Write error"),
        (CryptError::HmacVerificationError, "HMAC verification error"),
        (CryptError::HmacShortData, "Data is too short for HMAC verification"),
        (CryptError::HmacKeyErr, "HMAC can take key of any size"),
        (CryptError::UniqueFilenameFailed, "Unique filename failed"),
        (CryptError::MissingSecretKey, "Missing secret key"),
        (CryptError::MissingPublicKey, "Missing public key"),
        (CryptError::MissingCiphertext, "Missing ciphertext"),
        (CryptError::MissingSharedSecret, "Missing shared secret"),
        (CryptError::MissingData, "Missing data"),
        (CryptError::InvalidParameters, "You provided Invalid parameters"),
        (CryptError::PathError, "The provided path does not exist!"),
        (CryptError::Utf8Error, "UTF-8 conversion error"),
        (CryptError::SigningFailed, "Signing file using falcon 1024 failed!"),
        (
            CryptError::SignatureVerificationFailed,
            "verification of signature using falcon 1024 failed!",
        ),
        (CryptError::InvalidSignature, "Signature not valid!"),
        (CryptError::InvalidSignatureLength, "Data is too short for HMAC verification"),
    ];
    for (error, text) in cases {
        assert_eq!(error.message(), text);
    }
}

#[test]
fn message_of_hex_decoding_error_carries_its_text() {
    let error = CryptError::HexDecodingError(String::from("bad digit"));
    assert_eq!(error.message(), "Hex decoding error: bad digit");
}

#[test]
fn message_of_hex_error_odd_length() {
    assert_eq!(
        CryptError::HexError(HexError::OddLength).message(),
        "Hex error: Odd number of digits"
    );
}

#[test]
fn message_of_hex_error_invalid_length() {
    assert_eq!(
        CryptError::HexError(HexError::InvalidStringLength).message(),
        "Hex error: Invalid string length"
    );
}

#[test]
fn message_of_hex_error_invalid_character() {
    assert_eq!(
        CryptError::HexError(HexError::InvalidHexCharacter { c: 'g', index: 3 }).message(),
        "Hex error: Invalid character 'g' at position 3"
    );
    assert_eq!(
        CryptError::HexError(HexError::InvalidHexCharacter { c: '\n', index: 5 }).message(),
        "Hex error: Invalid character '\\n' at position 5"
    );
}

#[test]
fn message_agrees_with_the_hex_crate() {
    let outside = hex::decode("0a0g").unwrap_err();
    assert_eq!(
        CryptError::HexError(HexError::InvalidHexCharacter { c: 'g', index: 3 }).message(),
        format!("Hex error: {}", outside)
    );
}
