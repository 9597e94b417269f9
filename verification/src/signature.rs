//! Signed messages: a length, the message, and a detached signature.
//!
//! A signed blob holds the length of the message as eight bytes, most
//! significant first, then the message, then the signature, which takes the
//! rest. The length prefix is read with `byteorder`; signatures are those of
//! Falcon-1024 from `pqcrypto-falcon`.

use vstd::prelude::*;
use vstd::slice::*;
use byteorder::ReadBytesExt;
use pqcrypto_traits::sign::DetachedSignature as _;
use pqcrypto_traits::sign::PublicKey as _;
use crate::decrypt::Decrypt;
use crate::error::CryptError;

verus! {

/// The length of the prefix that holds the length of the message.
pub const LENGTH_PREFIX_BYTES: usize = 8;

/// The most bytes that a detached signature has.
pub const SIGNATURE_MAX_BYTES: usize = 1462;

/// The length of a key that signatures are verified with.
pub const VERIFICATION_KEY_BYTES: usize = 1793;

/// The number that the first eight bytes stand for, most significant first.
pub open spec fn be_u64_value(bytes: Seq<u8>) -> nat {
    (bytes[0] as nat) * 0x100_0000_0000_0000 + (bytes[1] as nat) * 0x1_0000_0000_0000 + (
    bytes[2] as nat) * 0x100_0000_0000 + (bytes[3] as nat) * 0x1_0000_0000 + (bytes[4] as nat)
        * 0x100_0000 + (bytes[5] as nat) * 0x1_0000 + (bytes[6] as nat) * 0x100 + (
    bytes[7] as nat)
}

/// A number as eight bytes, most significant first.
pub open spec fn be_u64_bytes(n: nat) -> Seq<u8> {
    seq![
        ((n / 0x100_0000_0000_0000) % 256) as u8,
        ((n / 0x1_0000_0000_0000) % 256) as u8,
        ((n / 0x100_0000_0000) % 256) as u8,
        ((n / 0x1_0000_0000) % 256) as u8,
        ((n / 0x100_0000) % 256) as u8,
        ((n / 0x1_0000) % 256) as u8,
        ((n / 0x100) % 256) as u8,
        (n % 256) as u8,
    ]
}

/// Whether Falcon-1024 accepts a signature for a message under a key.
pub uninterp spec fn falcon1024_verifies(
    signature: Seq<u8>,
    message: Seq<u8>,
    public_key: Seq<u8>,
) -> bool;

/// Reads the length prefix with `ReadBytesExt::read_u64` in big-endian order.
///
/// Trusted: where there are eight bytes the result is the number they stand
/// for, most significant first; where there are fewer the read fails.
#[verifier::external_body]
fn read_length_prefix(data: &[u8]) -> (length: Option<u64>)
    ensures
        data@.len() < LENGTH_PREFIX_BYTES ==> length is None,
        data@.len() >= LENGTH_PREFIX_BYTES ==> length == Some(be_u64_value(data@) as u64),
{
    std::io::Cursor::new(data).read_u64::<byteorder::BigEndian>().ok()
}

/// Verifies with `falcon1024::verify_detached_signature`.
///
/// Trusted: the outcome depends on the three arguments alone; it is only
/// given a name.
#[verifier::external_body]
fn falcon1024_verify(signature: &[u8], message: &[u8], public_key: &[u8]) -> (valid: bool)
    requires
        signature@.len() <= SIGNATURE_MAX_BYTES,
        public_key@.len() == VERIFICATION_KEY_BYTES,
    ensures
        valid == falcon1024_verifies(signature@, message@, public_key@),
{
    let sig = pqcrypto_falcon::falcon1024::DetachedSignature::from_bytes(signature).unwrap();
    let key = pqcrypto_falcon::falcon1024::PublicKey::from_bytes(public_key).unwrap();
    pqcrypto_falcon::falcon1024::verify_detached_signature(&sig, message, &key).is_ok()
}

/// A signature that stands apart from the message it signs.
#[derive(Debug, PartialEq, Eq)]
pub struct DetachedSignature {
    bytes: Vec<u8>,
}

/// A public key that signatures are verified with.
#[derive(Debug, PartialEq, Eq)]
pub struct VerificationKey {
    bytes: Vec<u8>,
}

impl View for DetachedSignature {
    type V = Seq<u8>;

    closed spec fn view(&self) -> Seq<u8> {
        self.bytes@
    }
}

impl View for VerificationKey {
    type V = Seq<u8>;

    closed spec fn view(&self) -> Seq<u8> {
        self.bytes@
    }
}

impl DetachedSignature {
    #[verifier::type_invariant]
    spec fn well_formed(&self) -> bool {
        self.bytes@.len() <= SIGNATURE_MAX_BYTES
    }

    /// Makes a signature of `bytes`, unless they are more than a signature
    /// can have.
    pub fn from_bytes(bytes: &[u8]) -> (signature: Option<DetachedSignature>)
        ensures
            signature is Some <==> bytes@.len() <= SIGNATURE_MAX_BYTES,
            signature matches Some(s) ==> s@ == bytes@,
    {
        if bytes.len() <= SIGNATURE_MAX_BYTES {
            Some(DetachedSignature { bytes: slice_to_vec(bytes) })
        } else {
            None
        }
    }

    /// The bytes of the signature.
    pub fn as_bytes(&self) -> (bytes: &[u8])
        ensures
            bytes@ == self@,
            bytes@.len() <= SIGNATURE_MAX_BYTES,
    {
        proof {
            use_type_invariant(self);
        }
        self.bytes.as_slice()
    }
}

impl VerificationKey {
    #[verifier::type_invariant]
    spec fn well_formed(&self) -> bool {
        self.bytes@.len() == VERIFICATION_KEY_BYTES
    }

    /// Makes a key of `bytes`, if they have the length of one.
    pub fn from_bytes(bytes: &[u8]) -> (key: Option<VerificationKey>)
        ensures
            key is Some <==> bytes@.len() == VERIFICATION_KEY_BYTES,
            key matches Some(k) ==> k@ == bytes@,
    {
        if bytes.len() == VERIFICATION_KEY_BYTES {
            Some(VerificationKey { bytes: slice_to_vec(bytes) })
        } else {
            None
        }
    }

    /// The bytes of the key.
    pub fn as_bytes(&self) -> (bytes: &[u8])
        ensures
            bytes@ == self@,
            bytes@.len() == VERIFICATION_KEY_BYTES,
    {
        proof {
            use_type_invariant(self);
        }
        self.bytes.as_slice()
    }
}

/// The signed blob for a message and a signature.
pub open spec fn frame_spec(message: Seq<u8>, signature: Seq<u8>) -> Seq<u8> {
    be_u64_bytes(message.len()) + message + signature
}

/// What unpacking a signed blob gives: the message and the bytes of the
/// signature. A blob that is shorter than the prefix, or whose prefix asks
/// for more than follows it, gives `InvalidSignatureLength`; a signature
/// with more bytes than one can have gives `InvalidSignature`.
pub open spec fn extract_spec(signed_data: Seq<u8>) -> Result<(Seq<u8>, Seq<u8>), CryptError> {
    if signed_data.len() < LENGTH_PREFIX_BYTES {
        Err(CryptError::InvalidSignatureLength)
    } else if be_u64_value(signed_data) > signed_data.len() - LENGTH_PREFIX_BYTES {
        Err(CryptError::InvalidSignatureLength)
    } else {
        let end = LENGTH_PREFIX_BYTES + be_u64_value(signed_data);
        if signed_data.len() - end > SIGNATURE_MAX_BYTES {
            Err(CryptError::InvalidSignature)
        } else {
            Ok(
                (
                    signed_data.subrange(LENGTH_PREFIX_BYTES as int, end as int),
                    signed_data.subrange(end as int, signed_data.len() as int),
                ),
            )
        }
    }
}

/// An unpacked blob, with message and signature taken as sequences.
pub open spec fn extracted_view(extracted: Result<(Vec<u8>, DetachedSignature), CryptError>) -> Result<
    (Seq<u8>, Seq<u8>),
    CryptError,
> {
    match extracted {
        Ok(pair) => Ok((pair.0@, pair.1@)),
        Err(e) => Err(e),
    }
}

impl Decrypt {
    /// Unpacks a signed blob into the message and its detached signature.
    pub fn extract_signature(signed_data: &[u8]) -> (extracted: Result<
        (Vec<u8>, DetachedSignature),
        CryptError,
    >)
        ensures
            extracted_view(extracted) == extract_spec(signed_data@),
    {
        let length: u64 = match read_length_prefix(signed_data) {
            Some(length) => length,
            None => { return Err(CryptError::InvalidSignatureLength); },
        };
        let room: usize = signed_data.len() - LENGTH_PREFIX_BYTES;
        if length > room as u64 {
            return Err(CryptError::InvalidSignatureLength);
        }
        let end: usize = LENGTH_PREFIX_BYTES + length as usize;
        let signature = match DetachedSignature::from_bytes(
            slice_subrange(signed_data, end, signed_data.len()),
        ) {
            Some(signature) => signature,
            None => { return Err(CryptError::InvalidSignature); },
        };
        let message = slice_to_vec(slice_subrange(signed_data, LENGTH_PREFIX_BYTES, end));
        Ok((message, signature))
    }

    /// Verifies a detached signature over a message. The answer is never
    /// `Ok(false)`: a signature that does not verify, for whatever reason,
    /// gives `SignatureVerificationFailed`.
    pub fn verify_signature(
        &self,
        signature: DetachedSignature,
        message: &[u8],
        public_key: &VerificationKey,
    ) -> (verified: Result<bool, CryptError>)
        ensures
            falcon1024_verifies(signature@, message@, public_key@) ==> verified == Ok::<
                bool,
                CryptError,
            >(true),
            !falcon1024_verifies(signature@, message@, public_key@) ==> verified == Err::<
                bool,
                CryptError,
            >(CryptError::SignatureVerificationFailed),
    {
        if falcon1024_verify(signature.as_bytes(), message, public_key.as_bytes()) {
            Ok(true)
        } else {
            Err(CryptError::SignatureVerificationFailed)
        }
    }
}

/// Eight bytes written for a number stand for that number.
pub proof fn lemma_be_u64_round_trip(n: nat)
    requires
        n <= u64::MAX,
    ensures
        be_u64_bytes(n).len() == 8,
        be_u64_value(be_u64_bytes(n)) == n,
{
    let q1 = n / 256;
    let q2 = q1 / 256;
    let q3 = q2 / 256;
    let q4 = q3 / 256;
    let q5 = q4 / 256;
    let q6 = q5 / 256;
    let q7 = q6 / 256;
    assert(n / 0x1_0000 == q2);
    assert(n / 0x100_0000 == q3);
    assert(n / 0x1_0000_0000 == q4);
    assert(n / 0x100_0000_0000 == q5);
    assert(n / 0x1_0000_0000_0000 == q6);
    assert(n / 0x100_0000_0000_0000 == q7);
    assert(q7 < 256);
    let b = be_u64_bytes(n);
    assert(b[0] == q7 % 256);
    assert(b[1] == q6 % 256);
    assert(b[2] == q5 % 256);
    assert(b[3] == q4 % 256);
    assert(b[4] == q3 % 256);
    assert(b[5] == q2 % 256);
    assert(b[6] == q1 % 256);
    assert(b[7] == n % 256);
    assert(n == 256 * q1 + n % 256);
    assert(q1 == 256 * q2 + q1 % 256);
    assert(q2 == 256 * q3 + q2 % 256);
    assert(q3 == 256 * q4 + q3 % 256);
    assert(q4 == 256 * q5 + q4 % 256);
    assert(q5 == 256 * q6 + q5 % 256);
    assert(q6 == 256 * q7 + q6 % 256);
}

/// Unpacking the blob that was packed for a message and a signature gives
/// both back.
pub proof fn lemma_frame_round_trip(message: Seq<u8>, signature: Seq<u8>)
    requires
        message.len() <= u64::MAX,
        signature.len() <= SIGNATURE_MAX_BYTES,
    ensures
        extract_spec(frame_spec(message, signature)) == Ok::<(Seq<u8>, Seq<u8>), CryptError>(
            (message, signature),
        ),
{
    let prefix = be_u64_bytes(message.len());
    let blob = frame_spec(message, signature);
    lemma_be_u64_round_trip(message.len());
    assert(be_u64_value(blob) == be_u64_value(prefix)) by {
        assert(blob[0] == prefix[0] && blob[1] == prefix[1] && blob[2] == prefix[2] && blob[3]
            == prefix[3] && blob[4] == prefix[4] && blob[5] == prefix[5] && blob[6] == prefix[6]
            && blob[7] == prefix[7]);
    }
    let end = 8 + message.len();
    assert(blob.subrange(8, end as int) =~= message);
    assert(blob.subrange(end as int, blob.len() as int) =~= signature);
}

/// A blob whose prefix asks for more bytes than follow it is refused for
/// its length.
pub proof fn lemma_overlong_length_refused(signed_data: Seq<u8>)
    requires
        signed_data.len() >= LENGTH_PREFIX_BYTES,
        be_u64_value(signed_data) > signed_data.len() - LENGTH_PREFIX_BYTES,
    ensures
        extract_spec(signed_data) == Err::<(Seq<u8>, Seq<u8>), CryptError>(
            CryptError::InvalidSignatureLength,
        ),
{
}

} // verus!
