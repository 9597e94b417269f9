//! The key-encapsulation artifacts and the primitive that makes them.
//!
//! The primitive is Classic McEliece 8192128 from `pqcrypto-classicmceliece`.
//! Each artifact is kept here as its bytes, with the length that the scheme
//! fixes for it as the type's invariant.
//!
//! The primitive works on whole keys on the stack, and a public key has more
//! than a megabyte: generating keys and encapsulating need a thread with a
//! stack of many megabytes.

use vstd::prelude::*;
use vstd::slice::*;
use pqcrypto_traits::kem::Ciphertext as _;
use pqcrypto_traits::kem::PublicKey as _;
use pqcrypto_traits::kem::SecretKey as _;
use pqcrypto_traits::kem::SharedSecret as _;

verus! {

/// The length of a public key.
pub const PUBLIC_KEY_BYTES: usize = 1357824;

/// The length of a secret key.
pub const SECRET_KEY_BYTES: usize = 14120;

/// The length of an encapsulated shared secret.
pub const CIPHERTEXT_BYTES: usize = 208;

/// The length of a shared secret.
pub const SHARED_SECRET_BYTES: usize = 32;

/// A public key of the key-encapsulation scheme.
#[derive(Debug, PartialEq, Eq)]
pub struct PublicKey {
    bytes: Vec<u8>,
}

/// A secret key of the key-encapsulation scheme.
#[derive(Debug, PartialEq, Eq)]
pub struct SecretKey {
    bytes: Vec<u8>,
}

/// A shared secret in encapsulated form.
#[derive(Debug, PartialEq, Eq)]
pub struct Ciphertext {
    bytes: Vec<u8>,
}

/// The secret that both sides of an encapsulation agree on.
#[derive(Debug, PartialEq, Eq)]
pub struct SharedSecret {
    bytes: Vec<u8>,
}

impl View for PublicKey {
    type V = Seq<u8>;

    closed spec fn view(&self) -> Seq<u8> {
        self.bytes@
    }
}

impl View for SecretKey {
    type V = Seq<u8>;

    closed spec fn view(&self) -> Seq<u8> {
        self.bytes@
    }
}

impl View for Ciphertext {
    type V = Seq<u8>;

    closed spec fn view(&self) -> Seq<u8> {
        self.bytes@
    }
}

impl View for SharedSecret {
    type V = Seq<u8>;

    closed spec fn view(&self) -> Seq<u8> {
        self.bytes@
    }
}

impl PublicKey {
    #[verifier::type_invariant]
    spec fn well_formed(&self) -> bool {
        self.bytes@.len() == PUBLIC_KEY_BYTES
    }

    /// Makes a public key of `bytes`, if they have the length of one.
    pub fn from_bytes(bytes: &[u8]) -> (key: Option<PublicKey>)
        ensures
            key is Some <==> bytes@.len() == PUBLIC_KEY_BYTES,
            key matches Some(k) ==> k@ == bytes@,
    {
        if bytes.len() == PUBLIC_KEY_BYTES {
            Some(PublicKey { bytes: slice_to_vec(bytes) })
        } else {
            None
        }
    }

    /// The bytes of the key.
    pub fn as_bytes(&self) -> (bytes: &[u8])
        ensures
            bytes@ == self@,
            bytes@.len() == PUBLIC_KEY_BYTES,
    {
        proof {
            use_type_invariant(self);
        }
        self.bytes.as_slice()
    }

    /// A copy of the key.
    pub fn copy(&self) -> (key: PublicKey)
        ensures
            key@ == self@,
    {
        proof {
            use_type_invariant(self);
        }
        PublicKey { bytes: slice_to_vec(self.bytes.as_slice()) }
    }
}

impl SecretKey {
    #[verifier::type_invariant]
    spec fn well_formed(&self) -> bool {
        self.bytes@.len() == SECRET_KEY_BYTES
    }

    /// Makes a secret key of `bytes`, if they have the length of one.
    pub fn from_bytes(bytes: &[u8]) -> (key: Option<SecretKey>)
        ensures
            key is Some <==> bytes@.len() == SECRET_KEY_BYTES,
            key matches Some(k) ==> k@ == bytes@,
    {
        if bytes.len() == SECRET_KEY_BYTES {
            Some(SecretKey { bytes: slice_to_vec(bytes) })
        } else {
            None
        }
    }

    /// The bytes of the key.
    pub fn as_bytes(&self) -> (bytes: &[u8])
        ensures
            bytes@ == self@,
            bytes@.len() == SECRET_KEY_BYTES,
    {
        proof {
            use_type_invariant(self);
        }
        self.bytes.as_slice()
    }

    /// A copy of the key.
    pub fn copy(&self) -> (key: SecretKey)
        ensures
            key@ == self@,
    {
        proof {
            use_type_invariant(self);
        }
        SecretKey { bytes: slice_to_vec(self.bytes.as_slice()) }
    }
}

impl Ciphertext {
    #[verifier::type_invariant]
    spec fn well_formed(&self) -> bool {
        self.bytes@.len() == CIPHERTEXT_BYTES
    }

    /// Makes a ciphertext of `bytes`, if they have the length of one.
    pub fn from_bytes(bytes: &[u8]) -> (ciphertext: Option<Ciphertext>)
        ensures
            ciphertext is Some <==> bytes@.len() == CIPHERTEXT_BYTES,
            ciphertext matches Some(c) ==> c@ == bytes@,
    {
        if bytes.len() == CIPHERTEXT_BYTES {
            Some(Ciphertext { bytes: slice_to_vec(bytes) })
        } else {
            None
        }
    }

    /// The bytes of the ciphertext.
    pub fn as_bytes(&self) -> (bytes: &[u8])
        ensures
            bytes@ == self@,
            bytes@.len() == CIPHERTEXT_BYTES,
    {
        proof {
            use_type_invariant(self);
        }
        self.bytes.as_slice()
    }

    /// A copy of the ciphertext.
    pub fn copy(&self) -> (ciphertext: Ciphertext)
        ensures
            ciphertext@ == self@,
    {
        proof {
            use_type_invariant(self);
        }
        Ciphertext { bytes: slice_to_vec(self.bytes.as_slice()) }
    }
}

impl SharedSecret {
    #[verifier::type_invariant]
    spec fn well_formed(&self) -> bool {
        self.bytes@.len() == SHARED_SECRET_BYTES
    }

    /// Makes a shared secret of `bytes`, if they have the length of one.
    pub fn from_bytes(bytes: &[u8]) -> (secret: Option<SharedSecret>)
        ensures
            secret is Some <==> bytes@.len() == SHARED_SECRET_BYTES,
            secret matches Some(s) ==> s@ == bytes@,
    {
        if bytes.len() == SHARED_SECRET_BYTES {
            Some(SharedSecret { bytes: slice_to_vec(bytes) })
        } else {
            None
        }
    }

    /// The bytes of the secret.
    pub fn as_bytes(&self) -> (bytes: &[u8])
        ensures
            bytes@ == self@,
            bytes@.len() == SHARED_SECRET_BYTES,
    {
        proof {
            use_type_invariant(self);
        }
        self.bytes.as_slice()
    }

    /// A copy of the secret.
    pub fn copy(&self) -> (secret: SharedSecret)
        ensures
            secret@ == self@,
    {
        proof {
            use_type_invariant(self);
        }
        SharedSecret { bytes: slice_to_vec(self.bytes.as_slice()) }
    }
}

/// The shared secret that the scheme's decapsulation derives from a
/// ciphertext and a secret key.
pub uninterp spec fn kem_decapsulation(ciphertext: Seq<u8>, secret_key: Seq<u8>) -> Seq<u8>;

/// Calls `mceliece8192128::keypair`.
///
/// Trusted: the two results have the lengths of a public and of a secret
/// key. The keys are drawn at random, so nothing else is said of them.
#[verifier::external_body]
fn kem_keypair() -> (pair: (Vec<u8>, Vec<u8>))
    ensures
        pair.0@.len() == PUBLIC_KEY_BYTES,
        pair.1@.len() == SECRET_KEY_BYTES,
{
    let (public_key, secret_key) = pqcrypto_classicmceliece::mceliece8192128::keypair();
    (public_key.as_bytes().to_vec(), secret_key.as_bytes().to_vec())
}

/// Calls `mceliece8192128::encapsulate`.
///
/// Trusted: the results have the lengths of a shared secret and of a
/// ciphertext. The encapsulation is randomised, so nothing else is said.
#[verifier::external_body]
fn kem_encapsulate(public_key: &[u8]) -> (pair: (Vec<u8>, Vec<u8>))
    requires
        public_key@.len() == PUBLIC_KEY_BYTES,
    ensures
        pair.0@.len() == SHARED_SECRET_BYTES,
        pair.1@.len() == CIPHERTEXT_BYTES,
{
    let key = pqcrypto_classicmceliece::mceliece8192128::PublicKey::from_bytes(public_key).unwrap();
    let (secret, ciphertext) = pqcrypto_classicmceliece::mceliece8192128::encapsulate(&key);
    (secret.as_bytes().to_vec(), ciphertext.as_bytes().to_vec())
}

/// Calls `mceliece8192128::decapsulate`.
///
/// Trusted: the result depends on the two arguments alone and has the
/// length of a shared secret. The scheme never rejects a ciphertext: one
/// that does not belong to the key gives some other secret.
#[verifier::external_body]
fn kem_decapsulate(ciphertext: &[u8], secret_key: &[u8]) -> (secret: Vec<u8>)
    requires
        ciphertext@.len() == CIPHERTEXT_BYTES,
        secret_key@.len() == SECRET_KEY_BYTES,
    ensures
        secret@ == kem_decapsulation(ciphertext@, secret_key@),
        secret@.len() == SHARED_SECRET_BYTES,
{
    let ct = pqcrypto_classicmceliece::mceliece8192128::Ciphertext::from_bytes(ciphertext).unwrap();
    let sk = pqcrypto_classicmceliece::mceliece8192128::SecretKey::from_bytes(secret_key).unwrap();
    pqcrypto_classicmceliece::mceliece8192128::decapsulate(&ct, &sk).as_bytes().to_vec()
}

/// Generates a key pair. The keys are drawn at random; what holds of every
/// outcome is that each has the length of its kind.
pub fn keypair() -> (pair: (PublicKey, SecretKey))
    ensures
        pair.0@.len() == PUBLIC_KEY_BYTES,
        pair.1@.len() == SECRET_KEY_BYTES,
{
    let (public_key, secret_key) = kem_keypair();
    (PublicKey { bytes: public_key }, SecretKey { bytes: secret_key })
}

/// Encapsulates a fresh shared secret for the holder of `public_key`. The
/// secret is drawn at random; what holds of every outcome is that the secret
/// and its ciphertext have the length of their kind.
pub fn encapsulate(public_key: &PublicKey) -> (pair: (SharedSecret, Ciphertext))
    ensures
        pair.0@.len() == SHARED_SECRET_BYTES,
        pair.1@.len() == CIPHERTEXT_BYTES,
{
    let (secret, ciphertext) = kem_encapsulate(public_key.as_bytes());
    (SharedSecret { bytes: secret }, Ciphertext { bytes: ciphertext })
}

/// Recovers the shared secret that `ciphertext` holds for `secret_key`.
pub fn decapsulate(ciphertext: &Ciphertext, secret_key: &SecretKey) -> (secret: SharedSecret)
    ensures
        secret@ == kem_decapsulation(ciphertext@, secret_key@),
        secret@.len() == SHARED_SECRET_BYTES,
{
    let secret = kem_decapsulate(ciphertext.as_bytes(), secret_key.as_bytes());
    SharedSecret { bytes: secret }
}

} // verus!
