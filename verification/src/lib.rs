//! Key-material management and authenticated decryption for a hybrid
//! post-quantum messaging scheme.
//!
//! The crate keeps the key-encapsulation artifacts of one identity, reads and
//! writes them as armored text blocks, checks a keyed MAC over an encrypted
//! payload, decrypts it with a block or a stream cipher, and unpacks and
//! verifies detached signatures. Everything here computes on plain values;
//! reading and writing files is left to the caller.

pub mod armor;
pub mod bytes;
pub mod cipher;
pub mod decrypt;
pub mod error;
pub mod filename;
pub mod hex;
pub mod kem;
pub mod keychain;
pub mod mac;
pub mod path;
pub mod pipeline;
pub mod signature;

pub use crate::armor::{File, KeyTypes};
pub use crate::decrypt::{ActionType, CipherScheme, Decrypt, DecryptedFile, DecryptedMessage};
pub use crate::error::{CryptError, HexError};
pub use crate::kem::{Ciphertext, PublicKey, SecretKey, SharedSecret};
pub use crate::keychain::{ArtifactFile, Keychain, SavePlan};
pub use crate::pipeline::{PipelineAction, PipelineEvent, PipelineState};
pub use crate::signature::{DetachedSignature, VerificationKey};
