//! The decryption pipeline, one step at a time.
//!
//! The pipeline loads the secret key, loads the ciphertext, recovers the
//! shared secret, checks the MAC of the payload, decrypts it, and hands out
//! the result. It reads and writes nothing itself: each step takes what the
//! caller has read or written since the step before, and answers with the
//! next thing to do. A failure at any stage ends the run.

use vstd::prelude::*;
use vstd::slice::*;
use vstd::string::*;
use vstd::utf8::{decode_utf8, valid_utf8};
use crate::armor::KeyTypes;
use crate::decrypt::{
    block_decrypted_spec, file_spec, message_spec, stream_decrypted_spec, text_from_utf8,
    ActionType, CipherScheme, Decrypt, DecryptedFile, DecryptedMessage,
};
use crate::error::CryptError;
use crate::kem::{
    decapsulate, kem_decapsulation, SecretKey, SharedSecret, CIPHERTEXT_BYTES, SECRET_KEY_BYTES,
};
use crate::keychain::{load_artifact_spec, Keychain};
use crate::path::{file_stem_of, path_file_stem, text_option_view};

verus! {

/// Where a run of the pipeline stands.
#[derive(Debug, PartialEq, Eq)]
pub enum PipelineState {
    /// Nothing has been done yet.
    Start,
    /// The file of the secret key is being read.
    AwaitSecretKey,
    /// The file of the ciphertext is being read.
    AwaitCiphertext { secret_key: SecretKey },
    /// The encrypted file is being read.
    AwaitPayload { shared_secret: SharedSecret },
    /// The result is being written.
    AwaitWrite,
    /// The run has ended well.
    Finished,
}

/// What the caller has done since the step before.
#[derive(Debug, PartialEq, Eq)]
pub enum PipelineEvent {
    /// The run begins.
    Begin,
    /// The file asked for was read; these are its bytes.
    FileRead(Vec<u8>),
    /// The file asked for could not be read.
    ReadFailed,
    /// The result was written.
    Written,
    /// The result could not be written.
    WriteFailed,
}

/// What the caller is to do next.
#[derive(Debug, PartialEq, Eq)]
pub enum PipelineAction {
    /// Read the file of the secret key.
    ReadSecretKey,
    /// Read the file of the ciphertext.
    ReadCiphertext,
    /// Read the encrypted file.
    ReadPayload,
    /// Write the decrypted file.
    WriteFile(DecryptedFile),
    /// Show the decrypted message, and keep a copy where it names a file.
    EmitMessage(DecryptedMessage),
    /// Nothing; the run is over.
    Finish,
}

/// A state of the pipeline, with the key material it holds taken as bytes.
pub enum StateView {
    Start,
    AwaitSecretKey,
    AwaitCiphertext(Seq<u8>),
    AwaitPayload(Seq<u8>),
    AwaitWrite,
    Finished,
}

/// An action of the pipeline, with what it carries taken by its view.
pub enum ActionView {
    ReadSecretKey,
    ReadCiphertext,
    ReadPayload,
    WriteFile((Seq<char>, Seq<u8>)),
    EmitMessage((Seq<char>, Option<Seq<char>>)),
    Finish,
}

impl View for PipelineState {
    type V = StateView;

    open spec fn view(&self) -> StateView {
        match self {
            PipelineState::Start => StateView::Start,
            PipelineState::AwaitSecretKey => StateView::AwaitSecretKey,
            PipelineState::AwaitCiphertext { secret_key } => StateView::AwaitCiphertext(
                secret_key@,
            ),
            PipelineState::AwaitPayload { shared_secret } => StateView::AwaitPayload(
                shared_secret@,
            ),
            PipelineState::AwaitWrite => StateView::AwaitWrite,
            PipelineState::Finished => StateView::Finished,
        }
    }
}

impl View for PipelineAction {
    type V = ActionView;

    open spec fn view(&self) -> ActionView {
        match self {
            PipelineAction::ReadSecretKey => ActionView::ReadSecretKey,
            PipelineAction::ReadCiphertext => ActionView::ReadCiphertext,
            PipelineAction::ReadPayload => ActionView::ReadPayload,
            PipelineAction::WriteFile(file) => ActionView::WriteFile(file@),
            PipelineAction::EmitMessage(message) => ActionView::EmitMessage(message@),
            PipelineAction::Finish => ActionView::Finish,
        }
    }
}

/// The nonce handed to a run, if any, as bytes.
pub open spec fn nonce_view(nonce: Option<&[u8; 24]>) -> Option<Seq<u8>> {
    match nonce {
        Some(bytes) => Some(bytes@),
        None => None,
    }
}

/// The plaintext of an authenticated ciphertext under the cipher of the run.
pub open spec fn plain_spec(
    scheme: CipherScheme,
    key: Seq<u8>,
    nonce: Option<Seq<u8>>,
    hmac_key: Seq<u8>,
    data_with_hmac: Seq<u8>,
) -> Result<Seq<u8>, CryptError> {
    match scheme {
        CipherScheme::BlockCipher => block_decrypted_spec(key, hmac_key, data_with_hmac),
        CipherScheme::StreamCipher => stream_decrypted_spec(
            key,
            nonce->0,
            hmac_key,
            data_with_hmac,
        ),
    }
}

/// The path that a target names: the target is text, and the text is a
/// path with a file name.
pub open spec fn target_path(target: Seq<u8>) -> Option<Seq<char>> {
    if valid_utf8(target) && path_file_stem(decode_utf8(target)) is Some {
        Some(decode_utf8(target))
    } else {
        None
    }
}

/// The decrypted file for the encrypted file that the target names. A
/// target that names no file gives `PathError`.
pub open spec fn target_file_spec(target: Seq<u8>, plain: Result<Seq<u8>, CryptError>) -> Result<
    (Seq<char>, Seq<u8>),
    CryptError,
> {
    match target_path(target) {
        Some(path) => file_spec(path, plain),
        None => Err(CryptError::PathError),
    }
}

/// What follows once the shared secret is recovered. For a file, the
/// encrypted file is asked for, unless the target names no file. For a
/// message, the target itself is the authenticated ciphertext, and the text
/// it decrypts to is handed out, with a copy to be kept. Any other action is
/// refused with `InvalidParameters`.
pub open spec fn after_decapsulation_spec(
    scheme: CipherScheme,
    shared_secret: Seq<u8>,
    target: Seq<u8>,
    action: ActionType,
    hmac_key: Seq<u8>,
    nonce: Option<Seq<u8>>,
) -> Result<(StateView, ActionView), CryptError> {
    match action {
        ActionType::FileAction => if target_path(target) is Some {
            Ok((StateView::AwaitPayload(shared_secret), ActionView::ReadPayload))
        } else {
            Err(CryptError::PathError)
        },
        ActionType::MessageAction => match message_spec(
            plain_spec(scheme, shared_secret, nonce, hmac_key, target),
            true,
        ) {
            Ok(message) => Ok((StateView::AwaitWrite, ActionView::EmitMessage(message))),
            Err(e) => Err(e),
        },
        ActionType::Unspecified => Err(CryptError::InvalidParameters),
    }
}

/// One step of the pipeline: the state and action that follow from a state
/// and an event, or the failure that ends the run. An event that the state
/// does not wait for is refused with `InvalidParameters`.
pub open spec fn step_spec(
    scheme: CipherScheme,
    state: PipelineState,
    event: PipelineEvent,
    target: Seq<u8>,
    action: ActionType,
    hmac_key: Seq<u8>,
    nonce: Option<Seq<u8>>,
) -> Result<(StateView, ActionView), CryptError> {
    match state {
        PipelineState::Start => match event {
            PipelineEvent::Begin => Ok((StateView::AwaitSecretKey, ActionView::ReadSecretKey)),
            _ => Err(CryptError::InvalidParameters),
        },
        PipelineState::AwaitSecretKey => match event {
            PipelineEvent::FileRead(content) => match load_artifact_spec(
                content@,
                KeyTypes::SecretKey,
                SECRET_KEY_BYTES as nat,
            ) {
                Ok(key) => Ok((StateView::AwaitCiphertext(key), ActionView::ReadCiphertext)),
                Err(e) => Err(e),
            },
            PipelineEvent::ReadFailed => Err(CryptError::IOError),
            _ => Err(CryptError::InvalidParameters),
        },
        PipelineState::AwaitCiphertext { secret_key } => match event {
            PipelineEvent::FileRead(content) => match load_artifact_spec(
                content@,
                KeyTypes::Ciphertext,
                CIPHERTEXT_BYTES as nat,
            ) {
                Ok(ciphertext) => after_decapsulation_spec(
                    scheme,
                    kem_decapsulation(ciphertext, secret_key@),
                    target,
                    action,
                    hmac_key,
                    nonce,
                ),
                Err(e) => Err(e),
            },
            PipelineEvent::ReadFailed => Err(CryptError::IOError),
            _ => Err(CryptError::InvalidParameters),
        },
        PipelineState::AwaitPayload { shared_secret } => match event {
            PipelineEvent::FileRead(data) => match target_file_spec(
                target,
                plain_spec(scheme, shared_secret@, nonce, hmac_key, data@),
            ) {
                Ok(file) => Ok((StateView::AwaitWrite, ActionView::WriteFile(file))),
                Err(e) => Err(e),
            },
            PipelineEvent::ReadFailed => Err(CryptError::IOError),
            _ => Err(CryptError::InvalidParameters),
        },
        PipelineState::AwaitWrite => match event {
            PipelineEvent::Written => Ok((StateView::Finished, ActionView::Finish)),
            PipelineEvent::WriteFailed => Err(CryptError::WriteError),
            _ => Err(CryptError::InvalidParameters),
        },
        PipelineState::Finished => Err(CryptError::InvalidParameters),
    }
}

/// The outcome of a step, with state and action taken by their views.
pub open spec fn step_view(outcome: Result<(PipelineState, PipelineAction), CryptError>) -> Result<
    (StateView, ActionView),
    CryptError,
> {
    match outcome {
        Ok(pair) => Ok((pair.0@, pair.1@)),
        Err(e) => Err(e),
    }
}

/// Reads the target as the path of a file.
fn path_of_target(target: &[u8]) -> (path: Option<String>)
    ensures
        text_option_view(path) == target_path(target@),
{
    match text_from_utf8(slice_to_vec(target)) {
        Some(path) => {
            if file_stem_of(path.as_str()).is_some() {
                Some(path)
            } else {
                None
            }
        },
        None => None,
    }
}

impl Decrypt {
    fn after_decapsulation(
        &self,
        shared_secret: SharedSecret,
        target: &[u8],
        action: ActionType,
        hmac_key: &[u8],
        nonce: Option<&[u8; 24]>,
    ) -> (outcome: Result<(PipelineState, PipelineAction), CryptError>)
        requires
            self.scheme == CipherScheme::StreamCipher ==> nonce is Some,
        ensures
            step_view(outcome) == after_decapsulation_spec(
                self.scheme,
                shared_secret@,
                target@,
                action,
                hmac_key@,
                nonce_view(nonce),
            ),
    {
        match action {
            ActionType::FileAction => {
                match path_of_target(target) {
                    Some(_) => Ok(
                        (
                            PipelineState::AwaitPayload { shared_secret },
                            PipelineAction::ReadPayload,
                        ),
                    ),
                    None => Err(CryptError::PathError),
                }
            },
            ActionType::MessageAction => {
                let message = match self.scheme {
                    CipherScheme::BlockCipher => self.decrypt_msg(
                        target,
                        &shared_secret,
                        hmac_key,
                        true,
                    ),
                    CipherScheme::StreamCipher => self.decrypt_msg_xchacha20(
                        target,
                        &shared_secret,
                        nonce.unwrap(),
                        hmac_key,
                        true,
                    ),
                };
                match message {
                    Ok(message) => Ok(
                        (PipelineState::AwaitWrite, PipelineAction::EmitMessage(message)),
                    ),
                    Err(e) => Err(e),
                }
            },
            ActionType::Unspecified => Err(CryptError::InvalidParameters),
        }
    }

    /// Takes one step of the decryption pipeline.
    ///
    /// `decrypt` holds the path of the encrypted file for `FileAction` and
    /// the authenticated ciphertext itself for `MessageAction`. The caller
    /// starts with `Start` and `Begin`, does what each answer asks for, and
    /// comes back with the state it was given and the event that tells how
    /// it went, until the action is `Finish` or a failure is returned.
    pub fn decrypt(
        &self,
        state: PipelineState,
        event: PipelineEvent,
        decrypt: &[u8],
        action: ActionType,
        hmac_key: &[u8],
        nonce: Option<&[u8; 24]>,
    ) -> (outcome: Result<(PipelineState, PipelineAction), CryptError>)
        requires
            self.scheme == CipherScheme::StreamCipher ==> nonce is Some,
        ensures
            step_view(outcome) == step_spec(
                self.scheme,
                state,
                event,
                decrypt@,
                action,
                hmac_key@,
                nonce_view(nonce),
            ),
    {
        match state {
            PipelineState::Start => match event {
                PipelineEvent::Begin => Ok(
                    (PipelineState::AwaitSecretKey, PipelineAction::ReadSecretKey),
                ),
                _ => Err(CryptError::InvalidParameters),
            },
            PipelineState::AwaitSecretKey => match event {
                PipelineEvent::FileRead(content) => {
                    let mut keychain = Keychain {
                        public_key: None,
                        secret_key: None,
                        shared_secret: None,
                        ciphertext: None,
                    };
                    match keychain.load_secret_key(content.as_slice()) {
                        Ok(secret_key) => Ok(
                            (
                                PipelineState::AwaitCiphertext { secret_key },
                                PipelineAction::ReadCiphertext,
                            ),
                        ),
                        Err(e) => Err(e),
                    }
                },
                PipelineEvent::ReadFailed => Err(CryptError::IOError),
                _ => Err(CryptError::InvalidParameters),
            },
            PipelineState::AwaitCiphertext { secret_key } => match event {
                PipelineEvent::FileRead(content) => {
                    let mut keychain = Keychain {
                        public_key: None,
                        secret_key: None,
                        shared_secret: None,
                        ciphertext: None,
                    };
                    match keychain.load_ciphertext(content.as_slice()) {
                        Ok(ciphertext) => {
                            let shared_secret = decapsulate(&ciphertext, &secret_key);
                            self.after_decapsulation(shared_secret, decrypt, action, hmac_key, nonce)
                        },
                        Err(e) => Err(e),
                    }
                },
                PipelineEvent::ReadFailed => Err(CryptError::IOError),
                _ => Err(CryptError::InvalidParameters),
            },
            PipelineState::AwaitPayload { shared_secret } => match event {
                PipelineEvent::FileRead(data) => {
                    let path = match path_of_target(decrypt) {
                        Some(path) => path,
                        None => { return Err(CryptError::PathError); },
                    };
                    let file = match self.scheme {
                        CipherScheme::BlockCipher => self.decrypt_file(
                            path.as_str(),
                            data.as_slice(),
                            &shared_secret,
                            hmac_key,
                        ),
                        CipherScheme::StreamCipher => self.decrypt_file_xchacha20(
                            path.as_str(),
                            data.as_slice(),
                            &shared_secret,
                            nonce.unwrap(),
                            hmac_key,
                        ),
                    };
                    match file {
                        Ok(file) => Ok((PipelineState::AwaitWrite, PipelineAction::WriteFile(file))),
                        Err(e) => Err(e),
                    }
                },
                PipelineEvent::ReadFailed => Err(CryptError::IOError),
                _ => Err(CryptError::InvalidParameters),
            },
            PipelineState::AwaitWrite => match event {
                PipelineEvent::Written => Ok((PipelineState::Finished, PipelineAction::Finish)),
                PipelineEvent::WriteFailed => Err(CryptError::WriteError),
                _ => Err(CryptError::InvalidParameters),
            },
            PipelineState::Finished => Err(CryptError::InvalidParameters),
        }
    }
}

} // verus!
