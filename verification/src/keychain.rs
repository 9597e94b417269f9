//! The keychain: the four key-encapsulation artifacts of one identity, with
//! the rules for generating, loading and storing them.
//!
//! Nothing here touches the file system. Loading takes the text of a file;
//! storing hands back the files to write; the names that already exist in the
//! target directory are handed in.

use vstd::prelude::*;
use vstd::string::*;
use crate::armor::{armor_spec, lemma_armor_round_trip, load_spec, File, KeyTypes};
use crate::bytes::{append_bytes, equal};
use crate::hex::{hex_encode, hex_encode_spec};
use crate::path::{
    extension_of, file_stem_of, parse_number, parse_number_from, path_extension, path_file_stem,
    starts_with,
};
use crate::error::CryptError;
use crate::filename::{
    candidate, candidate_name, is_first_free, is_taken, lemma_first_free_unique,
    lemma_some_candidate_free, name_is_taken, unique_filename_spec,
};
use crate::kem::{
    decapsulate, encapsulate, kem_decapsulation, keypair, Ciphertext, PublicKey, SecretKey,
    SharedSecret, CIPHERTEXT_BYTES, PUBLIC_KEY_BYTES, SECRET_KEY_BYTES, SHARED_SECRET_BYTES,
};

verus! {

/// What loading an artifact of the given kind and length from a text gives:
/// the bytes of the armored block, or `IOError` where the block is missing or
/// holds another number of bytes, or `HexError` where it is no hexadecimal
/// text.
pub open spec fn load_artifact_spec(content: Seq<u8>, kind: KeyTypes, length: nat) -> Result<
    Seq<u8>,
    CryptError,
> {
    match load_spec(content, kind) {
        Ok(bytes) => if bytes.len() == length {
            Ok(bytes)
        } else {
            Err(CryptError::IOError)
        },
        Err(e) => Err(e),
    }
}

/// The number that a directory entry carries: the entry has the extension
/// asked for, its stem starts with the base name, and what follows the base
/// name is a number.
pub open spec fn entry_number(entry: Seq<char>, base: Seq<char>, extension: Seq<char>) -> Option<
    int,
> {
    match path_file_stem(entry) {
        Some(stem) => if path_extension(entry) == Some(extension) && base.is_prefix_of(stem) {
            parse_number(stem.subrange(base.len() as int, stem.len() as int))
        } else {
            None
        },
        None => None,
    }
}

/// The entry at `at` carries the highest number, and is the first to do so.
pub open spec fn is_highest_numbered(
    entries: Seq<String>,
    base: Seq<char>,
    extension: Seq<char>,
    at: int,
) -> bool {
    &&& 0 <= at < entries.len()
    &&& entry_number(entries[at]@, base, extension) is Some
    &&& forall|j: int|
        0 <= j < entries.len() ==> match #[trigger] entry_number(entries[j]@, base, extension) {
            Some(other) => other < entry_number(entries[at]@, base, extension)->0 || (other
                == entry_number(entries[at]@, base, extension)->0 && at <= j),
            None => true,
        }
}

/// The report that `show` gives of four artifacts and of the secret
/// recovered from the ciphertext.
pub open spec fn report_spec(
    public_key: Seq<u8>,
    secret_key: Seq<u8>,
    shared_secret: Seq<u8>,
    recovered: Seq<u8>,
) -> Seq<u8> {
    "Public Key: ".spec_bytes() + hex_encode_spec(public_key) + "\n\nSecret Key: ".spec_bytes()
        + hex_encode_spec(secret_key) + "\n\nShared secret: ".spec_bytes() + hex_encode_spec(
        shared_secret,
    ) + "\n\nDecapsulated shared secret: ".spec_bytes() + hex_encode_spec(recovered)
}

/// The extension of the file that holds an artifact of the given kind.
pub open spec fn kind_extension(kind: KeyTypes) -> Seq<char> {
    match kind {
        KeyTypes::PublicKey => "pub"@,
        KeyTypes::SecretKey => "sec"@,
        KeyTypes::SharedSecret => "ss"@,
        KeyTypes::Ciphertext => "ct"@,
        KeyTypes::All => Seq::empty(),
    }
}

/// The failure reported where an artifact of the given kind is not there.
pub open spec fn missing_error(kind: KeyTypes) -> CryptError {
    match kind {
        KeyTypes::PublicKey => CryptError::MissingPublicKey,
        KeyTypes::SecretKey => CryptError::MissingSecretKey,
        KeyTypes::SharedSecret => CryptError::MissingSharedSecret,
        KeyTypes::Ciphertext => CryptError::MissingCiphertext,
        KeyTypes::All => CryptError::MissingData,
    }
}

/// The directory that the artifacts of `title` are stored in.
pub open spec fn directory_name(base_path: Seq<char>, title: Seq<char>) -> Seq<char> {
    base_path + "/"@ + title
}

/// The file that stores an artifact: a name in the directory of `title` that
/// is not taken yet, and the armored block of the bytes.
pub open spec fn artifact_spec(
    base_path: Seq<char>,
    title: Seq<char>,
    existing: Seq<String>,
    kind: KeyTypes,
    bytes: Seq<u8>,
) -> (Seq<char>, Seq<u8>) {
    (
        unique_filename_spec(
            directory_name(base_path, title) + "/"@ + title,
            kind_extension(kind),
            existing,
        ),
        armor_spec(kind, bytes),
    )
}

/// A file to write: its path and what it holds.
#[derive(Debug, PartialEq, Eq)]
pub struct ArtifactFile {
    pub path: String,
    pub contents: Vec<u8>,
}

impl View for ArtifactFile {
    type V = (Seq<char>, Seq<u8>);

    open spec fn view(&self) -> (Seq<char>, Seq<u8>) {
        (self.path@, self.contents@)
    }
}

/// What storing artifacts asks of the caller: a directory to create if it
/// is not there, and the files to write into it, in this order.
#[derive(Debug, PartialEq, Eq)]
pub struct SavePlan {
    pub directory: String,
    pub files: Vec<ArtifactFile>,
}

/// The files of a plan, each as its path and contents.
pub open spec fn files_view(files: Seq<ArtifactFile>) -> Seq<(Seq<char>, Seq<u8>)> {
    files.map_values(|file: ArtifactFile| file@)
}

/// The artifacts of one key-encapsulation identity. Each may be present or
/// not, independently of the others.
#[derive(Debug, PartialEq, Eq)]
pub struct Keychain {
    pub public_key: Option<PublicKey>,
    pub secret_key: Option<SecretKey>,
    pub shared_secret: Option<SharedSecret>,
    pub ciphertext: Option<Ciphertext>,
}

impl Keychain {
    /// The bytes of the public key, if there is one.
    pub open spec fn public_bytes(&self) -> Option<Seq<u8>> {
        match self.public_key {
            Some(key) => Some(key@),
            None => None,
        }
    }

    /// The bytes of the secret key, if there is one.
    pub open spec fn secret_bytes(&self) -> Option<Seq<u8>> {
        match self.secret_key {
            Some(key) => Some(key@),
            None => None,
        }
    }

    /// The bytes of the shared secret, if there is one.
    pub open spec fn shared_bytes(&self) -> Option<Seq<u8>> {
        match self.shared_secret {
            Some(secret) => Some(secret@),
            None => None,
        }
    }

    /// The bytes of the ciphertext, if there is one.
    pub open spec fn ciphertext_bytes(&self) -> Option<Seq<u8>> {
        match self.ciphertext {
            Some(ciphertext) => Some(ciphertext@),
            None => None,
        }
    }

    /// The bytes of the artifact of the given kind, if there is one.
    pub open spec fn artifact_bytes(&self, kind: KeyTypes) -> Option<Seq<u8>> {
        match kind {
            KeyTypes::PublicKey => self.public_bytes(),
            KeyTypes::SecretKey => self.secret_bytes(),
            KeyTypes::SharedSecret => self.shared_bytes(),
            KeyTypes::Ciphertext => self.ciphertext_bytes(),
            KeyTypes::All => None,
        }
    }

    /// The files that store the artifacts of the given kinds, in their
    /// order; or, where one of them is not there, the failure for the first
    /// that is missing.
    pub open spec fn planned_files(
        &self,
        base_path: Seq<char>,
        title: Seq<char>,
        existing: Seq<String>,
        kinds: Seq<KeyTypes>,
    ) -> Result<Seq<(Seq<char>, Seq<u8>)>, CryptError>
        decreases kinds.len(),
    {
        if kinds.len() == 0 {
            Ok(Seq::empty())
        } else {
            match self.planned_files(base_path, title, existing, kinds.drop_last()) {
                Err(e) => Err(e),
                Ok(files) => match self.artifact_bytes(kinds.last()) {
                    None => Err(missing_error(kinds.last())),
                    Some(bytes) => Ok(
                        files.push(artifact_spec(base_path, title, existing, kinds.last(), bytes)),
                    ),
                },
            }
        }
    }

    /// What a plan for the given kinds must be.
    pub open spec fn plan_meets(
        &self,
        plan: Result<SavePlan, CryptError>,
        base_path: Seq<char>,
        title: Seq<char>,
        existing: Seq<String>,
        kinds: Seq<KeyTypes>,
    ) -> bool {
        match self.planned_files(base_path, title, existing, kinds) {
            Ok(files) => plan matches Ok(p) && p.directory@ == directory_name(base_path, title)
                && files_view(p.files@) == files,
            Err(e) => plan matches Err(reported) && reported == e,
        }
    }

    fn plan(
        &self,
        base_path: &str,
        title: &str,
        existing: &Vec<String>,
        kinds: &Vec<KeyTypes>,
    ) -> (plan: Result<SavePlan, CryptError>)
        requires
            forall|i: int| 0 <= i < kinds@.len() ==> kinds@[i] != KeyTypes::All,
        ensures
            self.plan_meets(plan, base_path@, title@, existing@, kinds@),
    {
        let mut directory = String::from_str(base_path);
        directory.append("/");
        directory.append(title);
        let mut file_base = directory.clone();
        file_base.append("/");
        file_base.append(title);
        let mut files: Vec<ArtifactFile> = Vec::new();
        let mut i: usize = 0;
        proof {
            assert(kinds@.subrange(0, 0) =~= Seq::<KeyTypes>::empty());
            assert(files_view(files@) =~= Seq::<(Seq<char>, Seq<u8>)>::empty());
        }
        while i < kinds.len()
            invariant
                i <= kinds@.len(),
                forall|k: int| 0 <= k < kinds@.len() ==> kinds@[k] != KeyTypes::All,
                directory@ == directory_name(base_path@, title@),
                file_base@ == directory_name(base_path@, title@) + "/"@ + title@,
                self.planned_files(base_path@, title@, existing@, kinds@.subrange(0, i as int))
                    == Ok::<Seq<(Seq<char>, Seq<u8>)>, CryptError>(files_view(files@)),
            decreases kinds@.len() - i,
        {
            let kind = kinds[i];
            proof {
                let longer = kinds@.subrange(0, i + 1);
                assert(longer.drop_last() =~= kinds@.subrange(0, i as int));
                assert(longer.last() == kind);
            }
            let artifact: Option<(&[u8], &'static str)> = match kind {
                KeyTypes::PublicKey => match &self.public_key {
                    Some(key) => Some((key.as_bytes(), "pub")),
                    None => None,
                },
                KeyTypes::SecretKey => match &self.secret_key {
                    Some(key) => Some((key.as_bytes(), "sec")),
                    None => None,
                },
                KeyTypes::SharedSecret => match &self.shared_secret {
                    Some(secret) => Some((secret.as_bytes(), "ss")),
                    None => None,
                },
                _ => match &self.ciphertext {
                    Some(ciphertext) => Some((ciphertext.as_bytes(), "ct")),
                    None => None,
                },
            };
            match artifact {
                Some((bytes, extension)) => {
                    let path = Keychain::generate_unique_filename(
                        file_base.as_str(),
                        extension,
                        existing,
                    );
                    let contents = File::encode(bytes, kind);
                    let ghost before = files@;
                    files.push(ArtifactFile { path, contents });
                    proof {
                        assert(files_view(files@) =~= files_view(before).push(
                            artifact_spec(base_path@, title@, existing@, kind, bytes@),
                        ));
                    }
                },
                None => {
                    let error = match kind {
                        KeyTypes::PublicKey => CryptError::MissingPublicKey,
                        KeyTypes::SecretKey => CryptError::MissingSecretKey,
                        KeyTypes::SharedSecret => CryptError::MissingSharedSecret,
                        _ => CryptError::MissingCiphertext,
                    };
                    proof {
                        lemma_missing_stays_missing(
                            self,
                            base_path@,
                            title@,
                            existing@,
                            kinds@,
                            i + 1,
                        );
                    }
                    return Err(error);
                },
            }
            i += 1;
        }
        proof {
            assert(kinds@.subrange(0, i as int) =~= kinds@);
        }
        Ok(SavePlan { directory, files })
    }

    /// Plans the storing of all four artifacts under `base_path/title`.
    ///
    /// The plan names the directory and, in turn, the files for the public
    /// key, the secret key, the shared secret and the ciphertext, each under
    /// a name that is not among `existing`. Where an artifact is not there,
    /// nothing is planned and the failure names the first that is missing.
    pub fn save(&self, base_path: &str, title: &str, existing: &Vec<String>) -> (plan: Result<
        SavePlan,
        CryptError,
    >)
        ensures
            self.plan_meets(
                plan,
                base_path@,
                title@,
                existing@,
                seq![
                    KeyTypes::PublicKey,
                    KeyTypes::SecretKey,
                    KeyTypes::SharedSecret,
                    KeyTypes::Ciphertext,
                ],
            ),
    {
        let mut kinds: Vec<KeyTypes> = Vec::new();
        kinds.push(KeyTypes::PublicKey);
        kinds.push(KeyTypes::SecretKey);
        kinds.push(KeyTypes::SharedSecret);
        kinds.push(KeyTypes::Ciphertext);
        proof {
            assert(kinds@ =~= seq![
                KeyTypes::PublicKey,
                KeyTypes::SecretKey,
                KeyTypes::SharedSecret,
                KeyTypes::Ciphertext,
            ]);
        }
        self.plan(base_path, title, existing, &kinds)
    }

    /// Plans the storing of the key pair under `base_path/title`: the public
    /// key, then the secret key.
    pub fn save_keys(&self, base_path: &str, title: &str, existing: &Vec<String>) -> (plan: Result<
        SavePlan,
        CryptError,
    >)
        ensures
            self.plan_meets(
                plan,
                base_path@,
                title@,
                existing@,
                seq![KeyTypes::PublicKey, KeyTypes::SecretKey],
            ),
    {
        let mut kinds: Vec<KeyTypes> = Vec::new();
        kinds.push(KeyTypes::PublicKey);
        kinds.push(KeyTypes::SecretKey);
        proof {
            assert(kinds@ =~= seq![KeyTypes::PublicKey, KeyTypes::SecretKey]);
        }
        self.plan(base_path, title, existing, &kinds)
    }

    /// Plans the storing of the public key under `base_path/title`.
    pub fn save_public_key(&self, base_path: &str, title: &str, existing: &Vec<String>) -> (plan:
        Result<SavePlan, CryptError>)
        ensures
            self.plan_meets(plan, base_path@, title@, existing@, seq![KeyTypes::PublicKey]),
    {
        let mut kinds: Vec<KeyTypes> = Vec::new();
        kinds.push(KeyTypes::PublicKey);
        proof {
            assert(kinds@ =~= seq![KeyTypes::PublicKey]);
        }
        self.plan(base_path, title, existing, &kinds)
    }

    /// Plans the storing of the secret key under `base_path/title`.
    pub fn save_secret_key(&self, base_path: &str, title: &str, existing: &Vec<String>) -> (plan:
        Result<SavePlan, CryptError>)
        ensures
            self.plan_meets(plan, base_path@, title@, existing@, seq![KeyTypes::SecretKey]),
    {
        let mut kinds: Vec<KeyTypes> = Vec::new();
        kinds.push(KeyTypes::SecretKey);
        proof {
            assert(kinds@ =~= seq![KeyTypes::SecretKey]);
        }
        self.plan(base_path, title, existing, &kinds)
    }

    /// Plans the storing of the ciphertext under `base_path/title`.
    pub fn save_ciphertext(&self, base_path: &str, title: &str, existing: &Vec<String>) -> (plan:
        Result<SavePlan, CryptError>)
        ensures
            self.plan_meets(plan, base_path@, title@, existing@, seq![KeyTypes::Ciphertext]),
    {
        let mut kinds: Vec<KeyTypes> = Vec::new();
        kinds.push(KeyTypes::Ciphertext);
        proof {
            assert(kinds@ =~= seq![KeyTypes::Ciphertext]);
        }
        self.plan(base_path, title, existing, &kinds)
    }

    /// Plans the storing of the shared secret under `base_path/title`.
    pub fn save_shared_secret(
        &self,
        base_path: &str,
        title: &str,
        existing: &Vec<String>,
    ) -> (plan: Result<SavePlan, CryptError>)
        ensures
            self.plan_meets(plan, base_path@, title@, existing@, seq![KeyTypes::SharedSecret]),
    {
        let mut kinds: Vec<KeyTypes> = Vec::new();
        kinds.push(KeyTypes::SharedSecret);
        proof {
            assert(kinds@ =~= seq![KeyTypes::SharedSecret]);
        }
        self.plan(base_path, title, existing, &kinds)
    }

    /// All four artifacts are there.
    pub open spec fn is_complete(&self) -> bool {
        self.public_key is Some && self.secret_key is Some && self.shared_secret is Some
            && self.ciphertext is Some
    }

    /// Where the secret key, the shared secret and the ciphertext are there,
    /// decapsulating the ciphertext with the secret key gives the shared
    /// secret.
    pub open spec fn is_consistent(&self) -> bool {
        self.secret_key is Some && self.shared_secret is Some && self.ciphertext is Some
            ==> kem_decapsulation(self.ciphertext->0@, self.secret_key->0@)
            == self.shared_secret->0@
    }

    /// Makes an identity of a key pair and of a shared secret encapsulated
    /// for it, after checking that the ciphertext decapsulates to the shared
    /// secret; fails with `EncapsulationError` where it does not.
    pub fn from_encapsulation(
        public_key: PublicKey,
        secret_key: SecretKey,
        shared_secret: SharedSecret,
        ciphertext: Ciphertext,
    ) -> (made: Result<Keychain, CryptError>)
        ensures
            kem_decapsulation(ciphertext@, secret_key@) == shared_secret@ ==> (made matches Ok(
                keychain,
            ) && keychain.public_key == Some(public_key) && keychain.secret_key == Some(
                secret_key,
            ) && keychain.shared_secret == Some(shared_secret) && keychain.ciphertext == Some(
                ciphertext,
            )),
            kem_decapsulation(ciphertext@, secret_key@) != shared_secret@ ==> (made matches Err(e)
                && e == CryptError::EncapsulationError),
    {
        let recovered = decapsulate(&ciphertext, &secret_key);
        if equal(recovered.as_bytes(), shared_secret.as_bytes()) {
            Ok(
                Keychain {
                    public_key: Some(public_key),
                    secret_key: Some(secret_key),
                    shared_secret: Some(shared_secret),
                    ciphertext: Some(ciphertext),
                },
            )
        } else {
            Err(CryptError::EncapsulationError)
        }
    }

    /// Generates an identity with all four artifacts: a fresh key pair, and
    /// a shared secret encapsulated for its own public key. The identity is
    /// handed out only after its ciphertext was decapsulated to its shared
    /// secret, so every generated identity is consistent.
    pub fn new() -> (made: Result<Keychain, CryptError>)
        ensures
            made matches Ok(keychain) ==> keychain.is_complete() && keychain.is_consistent(),
            made matches Err(e) ==> e == CryptError::EncapsulationError,
    {
        let (public_key, secret_key) = keypair();
        let (shared_secret, ciphertext) = encapsulate(&public_key);
        Keychain::from_encapsulation(public_key, secret_key, shared_secret, ciphertext)
    }

    /// Generates an identity that holds a fresh key pair and nothing else.
    pub fn new_keys() -> (made: Result<Keychain, CryptError>)
        ensures
            made matches Ok(keychain) && keychain.public_key is Some && keychain.secret_key is Some
                && keychain.shared_secret is None && keychain.ciphertext is None,
    {
        let (public_key, secret_key) = keypair();
        Ok(
            Keychain {
                public_key: Some(public_key),
                secret_key: Some(secret_key),
                shared_secret: None,
                ciphertext: None,
            },
        )
    }

    /// Returns the first of `base_path.extension`, `base_path_1.extension`,
    /// `base_path_2.extension`, ... that is not among the existing names.
    pub fn generate_unique_filename(
        base_path: &str,
        extension: &str,
        existing: &Vec<String>,
    ) -> (name: String)
        ensures
            name@ == unique_filename_spec(base_path@, extension@, existing@),
            !is_taken(existing@, name@),
            exists|attempt: nat|
                attempt <= existing@.len() && is_first_free(
                    base_path@,
                    extension@,
                    existing@,
                    attempt,
                ) && name@ == candidate_name(base_path@, extension@, attempt),
    {
        let mut attempt: usize = 0;
        loop
            invariant
                attempt <= existing@.len(),
                forall|earlier: nat|
                    earlier < attempt ==> is_taken(
                        existing@,
                        #[trigger] candidate_name(base_path@, extension@, earlier),
                    ),
            decreases existing@.len() - attempt,
        {
            let name = candidate(base_path, extension, attempt);
            if !name_is_taken(existing, &name) {
                proof {
                    lemma_first_free_unique(base_path@, extension@, existing@, attempt as nat);
                }
                return name;
            }
            if attempt == existing.len() {
                proof {
                    lemma_some_candidate_free(base_path@, extension@, existing@);
                }
                return name;
            }
            attempt += 1;
        }
    }

    /// Scans the entries of a directory for files named
    /// `base_filename<N>.extension` and returns the one with the highest
    /// `N`, the first of them where several carry it. `entries` holds the
    /// paths of the directory's files, in the order they were listed.
    pub fn find_highest_numbered_file(
        entries: &Vec<String>,
        base_filename: &str,
        extension: &str,
    ) -> (found: Option<String>)
        ensures
            found matches Some(path) ==> exists|at: int|
                is_highest_numbered(entries@, base_filename@, extension@, at) && path@
                    == (#[trigger] entries@[at])@,
            found is None ==> forall|j: int|
                0 <= j < entries@.len() ==> (#[trigger] entry_number(
                    entries@[j]@,
                    base_filename@,
                    extension@,
                )) is None,
    {
        let wanted = String::from_str(extension);
        let base_len: usize = base_filename.unicode_len();
        let mut best: Option<(i32, usize)> = None;
        let mut i: usize = 0;
        while i < entries.len()
            invariant
                i <= entries@.len(),
                wanted@ == extension@,
                base_len == base_filename@.len(),
                best is None ==> forall|j: int|
                    0 <= j < i ==> (#[trigger] entry_number(
                        entries@[j]@,
                        base_filename@,
                        extension@,
                    )) is None,
                best matches Some(pair) ==> pair.1 < i && entry_number(
                    entries@[pair.1 as int]@,
                    base_filename@,
                    extension@,
                ) == Some(pair.0 as int) && forall|j: int|
                    0 <= j < i ==> match #[trigger] entry_number(
                        entries@[j]@,
                        base_filename@,
                        extension@,
                    ) {
                        Some(other) => other < pair.0 || (other == pair.0 && pair.1 <= j),
                        None => true,
                    },
            decreases entries@.len() - i,
        {
            let entry = entries[i].as_str();
            let number = match (extension_of(entry), file_stem_of(entry)) {
                (Some(found_extension), Some(stem)) => {
                    if found_extension == wanted && starts_with(stem.as_str(), base_filename) {
                        parse_number_from(stem.as_str(), base_len)
                    } else {
                        None
                    }
                },
                _ => None,
            };
            match number {
                Some(n) => {
                    let higher = match best {
                        Some(pair) => pair.0 < n,
                        None => true,
                    };
                    if higher {
                        best = Some((n, i));
                    }
                },
                None => {},
            }
            i += 1;
        }
        match best {
            Some(pair) => {
                proof {
                    assert(is_highest_numbered(
                        entries@,
                        base_filename@,
                        extension@,
                        pair.1 as int,
                    ));
                }
                Some(entries[pair.1].clone())
            },
            None => None,
        }
    }

    /// Loads the public key from the text of an armored file and keeps it.
    pub fn load_public_key(&mut self, content: &[u8]) -> (loaded: Result<PublicKey, CryptError>)
        ensures
            match load_artifact_spec(content@, KeyTypes::PublicKey, PUBLIC_KEY_BYTES as nat) {
                Ok(bytes) => loaded matches Ok(key) && key@ == bytes && final(self).public_bytes()
                    == Some(bytes),
                Err(e) => loaded == Err::<PublicKey, CryptError>(e) && final(self).public_key
                    == old(self).public_key,
            },
            final(self).secret_key == old(self).secret_key,
            final(self).shared_secret == old(self).shared_secret,
            final(self).ciphertext == old(self).ciphertext,
    {
        let bytes = match File::load(content, KeyTypes::PublicKey) {
            Ok(bytes) => bytes,
            Err(e) => { return Err(e); },
        };
        match PublicKey::from_bytes(bytes.as_slice()) {
            Some(key) => {
                self.public_key = Some(key.copy());
                Ok(key)
            },
            None => Err(CryptError::IOError),
        }
    }

    /// Loads the secret key from the text of an armored file and keeps it.
    pub fn load_secret_key(&mut self, content: &[u8]) -> (loaded: Result<SecretKey, CryptError>)
        ensures
            match load_artifact_spec(content@, KeyTypes::SecretKey, SECRET_KEY_BYTES as nat) {
                Ok(bytes) => loaded matches Ok(key) && key@ == bytes && final(self).secret_bytes()
                    == Some(bytes),
                Err(e) => loaded == Err::<SecretKey, CryptError>(e) && final(self).secret_key
                    == old(self).secret_key,
            },
            final(self).public_key == old(self).public_key,
            final(self).shared_secret == old(self).shared_secret,
            final(self).ciphertext == old(self).ciphertext,
    {
        let bytes = match File::load(content, KeyTypes::SecretKey) {
            Ok(bytes) => bytes,
            Err(e) => { return Err(e); },
        };
        match SecretKey::from_bytes(bytes.as_slice()) {
            Some(key) => {
                self.secret_key = Some(key.copy());
                Ok(key)
            },
            None => Err(CryptError::IOError),
        }
    }

    /// Loads the ciphertext from the text of an armored file and keeps it.
    pub fn load_ciphertext(&mut self, content: &[u8]) -> (loaded: Result<Ciphertext, CryptError>)
        ensures
            match load_artifact_spec(content@, KeyTypes::Ciphertext, CIPHERTEXT_BYTES as nat) {
                Ok(bytes) => loaded matches Ok(ciphertext) && ciphertext@ == bytes
                    && final(self).ciphertext_bytes() == Some(bytes),
                Err(e) => loaded == Err::<Ciphertext, CryptError>(e) && final(self).ciphertext
                    == old(self).ciphertext,
            },
            final(self).public_key == old(self).public_key,
            final(self).secret_key == old(self).secret_key,
            final(self).shared_secret == old(self).shared_secret,
    {
        let bytes = match File::load(content, KeyTypes::Ciphertext) {
            Ok(bytes) => bytes,
            Err(e) => { return Err(e); },
        };
        match Ciphertext::from_bytes(bytes.as_slice()) {
            Some(ciphertext) => {
                self.ciphertext = Some(ciphertext.copy());
                Ok(ciphertext)
            },
            None => Err(CryptError::IOError),
        }
    }

    /// Loads the shared secret from the text of an armored file and keeps it.
    pub fn load_shared_secret(&mut self, content: &[u8]) -> (loaded: Result<
        SharedSecret,
        CryptError,
    >)
        ensures
            match load_artifact_spec(content@, KeyTypes::SharedSecret, SHARED_SECRET_BYTES as nat) {
                Ok(bytes) => loaded matches Ok(secret) && secret@ == bytes
                    && final(self).shared_bytes() == Some(bytes),
                Err(e) => loaded == Err::<SharedSecret, CryptError>(e) && final(self).shared_secret
                    == old(self).shared_secret,
            },
            final(self).public_key == old(self).public_key,
            final(self).secret_key == old(self).secret_key,
            final(self).ciphertext == old(self).ciphertext,
    {
        let bytes = match File::load(content, KeyTypes::SharedSecret) {
            Ok(bytes) => bytes,
            Err(e) => { return Err(e); },
        };
        match SharedSecret::from_bytes(bytes.as_slice()) {
            Some(secret) => {
                self.shared_secret = Some(secret.copy());
                Ok(secret)
            },
            None => Err(CryptError::IOError),
        }
    }

    /// Reports the artifacts in hexadecimal, together with the shared secret
    /// recovered from the ciphertext with the secret key. Fails with
    /// `DecapsulationError` unless all four artifacts are present.
    pub fn show(&self) -> (report: Result<Vec<u8>, CryptError>)
        ensures
            match (
                self.public_bytes(),
                self.secret_bytes(),
                self.shared_bytes(),
                self.ciphertext_bytes(),
            ) {
                (Some(pk), Some(sk), Some(ss), Some(ct)) => report matches Ok(text) && text@
                    == report_spec(pk, sk, ss, kem_decapsulation(ct, sk)),
                _ => report == Err::<Vec<u8>, CryptError>(CryptError::DecapsulationError),
            },
    {
        match (&self.public_key, &self.secret_key, &self.shared_secret, &self.ciphertext) {
            (Some(pk), Some(sk), Some(ss), Some(ct)) => {
                let recovered = decapsulate(ct, sk);
                let mut text: Vec<u8> = Vec::new();
                append_bytes(&mut text, "Public Key: ".as_bytes());
                append_bytes(&mut text, hex_encode(pk.as_bytes()).as_slice());
                append_bytes(&mut text, "\n\nSecret Key: ".as_bytes());
                append_bytes(&mut text, hex_encode(sk.as_bytes()).as_slice());
                append_bytes(&mut text, "\n\nShared secret: ".as_bytes());
                append_bytes(&mut text, hex_encode(ss.as_bytes()).as_slice());
                append_bytes(&mut text, "\n\nDecapsulated shared secret: ".as_bytes());
                append_bytes(&mut text, hex_encode(recovered.as_bytes()).as_slice());
                Ok(text)
            },
            _ => Err(CryptError::DecapsulationError),
        }
    }

    /// Returns a copy of the public key, or `MissingPublicKey`.
    pub fn get_public_key(&self) -> (key: Result<PublicKey, CryptError>)
        ensures
            self.public_key is None ==> key == Err::<PublicKey, CryptError>(
                CryptError::MissingPublicKey,
            ),
            self.public_key matches Some(held) ==> key matches Ok(k) && k@ == held@,
    {
        match &self.public_key {
            Some(held) => Ok(held.copy()),
            None => Err(CryptError::MissingPublicKey),
        }
    }

    /// Returns a copy of the secret key, or `MissingSecretKey`.
    pub fn get_secret_key(&self) -> (key: Result<SecretKey, CryptError>)
        ensures
            self.secret_key is None ==> key == Err::<SecretKey, CryptError>(
                CryptError::MissingSecretKey,
            ),
            self.secret_key matches Some(held) ==> key matches Ok(k) && k@ == held@,
    {
        match &self.secret_key {
            Some(held) => Ok(held.copy()),
            None => Err(CryptError::MissingSecretKey),
        }
    }

    /// Returns a copy of the ciphertext, or `MissingCiphertext`.
    pub fn get_ciphertext(&self) -> (ciphertext: Result<Ciphertext, CryptError>)
        ensures
            self.ciphertext is None ==> ciphertext == Err::<Ciphertext, CryptError>(
                CryptError::MissingCiphertext,
            ),
            self.ciphertext matches Some(held) ==> ciphertext matches Ok(c) && c@ == held@,
    {
        match &self.ciphertext {
            Some(held) => Ok(held.copy()),
            None => Err(CryptError::MissingCiphertext),
        }
    }

    /// Returns a copy of the shared secret, or `MissingSharedSecret`.
    pub fn get_shared_secret(&self) -> (secret: Result<SharedSecret, CryptError>)
        ensures
            self.shared_secret is None ==> secret == Err::<SharedSecret, CryptError>(
                CryptError::MissingSharedSecret,
            ),
            self.shared_secret matches Some(held) ==> secret matches Ok(s) && s@ == held@,
    {
        match &self.shared_secret {
            Some(held) => Ok(held.copy()),
            None => Err(CryptError::MissingSharedSecret),
        }
    }
}

/// An artifact that was stored loads again: the armored block of any bytes
/// gives those bytes back when an artifact of their length is asked for.
pub proof fn lemma_stored_artifact_loads(kind: KeyTypes, bytes: Seq<u8>)
    ensures
        load_artifact_spec(armor_spec(kind, bytes), kind, bytes.len()) == Ok::<
            Seq<u8>,
            CryptError,
        >(bytes),
{
    lemma_armor_round_trip(kind, bytes);
}

/// Once the artifact for one of the kinds is found missing, the failure for
/// it is what planning any longer list of kinds reports.
proof fn lemma_missing_stays_missing(
    keychain: &Keychain,
    base_path: Seq<char>,
    title: Seq<char>,
    existing: Seq<String>,
    kinds: Seq<KeyTypes>,
    upto: int,
)
    requires
        0 <= upto <= kinds.len(),
        keychain.planned_files(base_path, title, existing, kinds.subrange(0, upto)) is Err,
    ensures
        keychain.planned_files(base_path, title, existing, kinds) == keychain.planned_files(
            base_path,
            title,
            existing,
            kinds.subrange(0, upto),
        ),
    decreases kinds.len() - upto,
{
    if upto < kinds.len() {
        let longer = kinds.subrange(0, upto + 1);
        assert(longer.drop_last() =~= kinds.subrange(0, upto));
        lemma_missing_stays_missing(keychain, base_path, title, existing, kinds, upto + 1);
    } else {
        assert(kinds.subrange(0, upto) =~= kinds);
    }
}

} // verus!
