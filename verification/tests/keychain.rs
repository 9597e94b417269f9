use crypt_guard::kem::{decapsulate, encapsulate, keypair};
use crypt_guard::{
    ArtifactFile, Ciphertext, CryptError, File, HexError, KeyTypes, Keychain, PublicKey, SavePlan,
    SecretKey, SharedSecret,
};

fn on_large_stack<T: Send + 'static>(work: impl FnOnce() -> T + Send + 'static) -> T {
    let runtime = tokio::runtime::Builder::new_multi_thread()
        .worker_threads(1)
        .thread_stack_size(1 << 30)
        .build()
        .unwrap();
    runtime.block_on(runtime.spawn(async move { work() })).unwrap()
}

fn empty() -> Keychain {
    Keychain { public_key: None, secret_key: None, shared_secret: None, ciphertext: None }
}

fn pattern(len: usize, seed: u8) -> Vec<u8> {
    (0..len).map(|i| (i as u8).wrapping_mul(13).wrapping_add(seed)).collect()
}

fn small() -> Keychain {
    Keychain {
        public_key: None,
        secret_key: Some(SecretKey::from_bytes(&pattern(14120, 1)).unwrap()),
        shared_secret: Some(SharedSecret::from_bytes(&pattern(32, 2)).unwrap()),
        ciphertext: Some(Ciphertext::from_bytes(&pattern(208, 3)).unwrap()),
    }
}

fn names(list: &[&str]) -> Vec<String> {
    list.iter().map(|s| s.to_string()).collect()
}

#[test]
fn artifact_lengths() {
    assert!(PublicKey::from_bytes(&vec![0u8; 1357824]).is_some());
    assert!(PublicKey::from_bytes(&vec![0u8; 1357823]).is_none());
    assert!(SecretKey::from_bytes(&vec![0u8; 14120]).is_some());
    assert!(SecretKey::from_bytes(&vec![0u8; 14121]).is_none());
    assert!(Ciphertext::from_bytes(&vec![0u8; 208]).is_some());
    assert!(Ciphertext::from_bytes(&vec![0u8; 207]).is_none());
    assert!(SharedSecret::from_bytes(&vec![0u8; 32]).is_some());
    assert!(SharedSecret::from_bytes(&vec![0u8; 33]).is_none());
    assert!(SharedSecret::from_bytes(&[]).is_none());
}

#[test]
fn artifact_keeps_its_bytes() {
    let bytes = pattern(208, 9);
    let ciphertext = Ciphertext::from_bytes(&bytes).unwrap();
    assert_eq!(ciphertext.as_bytes(), &bytes[..]);
    assert_eq!(ciphertext.copy(), ciphertext);
}

#[test]
fn generated_identity_is_complete_and_consistent() {
    on_large_stack(|| {
        let keychain = Keychain::new().unwrap();
        let public_key = keychain.public_key.as_ref().unwrap();
        let secret_key = keychain.secret_key.as_ref().unwrap();
        let shared_secret = keychain.shared_secret.as_ref().unwrap();
        let ciphertext = keychain.ciphertext.as_ref().unwrap();
        assert_eq!(public_key.as_bytes().len(), 1357824);
        assert_eq!(secret_key.as_bytes().len(), 14120);
        assert_eq!(shared_secret.as_bytes().len(), 32);
        assert_eq!(ciphertext.as_bytes().len(), 208);
        assert_eq!(&decapsulate(ciphertext, secret_key), shared_secret);
    });
}

#[test]
fn decapsulation_recovers_the_secret_of_every_generation() {
    on_large_stack(|| {
        let mut secrets = Vec::new();
        for _ in 0..3 {
            let keychain = Keychain::new().unwrap();
            let recovered = decapsulate(
                keychain.ciphertext.as_ref().unwrap(),
                keychain.secret_key.as_ref().unwrap(),
            );
            assert_eq!(Some(&recovered), keychain.shared_secret.as_ref());
            secrets.push(recovered);
        }
        assert_ne!(secrets[0], secrets[1]);
        assert_ne!(secrets[1], secrets[2]);
    });
}

#[test]
fn decapsulation_of_fresh_encapsulations() {
    on_large_stack(|| {
        let (public_key, secret_key) = keypair();
        let (first, first_ct) = encapsulate(&public_key);
        let (second, second_ct) = encapsulate(&public_key);
        assert_ne!(first_ct, second_ct);
        assert_eq!(decapsulate(&first_ct, &secret_key), first);
        assert_eq!(decapsulate(&second_ct, &secret_key), second);
        assert_eq!(decapsulate(&first_ct, &secret_key), decapsulate(&first_ct, &secret_key));
    });
}

#[test]
fn decapsulation_with_a_foreign_ciphertext_gives_another_secret() {
    on_large_stack(|| {
        let keychain = Keychain::new().unwrap();
        let mut bytes = keychain.ciphertext.as_ref().unwrap().as_bytes().to_vec();
        bytes[0] ^= 1;
        let foreign = Ciphertext::from_bytes(&bytes).unwrap();
        let recovered = decapsulate(&foreign, keychain.secret_key.as_ref().unwrap());
        assert_eq!(recovered.as_bytes().len(), 32);
        assert_ne!(Some(&recovered), keychain.shared_secret.as_ref());
    });
}

#[test]
fn from_encapsulation_checks_the_round_trip() {
    on_large_stack(|| {
        let (public_key, secret_key) = keypair();
        let (shared_secret, ciphertext) = encapsulate(&public_key);
        let made = Keychain::from_encapsulation(
            public_key.copy(),
            secret_key.copy(),
            shared_secret.copy(),
            ciphertext.copy(),
        )
        .unwrap();
        assert_eq!(made.public_key, Some(public_key.copy()));
        assert_eq!(made.secret_key, Some(secret_key.copy()));
        assert_eq!(made.shared_secret, Some(shared_secret.copy()));
        assert_eq!(made.ciphertext, Some(ciphertext.copy()));

        let mut bytes = shared_secret.as_bytes().to_vec();
        bytes[31] ^= 1;
        let other = SharedSecret::from_bytes(&bytes).unwrap();
        assert_eq!(
            Keychain::from_encapsulation(public_key, secret_key, other, ciphertext),
            Err(CryptError::EncapsulationError)
        );
    });
}

#[test]
fn generated_key_pair_only() {
    on_large_stack(|| {
        let keychain = Keychain::new_keys().unwrap();
        assert!(keychain.public_key.is_some());
        assert!(keychain.secret_key.is_some());
        assert!(keychain.shared_secret.is_none());
        assert!(keychain.ciphertext.is_none());
        assert_eq!(keychain.get_shared_secret(), Err(CryptError::MissingSharedSecret));
    });
}

#[test]
fn getters_report_what_is_missing() {
    let keychain = empty();
    assert_eq!(keychain.get_public_key(), Err(CryptError::MissingPublicKey));
    assert_eq!(keychain.get_secret_key(), Err(CryptError::MissingSecretKey));
    assert_eq!(keychain.get_ciphertext(), Err(CryptError::MissingCiphertext));
    assert_eq!(keychain.get_shared_secret(), Err(CryptError::MissingSharedSecret));
}

#[test]
fn getters_return_copies() {
    let keychain = small();
    assert_eq!(keychain.get_public_key(), Err(CryptError::MissingPublicKey));
    assert_eq!(keychain.get_secret_key().unwrap().as_bytes(), &pattern(14120, 1)[..]);
    assert_eq!(keychain.get_shared_secret().unwrap().as_bytes(), &pattern(32, 2)[..]);
    assert_eq!(keychain.get_ciphertext().unwrap().as_bytes(), &pattern(208, 3)[..]);
    let public = PublicKey::from_bytes(&pattern(1357824, 5)).unwrap();
    let keychain = Keychain { public_key: Some(public.copy()), ..empty() };
    assert_eq!(keychain.get_public_key(), Ok(public));
}

#[test]
fn load_secret_key_sets_only_that_field() {
    let bytes = pattern(14120, 7);
    let content = File::encode(&bytes, KeyTypes::SecretKey);
    let mut keychain = empty();
    let loaded = keychain.load_secret_key(&content).unwrap();
    assert_eq!(loaded.as_bytes(), &bytes[..]);
    assert_eq!(keychain.secret_key, Some(loaded));
    assert!(keychain.public_key.is_none());
    assert!(keychain.shared_secret.is_none());
    assert!(keychain.ciphertext.is_none());
}

#[test]
fn load_replaces_a_field_and_keeps_the_others() {
    let mut keychain = small();
    let bytes = pattern(208, 77);
    let loaded = keychain.load_ciphertext(&File::encode(&bytes, KeyTypes::Ciphertext)).unwrap();
    assert_eq!(loaded.as_bytes(), &bytes[..]);
    assert_eq!(keychain.ciphertext.as_ref().unwrap().as_bytes(), &bytes[..]);
    assert_eq!(keychain.secret_key, small().secret_key);
    assert_eq!(keychain.shared_secret, small().shared_secret);
    assert!(keychain.public_key.is_none());
}

#[test]
fn load_public_key_and_shared_secret() {
    let mut keychain = empty();
    let public = pattern(1357824, 21);
    let loaded = keychain.load_public_key(&File::encode(&public, KeyTypes::PublicKey)).unwrap();
    assert_eq!(loaded.as_bytes(), &public[..]);
    let secret = pattern(32, 22);
    let loaded = keychain.load_shared_secret(&File::encode(&secret, KeyTypes::SharedSecret)).unwrap();
    assert_eq!(loaded.as_bytes(), &secret[..]);
    assert_eq!(keychain.public_key.as_ref().unwrap().as_bytes(), &public[..]);
    assert_eq!(keychain.shared_secret.as_ref().unwrap().as_bytes(), &secret[..]);
    assert!(keychain.secret_key.is_none());
    assert!(keychain.ciphertext.is_none());
}

#[test]
fn load_of_a_wrong_length_is_io_error_and_changes_nothing() {
    let mut keychain = small();
    let short = File::encode(&pattern(207, 1), KeyTypes::Ciphertext);
    assert_eq!(keychain.load_ciphertext(&short), Err(CryptError::IOError));
    let long = File::encode(&pattern(33, 1), KeyTypes::SharedSecret);
    assert_eq!(keychain.load_shared_secret(&long), Err(CryptError::IOError));
    let none = File::encode(&[], KeyTypes::SecretKey);
    assert_eq!(keychain.load_secret_key(&none), Err(CryptError::IOError));
    let truncated = File::encode(&pattern(1000, 1), KeyTypes::PublicKey);
    assert_eq!(keychain.load_public_key(&truncated), Err(CryptError::IOError));
    assert_eq!(keychain, small());
}

#[test]
fn load_of_a_block_of_another_kind_is_io_error() {
    let mut keychain = empty();
    let content = File::encode(&pattern(32, 1), KeyTypes::SharedSecret);
    assert_eq!(keychain.load_secret_key(&content), Err(CryptError::IOError));
    assert_eq!(keychain.load_ciphertext(&content), Err(CryptError::IOError));
    assert_eq!(keychain.load_public_key(b"no markers here"), Err(CryptError::IOError));
    assert_eq!(keychain, empty());
}

#[test]
fn load_of_bad_hex_is_hex_error() {
    let mut keychain = small();
    let content = b"-----BEGIN SHARED SECRET-----\n00zz\n-----END SHARED SECRET-----".to_vec();
    assert_eq!(
        keychain.load_shared_secret(&content),
        Err(CryptError::HexError(HexError::InvalidHexCharacter { c: 'z', index: 2 }))
    );
    let content = b"-----BEGIN CIPHERTEXT-----\n000\n-----END CIPHERTEXT-----".to_vec();
    assert_eq!(keychain.load_ciphertext(&content), Err(CryptError::HexError(HexError::OddLength)));
    assert_eq!(keychain, small());
}

fn full() -> Keychain {
    Keychain { public_key: Some(PublicKey::from_bytes(&pattern(1357824, 4)).unwrap()), ..small() }
}

#[test]
fn save_plans_all_four_files() {
    let plan = full().save("keys", "alice", &names(&[])).unwrap();
    assert_eq!(plan.directory, "keys/alice");
    let paths: Vec<&str> = plan.files.iter().map(|f| f.path.as_str()).collect();
    assert_eq!(
        paths,
        ["keys/alice/alice.pub", "keys/alice/alice.sec", "keys/alice/alice.ss", "keys/alice/alice.ct"]
    );
    assert_eq!(plan.files[0].contents, File::encode(&pattern(1357824, 4), KeyTypes::PublicKey));
    assert_eq!(plan.files[1].contents, File::encode(&pattern(14120, 1), KeyTypes::SecretKey));
    assert_eq!(plan.files[2].contents, File::encode(&pattern(32, 2), KeyTypes::SharedSecret));
    assert_eq!(plan.files[3].contents, File::encode(&pattern(208, 3), KeyTypes::Ciphertext));
}

#[test]
fn save_writes_the_armored_text() {
    let plan = small().save_shared_secret("k", "t", &names(&[])).unwrap();
    let mut expected = b"-----BEGIN SHARED SECRET-----\n".to_vec();
    expected.extend_from_slice(hex::encode(pattern(32, 2)).as_bytes());
    expected.extend_from_slice(b"\n-----END SHARED SECRET-----");
    assert_eq!(
        plan,
        SavePlan {
            directory: "k/t".to_string(),
            files: vec![ArtifactFile { path: "k/t/t.ss".to_string(), contents: expected }],
        }
    );
}

#[test]
fn save_avoids_existing_names_per_extension() {
    let existing = names(&[
        "keys/alice/alice.pub",
        "keys/alice/alice_1.pub",
        "keys/alice/alice.ct",
        "keys/alice/alice_1.sec",
    ]);
    let plan = full().save("keys", "alice", &existing).unwrap();
    let paths: Vec<&str> = plan.files.iter().map(|f| f.path.as_str()).collect();
    assert_eq!(
        paths,
        [
            "keys/alice/alice_2.pub",
            "keys/alice/alice.sec",
            "keys/alice/alice.ss",
            "keys/alice/alice_1.ct"
        ]
    );
}

#[test]
fn save_names_the_first_missing_artifact() {
    assert_eq!(empty().save("k", "t", &names(&[])), Err(CryptError::MissingPublicKey));
    assert_eq!(small().save("k", "t", &names(&[])), Err(CryptError::MissingPublicKey));
    let no_secret = Keychain { secret_key: None, shared_secret: None, ..full() };
    assert_eq!(no_secret.save("k", "t", &names(&[])), Err(CryptError::MissingSecretKey));
    let no_shared = Keychain { shared_secret: None, ciphertext: None, ..full() };
    assert_eq!(no_shared.save("k", "t", &names(&[])), Err(CryptError::MissingSharedSecret));
    let no_ciphertext = Keychain { ciphertext: None, ..full() };
    assert_eq!(no_ciphertext.save("k", "t", &names(&[])), Err(CryptError::MissingCiphertext));
}

#[test]
fn save_keys_plans_the_key_pair() {
    let keys = Keychain { shared_secret: None, ciphertext: None, ..full() };
    let plan = keys.save_keys("base", "bob", &names(&["base/bob/bob.sec"])).unwrap();
    assert_eq!(plan.directory, "base/bob");
    assert_eq!(plan.files.len(), 2);
    assert_eq!(plan.files[0].path, "base/bob/bob.pub");
    assert_eq!(plan.files[1].path, "base/bob/bob_1.sec");
    assert_eq!(plan.files[1].contents, File::encode(&pattern(14120, 1), KeyTypes::SecretKey));
    assert_eq!(small().save_keys("base", "bob", &names(&[])), Err(CryptError::MissingPublicKey));
    let no_secret = Keychain { secret_key: None, ..full() };
    assert_eq!(no_secret.save_keys("base", "bob", &names(&[])), Err(CryptError::MissingSecretKey));
}

#[test]
fn save_single_artifacts() {
    let keychain = small();
    let plan = keychain.save_secret_key("d", "n", &names(&[])).unwrap();
    assert_eq!(plan.directory, "d/n");
    assert_eq!(plan.files.len(), 1);
    assert_eq!(plan.files[0].path, "d/n/n.sec");
    assert_eq!(plan.files[0].contents, File::encode(&pattern(14120, 1), KeyTypes::SecretKey));
    let plan = keychain.save_ciphertext("d", "n", &names(&["d/n/n.ct"])).unwrap();
    assert_eq!(plan.files.len(), 1);
    assert_eq!(plan.files[0].path, "d/n/n_1.ct");
    assert_eq!(plan.files[0].contents, File::encode(&pattern(208, 3), KeyTypes::Ciphertext));
    assert_eq!(keychain.save_public_key("d", "n", &names(&[])), Err(CryptError::MissingPublicKey));
    let plan = full().save_public_key("d", "n", &names(&[])).unwrap();
    assert_eq!(plan.files[0].path, "d/n/n.pub");
    assert_eq!(plan.files[0].contents, File::encode(&pattern(1357824, 4), KeyTypes::PublicKey));
}

#[test]
fn save_single_artifacts_that_are_missing() {
    let keychain = empty();
    assert_eq!(keychain.save_secret_key("d", "n", &names(&[])), Err(CryptError::MissingSecretKey));
    assert_eq!(keychain.save_ciphertext("d", "n", &names(&[])), Err(CryptError::MissingCiphertext));
    assert_eq!(
        keychain.save_shared_secret("d", "n", &names(&[])),
        Err(CryptError::MissingSharedSecret)
    );
}

#[test]
fn saved_artifacts_load_again() {
    let keychain = small();
    let secret = keychain.save_secret_key("d", "n", &names(&[])).unwrap();
    let ciphertext = keychain.save_ciphertext("d", "n", &names(&[])).unwrap();
    let shared = keychain.save_shared_secret("d", "n", &names(&[])).unwrap();
    let mut loaded = empty();
    loaded.load_secret_key(&secret.files[0].contents).unwrap();
    loaded.load_ciphertext(&ciphertext.files[0].contents).unwrap();
    loaded.load_shared_secret(&shared.files[0].contents).unwrap();
    assert_eq!(loaded, keychain);
}

#[test]
fn show_needs_all_four_artifacts() {
    assert_eq!(empty().show(), Err(CryptError::DecapsulationError));
    assert_eq!(small().show(), Err(CryptError::DecapsulationError));
    let no_shared = Keychain { shared_secret: None, ..full() };
    assert_eq!(no_shared.show(), Err(CryptError::DecapsulationError));
}

#[test]
fn show_reports_the_artifacts_and_the_recovered_secret() {
    on_large_stack(|| {
        let keychain = Keychain::new().unwrap();
        let report = String::from_utf8(keychain.show().unwrap()).unwrap();
        let shared = hex::encode(keychain.shared_secret.as_ref().unwrap().as_bytes());
        let expected = format!(
            "Public Key: {}\n\nSecret Key: {}\n\nShared secret: {}\n\nDecapsulated shared secret: {}",
            hex::encode(keychain.public_key.as_ref().unwrap().as_bytes()),
            hex::encode(keychain.secret_key.as_ref().unwrap().as_bytes()),
            shared,
            shared
        );
        assert!(report == expected);
    });
}
