use crypt_guard::{Decrypt, Keychain};

fn names(list: &[&str]) -> Vec<String> {
    list.iter().map(|s| s.to_string()).collect()
}

#[test]
fn unique_filename_when_nothing_exists() {
    assert_eq!(Keychain::generate_unique_filename("alice", "pub", &names(&[])), "alice.pub");
}

#[test]
fn unique_filename_after_the_plain_name() {
    let existing = names(&["alice.pub"]);
    assert_eq!(Keychain::generate_unique_filename("alice", "pub", &existing), "alice_1.pub");
}

#[test]
fn unique_filename_after_the_first_counter() {
    let existing = names(&["alice.pub", "alice_1.pub"]);
    assert_eq!(Keychain::generate_unique_filename("alice", "pub", &existing), "alice_2.pub");
}

#[test]
fn unique_filename_takes_the_first_gap() {
    let existing = names(&["alice_2.pub", "alice.pub", "alice_3.pub"]);
    assert_eq!(Keychain::generate_unique_filename("alice", "pub", &existing), "alice_1.pub");
}

#[test]
fn unique_filename_ignores_other_names() {
    let existing = names(&["alice.sec", "bob.pub", "alice_1.pub", "alice.pu"]);
    assert_eq!(Keychain::generate_unique_filename("alice", "pub", &existing), "alice.pub");
}

#[test]
fn unique_filename_with_repeated_entries() {
    let existing = names(&["alice.pub", "alice.pub", "alice_1.pub", "alice_1.pub"]);
    assert_eq!(Keychain::generate_unique_filename("alice", "pub", &existing), "alice_2.pub");
}

#[test]
fn unique_filename_counts_past_nine() {
    let mut existing = vec![String::from("keys/alice/alice.ct")];
    for n in 1..=11 {
        existing.push(format!("keys/alice/alice_{}.ct", n));
    }
    assert_eq!(
        Keychain::generate_unique_filename("keys/alice/alice", "ct", &existing),
        "keys/alice/alice_12.ct"
    );
}

#[test]
fn unique_filename_counts_past_ninety_nine() {
    let mut existing = vec![String::from("a.x")];
    for n in 1..=120 {
        existing.push(format!("a_{}.x", n));
    }
    assert_eq!(Keychain::generate_unique_filename("a", "x", &existing), "a_121.x");
}

#[test]
fn unique_filename_is_never_an_existing_one() {
    let mut existing = Vec::new();
    for _ in 0..25 {
        let next = Keychain::generate_unique_filename("dir/name", "sec", &existing);
        assert!(!existing.contains(&next));
        existing.push(next);
    }
    assert_eq!(existing[0], "dir/name.sec");
    assert_eq!(existing[1], "dir/name_1.sec");
    assert_eq!(existing[24], "dir/name_24.sec");
}

#[test]
fn unique_filename_with_unicode_and_empty_parts() {
    assert_eq!(Keychain::generate_unique_filename("schlüssel", "pub", &names(&[])), "schlüssel.pub");
    assert_eq!(
        Keychain::generate_unique_filename("schlüssel", "pub", &names(&["schlüssel.pub"])),
        "schlüssel_1.pub"
    );
    assert_eq!(Keychain::generate_unique_filename("", "", &names(&["."])), "_1.");
}

#[test]
fn original_filename_strips_counter_and_extension() {
    let decryptor = Decrypt::new();
    assert_eq!(decryptor.generate_original_filename("out/report_1.enc"), "out/report");
    assert_eq!(decryptor.generate_original_filename("out/report_27.enc"), "out/report");
}

#[test]
fn original_filename_without_counter() {
    let decryptor = Decrypt::new();
    assert_eq!(decryptor.generate_original_filename("out/report.enc"), "out/report");
    assert_eq!(decryptor.generate_original_filename("out/report"), "out/report");
}

#[test]
fn original_filename_keeps_a_suffix_that_is_no_number() {
    let decryptor = Decrypt::new();
    assert_eq!(decryptor.generate_original_filename("out/my_file.enc"), "out/my_file");
    assert_eq!(decryptor.generate_original_filename("out/my_1a.enc"), "out/my_1a");
    assert_eq!(decryptor.generate_original_filename("out/my_a1.enc"), "out/my_a1");
}

#[test]
fn original_filename_strips_only_the_last_counter() {
    let decryptor = Decrypt::new();
    assert_eq!(decryptor.generate_original_filename("out/a_1_2.enc"), "out/a_1");
}

#[test]
fn original_filename_strips_a_bare_underscore() {
    let decryptor = Decrypt::new();
    assert_eq!(decryptor.generate_original_filename("out/name_.enc"), "out/name");
}

#[test]
fn original_filename_of_a_stem_that_is_all_counter() {
    let decryptor = Decrypt::new();
    assert_eq!(decryptor.generate_original_filename("out/_12.enc"), "out/");
    assert_eq!(decryptor.generate_original_filename("out/12.enc"), "out/12");
}

#[test]
fn original_filename_without_directory() {
    let decryptor = Decrypt::new();
    assert_eq!(decryptor.generate_original_filename("report_3.enc"), "/report");
}

#[test]
fn original_filename_with_nested_directories() {
    let decryptor = Decrypt::new();
    assert_eq!(decryptor.generate_original_filename("./a/b.c/data_5.tar.gz"), "./a/b.c/data_5.tar");
}

#[test]
fn original_filename_of_is_none_without_a_file_name() {
    let decryptor = Decrypt::new();
    assert_eq!(decryptor.original_filename_of(""), None);
    assert_eq!(decryptor.original_filename_of("/"), None);
    assert_eq!(decryptor.original_filename_of("dir/.."), None);
}

#[test]
fn original_filename_of_agrees_with_generate() {
    let decryptor = Decrypt::new();
    assert_eq!(decryptor.original_filename_of("x/y_9.bin"), Some(String::from("x/y")));
}

#[test]
fn highest_numbered_file_picks_the_largest_number() {
    let entries = names(&["keys/alice1.pub", "keys/alice12.pub", "keys/alice3.pub"]);
    assert_eq!(
        Keychain::find_highest_numbered_file(&entries, "alice", "pub"),
        Some(String::from("keys/alice12.pub"))
    );
}

#[test]
fn highest_numbered_file_ignores_other_extensions_and_names() {
    let entries = names(&[
        "keys/alice9.sec",
        "keys/bob99.pub",
        "keys/alice2.pub",
        "keys/alice.pub",
        "keys/alicex5.pub",
        "keys/alice7.pub.bak",
    ]);
    assert_eq!(
        Keychain::find_highest_numbered_file(&entries, "alice", "pub"),
        Some(String::from("keys/alice2.pub"))
    );
}

#[test]
fn highest_numbered_file_none_when_nothing_matches() {
    let entries = names(&["keys/alice.pub", "keys/alice_x.pub", "keys/other1.pub"]);
    assert_eq!(Keychain::find_highest_numbered_file(&entries, "alice", "pub"), None);
    assert_eq!(Keychain::find_highest_numbered_file(&names(&[]), "alice", "pub"), None);
}

#[test]
fn highest_numbered_file_first_of_equal_numbers_wins() {
    let entries = names(&["d/k01.ct", "d/k1.ct", "d/k+1.ct"]);
    assert_eq!(
        Keychain::find_highest_numbered_file(&entries, "k", "ct"),
        Some(String::from("d/k01.ct"))
    );
}

#[test]
fn highest_numbered_file_reads_signs() {
    let entries = names(&["d/k-5.ct", "d/k-2.ct", "d/k-9.ct"]);
    assert_eq!(
        Keychain::find_highest_numbered_file(&entries, "k", "ct"),
        Some(String::from("d/k-2.ct"))
    );
    let entries = names(&["d/k-5.ct", "d/k+4.ct", "d/k3.ct"]);
    assert_eq!(
        Keychain::find_highest_numbered_file(&entries, "k", "ct"),
        Some(String::from("d/k+4.ct"))
    );
}

#[test]
fn highest_numbered_file_with_the_counter_of_a_unique_name() {
    let entries = names(&["d/alice_1.pub", "d/alice_2.pub", "d/alice_10.pub"]);
    assert_eq!(
        Keychain::find_highest_numbered_file(&entries, "alice_", "pub"),
        Some(String::from("d/alice_10.pub"))
    );
    assert_eq!(Keychain::find_highest_numbered_file(&entries, "alice", "pub"), None);
}

#[test]
fn highest_numbered_file_bounds_of_the_number() {
    let entries = names(&["d/k2147483647.x", "d/k2147483648.x", "d/k5.x"]);
    assert_eq!(
        Keychain::find_highest_numbered_file(&entries, "k", "x"),
        Some(String::from("d/k2147483647.x"))
    );
    let entries = names(&["d/k-2147483649.x", "d/k-2147483648.x"]);
    assert_eq!(
        Keychain::find_highest_numbered_file(&entries, "k", "x"),
        Some(String::from("d/k-2147483648.x"))
    );
    let entries = names(&["d/k99999999999999999999.x", "d/k00000000000000000007.x"]);
    assert_eq!(
        Keychain::find_highest_numbered_file(&entries, "k", "x"),
        Some(String::from("d/k00000000000000000007.x"))
    );
}

#[test]
fn highest_numbered_file_rejects_lone_signs_and_spaces() {
    let entries = names(&["d/k+.x", "d/k-.x", "d/k 1.x", "d/k1 .x", "d/k--1.x"]);
    assert_eq!(Keychain::find_highest_numbered_file(&entries, "k", "x"), None);
}

#[test]
fn highest_numbered_file_agrees_with_std_parsing() {
    let stems = ["7", "+7", "-7", "007", "", "+", "-", "7a", " 7", "2147483647", "2147483648",
        "-2147483648", "-2147483649", "١"];
    for stem in stems {
        let entries = vec![format!("d/k{}.x", stem)];
        let found = Keychain::find_highest_numbered_file(&entries, "k", "x");
        assert_eq!(found.is_some(), stem.parse::<i32>().is_ok(), "stem {:?}", stem);
    }
}
