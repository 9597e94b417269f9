use crypt_guard::bytes::{equal, find_subarray, is_space_byte, occurs_here, rfind_subarray, trim};
use crypt_guard::cipher::remove_padding;
use crypt_guard::filename::{candidate, decimal_string, name_is_taken};
use crypt_guard::path::{
    is_digit_char, original_filename, parse_number_from, starts_with, strip_counter_of,
};

#[test]
fn find_subarray_first_position() {
    assert_eq!(find_subarray(b"abcabcabc", b"bc"), Some(1));
    assert_eq!(find_subarray(b"abcabcabc", b"abc"), Some(0));
    assert_eq!(find_subarray(b"aaab", b"ab"), Some(2));
    assert_eq!(find_subarray(b"abc", b"c"), Some(2));
    assert_eq!(find_subarray(b"abc", b"abc"), Some(0));
}

#[test]
fn find_subarray_absent() {
    assert_eq!(find_subarray(b"abcabc", b"cb"), None);
    assert_eq!(find_subarray(b"abc", b"abcd"), None);
    assert_eq!(find_subarray(b"", b"a"), None);
}

#[test]
fn find_subarray_of_nothing_is_at_the_start() {
    assert_eq!(find_subarray(b"abc", b""), Some(0));
    assert_eq!(find_subarray(b"", b""), Some(0));
}

#[test]
fn find_subarray_agrees_with_str_find() {
    let text = "-----BEGIN X----------BEGIN X-----aa-----END X-----";
    for needle in ["-----BEGIN X-----", "-----END X-----", "aa", "-", "X-----a", "zz"] {
        assert_eq!(find_subarray(text.as_bytes(), needle.as_bytes()), text.find(needle));
        assert_eq!(rfind_subarray(text.as_bytes(), needle.as_bytes()), text.rfind(needle));
    }
}

#[test]
fn rfind_subarray_last_position() {
    assert_eq!(rfind_subarray(b"abcabcabc", b"bc"), Some(7));
    assert_eq!(rfind_subarray(b"abcabcabc", b"abc"), Some(6));
    assert_eq!(rfind_subarray(b"abab", b"aba"), Some(0));
    assert_eq!(rfind_subarray(b"abc", b"x"), None);
    assert_eq!(rfind_subarray(b"ab", b"abc"), None);
    assert_eq!(rfind_subarray(b"abc", b""), Some(3));
}

#[test]
fn occurs_here_at_a_position() {
    assert!(occurs_here(b"hello", b"ell", 1));
    assert!(!occurs_here(b"hello", b"ell", 0));
    assert!(occurs_here(b"hello", b"", 5));
    assert!(occurs_here(b"hello", b"hello", 0));
}

#[test]
fn equal_byte_strings() {
    assert!(equal(b"", b""));
    assert!(equal(b"abc", b"abc"));
    assert!(!equal(b"abc", b"abd"));
    assert!(!equal(b"abc", b"ab"));
    assert!(!equal(b"ab", b"abc"));
}

#[test]
fn trim_removes_white_space_at_both_ends() {
    assert_eq!(trim(b"  \t\r\nab cd\n \x0b\x0c"), b"ab cd");
    assert_eq!(trim(b"abc"), b"abc");
    assert_eq!(trim(b" a"), b"a");
    assert_eq!(trim(b"a "), b"a");
}

#[test]
fn trim_of_white_space_only() {
    assert_eq!(trim(b" \n\t "), b"");
    assert_eq!(trim(b""), b"");
}

#[test]
fn trim_keeps_other_bytes() {
    assert_eq!(trim(b"\x00a\x00"), b"\x00a\x00");
    assert_eq!(trim(b"\x1fa\x7f"), b"\x1fa\x7f");
    assert_eq!(trim("\u{200b}a\u{feff}".as_bytes()), "\u{200b}a\u{feff}".as_bytes());
    assert_eq!(trim(&[0xc2, b'a', 0x85]), &[0xc2, b'a', 0x85]);
}

#[test]
fn trim_removes_white_space_of_several_bytes() {
    assert_eq!(trim("\u{a0}a\u{a0}".as_bytes()), b"a");
    assert_eq!(trim("\u{85}\u{1680} \u{2003}a b\u{3000}\u{2028}\n\u{205f}".as_bytes()), b"a b");
    assert_eq!(trim("\u{2029}\u{202f}".as_bytes()), b"");
}

#[test]
fn trim_removes_exactly_the_white_space_characters() {
    for code in 0..=0x10ffffu32 {
        if let Some(c) = char::from_u32(code) {
            let text = format!("{}x{}", c, c);
            let expected = if c.is_whitespace() { "x" } else { text.as_str() };
            assert_eq!(trim(text.as_bytes()), expected.as_bytes(), "U+{:04X}", code);
        }
    }
}

#[test]
fn trim_agrees_with_str_trim() {
    let texts = [
        "", " ", "a", "  a  ", "\t\na b\r\n", "\u{a0}\u{2000}ab\u{200a}\u{3000}", "é ", " é",
        "\u{85}é\u{85}", "日本語\u{3000}", "\u{3000}日本語", "a\u{200b}", "\u{1680}\u{1681}",
        " \u{2028}x\u{2029} ", "x\u{c2}", "\u{e2}x",
    ];
    for text in texts {
        assert_eq!(trim(text.as_bytes()), text.trim().as_bytes(), "text {:?}", text);
    }
}

#[test]
fn space_bytes() {
    for byte in 0..=255u8 {
        let expected = matches!(byte, 9 | 10 | 11 | 12 | 13 | 32);
        assert_eq!(is_space_byte(byte), expected, "byte {}", byte);
    }
}

#[test]
fn remove_padding_strips_zero_bytes_at_the_end() {
    let mut data = vec![1, 0, 2, 0, 0];
    remove_padding(&mut data);
    assert_eq!(data, [1, 0, 2]);
    let mut data = vec![0, 0, 0];
    remove_padding(&mut data);
    assert!(data.is_empty());
    let mut data = vec![0, 1];
    remove_padding(&mut data);
    assert_eq!(data, [0, 1]);
    let mut data: Vec<u8> = Vec::new();
    remove_padding(&mut data);
    assert!(data.is_empty());
}

#[test]
fn decimal_string_writes_numbers() {
    assert_eq!(decimal_string(0), "0");
    assert_eq!(decimal_string(7), "7");
    assert_eq!(decimal_string(10), "10");
    assert_eq!(decimal_string(1203), "1203");
    assert_eq!(decimal_string(usize::MAX), usize::MAX.to_string());
    for n in 0..300usize {
        assert_eq!(decimal_string(n), n.to_string());
    }
}

#[test]
fn candidate_names_in_order() {
    assert_eq!(candidate("a/b", "pub", 0), "a/b.pub");
    assert_eq!(candidate("a/b", "pub", 1), "a/b_1.pub");
    assert_eq!(candidate("a/b", "pub", 42), "a/b_42.pub");
    assert_eq!(candidate("", "", 0), ".");
}

#[test]
fn name_is_taken_looks_at_every_entry() {
    let existing = vec!["a".to_string(), "b".to_string(), "c".to_string()];
    assert!(name_is_taken(&existing, &"a".to_string()));
    assert!(name_is_taken(&existing, &"c".to_string()));
    assert!(!name_is_taken(&existing, &"d".to_string()));
    assert!(!name_is_taken(&Vec::new(), &"a".to_string()));
}

#[test]
fn digit_characters() {
    for c in "0123456789".chars() {
        assert!(is_digit_char(c));
    }
    for c in "/:aA _-+٣²".chars() {
        assert!(!is_digit_char(c));
    }
}

#[test]
fn strip_counter_of_stems() {
    assert_eq!(strip_counter_of("name_12"), "name");
    assert_eq!(strip_counter_of("name_"), "name");
    assert_eq!(strip_counter_of("name"), "name");
    assert_eq!(strip_counter_of("name12"), "name12");
    assert_eq!(strip_counter_of("na_me_3"), "na_me");
    assert_eq!(strip_counter_of("name_1x"), "name_1x");
    assert_eq!(strip_counter_of("_5"), "");
    assert_eq!(strip_counter_of("5"), "5");
    assert_eq!(strip_counter_of(""), "");
    assert_eq!(strip_counter_of("größe_7"), "größe");
    assert_eq!(strip_counter_of("name_٣"), "name_٣");
}

#[test]
fn original_filename_joins_directory_and_stem() {
    assert_eq!(original_filename("dir", "file_2"), "dir/file");
    assert_eq!(original_filename("", "file"), "/file");
    assert_eq!(original_filename("a/b", "c_d"), "a/b/c_d");
}

#[test]
fn parse_number_from_a_position() {
    assert_eq!(parse_number_from("key12", 3), Some(12));
    assert_eq!(parse_number_from("key-12", 3), Some(-12));
    assert_eq!(parse_number_from("key+12", 3), Some(12));
    assert_eq!(parse_number_from("key012", 3), Some(12));
    assert_eq!(parse_number_from("key", 3), None);
    assert_eq!(parse_number_from("key-", 3), None);
    assert_eq!(parse_number_from("key1a", 3), None);
    assert_eq!(parse_number_from("12", 0), Some(12));
    assert_eq!(parse_number_from("schlüssel7", 9), Some(7));
}

#[test]
fn parse_number_from_agrees_with_std() {
    let texts = [
        "0", "-0", "+0", "1", "-1", "2147483647", "2147483648", "-2147483648", "-2147483649",
        "99999999999", "-99999999999", "000000000000000000001", "", "-", "+", "--1", "+-1", "1 ",
        " 1", "1_000", "0x10", "1e3", "١٢", "٣", "12a", "a12",
    ];
    for text in texts {
        assert_eq!(parse_number_from(text, 0), text.parse::<i32>().ok(), "text {:?}", text);
    }
}

#[test]
fn starts_with_prefixes() {
    assert!(starts_with("alice_1", "alice"));
    assert!(starts_with("alice", "alice"));
    assert!(starts_with("alice", ""));
    assert!(!starts_with("alic", "alice"));
    assert!(!starts_with("blice", "alice"));
    assert!(starts_with("größe1", "größe"));
    assert!(!starts_with("grosse1", "größe"));
}
