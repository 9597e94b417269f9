//! Names derived from the paths of artifact files.
//!
//! Splitting a path into its directory, stem and extension is done by
//! `std::path`; what is done with the parts is this module's own.

use vstd::prelude::*;
use vstd::string::*;

verus! {

/// The directory part of a path, as `std::path::Path::parent` gives it on the
/// platform the crate is built for.
pub uninterp spec fn path_parent(path: Seq<char>) -> Option<Seq<char>>;

/// The file name of a path without its extension, as
/// `std::path::Path::file_stem` gives it.
pub uninterp spec fn path_file_stem(path: Seq<char>) -> Option<Seq<char>>;

/// The extension of a path, as `std::path::Path::extension` gives it.
pub uninterp spec fn path_extension(path: Seq<char>) -> Option<Seq<char>>;

/// An optional text, with the text taken as a sequence of characters.
pub open spec fn text_option_view(text: Option<String>) -> Option<Seq<char>> {
    match text {
        Some(t) => Some(t@),
        None => None,
    }
}

/// Calls `Path::parent`.
///
/// Trusted: the result is a function of the path's text alone; it is only
/// given a name.
#[verifier::external_body]
pub(crate) fn parent_of(path: &str) -> (parent: Option<String>)
    ensures
        text_option_view(parent) == path_parent(path@),
{
    match std::path::Path::new(path).parent() {
        Some(dir) => Some(dir.to_string_lossy().into_owned()),
        None => None,
    }
}

/// Calls `Path::file_stem`.
///
/// Trusted: the result is a function of the path's text alone; it is only
/// given a name.
#[verifier::external_body]
pub(crate) fn file_stem_of(path: &str) -> (stem: Option<String>)
    ensures
        text_option_view(stem) == path_file_stem(path@),
{
    match std::path::Path::new(path).file_stem() {
        Some(stem) => Some(stem.to_string_lossy().into_owned()),
        None => None,
    }
}

/// Calls `Path::extension`.
///
/// Trusted: the result is a function of the path's text alone; it is only
/// given a name.
#[verifier::external_body]
pub(crate) fn extension_of(path: &str) -> (extension: Option<String>)
    ensures
        text_option_view(extension) == path_extension(path@),
{
    match std::path::Path::new(path).extension() {
        Some(extension) => Some(extension.to_string_lossy().into_owned()),
        None => None,
    }
}

/// One of the ten decimal digits.
pub open spec fn is_digit(c: char) -> bool {
    c == '0' || c == '1' || c == '2' || c == '3' || c == '4' || c == '5' || c == '6' || c == '7'
        || c == '8' || c == '9'
}

/// Tells whether a character is one of the ten decimal digits.
pub fn is_digit_char(c: char) -> (digit: bool)
    ensures
        digit == is_digit(c),
{
    c == '0' || c == '1' || c == '2' || c == '3' || c == '4' || c == '5' || c == '6' || c == '7'
        || c == '8' || c == '9'
}

/// How many digits stand at the end of a text.
pub open spec fn trailing_digits(text: Seq<char>) -> nat
    decreases text.len(),
{
    if text.len() > 0 && is_digit(text.last()) {
        1 + trailing_digits(text.drop_last())
    } else {
        0
    }
}

/// A file stem without the counter that a unique file name carries: where
/// the stem ends in an underscore and any number of digits, those are cut
/// off; any other stem is left as it is.
pub open spec fn strip_counter(stem: Seq<char>) -> Seq<char> {
    let digits = trailing_digits(stem);
    if digits < stem.len() && stem[stem.len() - digits - 1] == '_' {
        stem.subrange(0, stem.len() - digits - 1)
    } else {
        stem
    }
}

/// The name under which a decrypted file is written: the directory, a
/// slash, and the stem without its counter.
pub open spec fn original_filename_spec(directory: Seq<char>, stem: Seq<char>) -> Seq<char> {
    directory + "/"@ + strip_counter(stem)
}

/// Returns the stem without the counter of a unique file name.
pub fn strip_counter_of(stem: &str) -> (stripped: String)
    ensures
        stripped@ == strip_counter(stem@),
{
    let total: usize = stem.unicode_len();
    let mut kept: usize = total;
    proof {
        assert(stem@.subrange(0, total as int) =~= stem@);
    }
    while kept > 0 && is_digit_char(stem.get_char(kept - 1))
        invariant
            kept <= total,
            total == stem@.len(),
            trailing_digits(stem@) == trailing_digits(stem@.subrange(0, kept as int)) + (total
                - kept),
        decreases kept,
    {
        proof {
            let head = stem@.subrange(0, kept as int);
            assert(head.drop_last() =~= stem@.subrange(0, kept - 1));
        }
        kept -= 1;
    }
    proof {
        assert(trailing_digits(stem@.subrange(0, kept as int)) == 0);
    }
    if kept > 0 && stem.get_char(kept - 1) == '_' {
        String::from_str(stem.substring_char(0, kept - 1))
    } else {
        String::from_str(stem)
    }
}

/// Returns the name under which a decrypted file is written, given the
/// directory and the stem of the encrypted file.
pub fn original_filename(directory: &str, stem: &str) -> (name: String)
    ensures
        name@ == original_filename_spec(directory@, stem@),
{
    let mut name = String::from_str(directory);
    name.append("/");
    let stripped = strip_counter_of(stem);
    name.append(stripped.as_str());
    name
}

/// The value of a decimal digit.
pub open spec fn digit_value(c: char) -> int {
    if c == '1' {
        1
    } else if c == '2' {
        2
    } else if c == '3' {
        3
    } else if c == '4' {
        4
    } else if c == '5' {
        5
    } else if c == '6' {
        6
    } else if c == '7' {
        7
    } else if c == '8' {
        8
    } else if c == '9' {
        9
    } else {
        0
    }
}

/// The number that a run of decimal digits stands for.
pub open spec fn digits_value(text: Seq<char>) -> int
    decreases text.len(),
{
    if text.len() == 0 {
        0
    } else {
        digits_value(text.drop_last()) * 10 + digit_value(text.last())
    }
}

/// Every character of the text is a decimal digit.
pub open spec fn all_digits(text: Seq<char>) -> bool {
    forall|i: int| 0 <= i < text.len() ==> is_digit(#[trigger] text[i])
}

/// The number that digits after a sign stand for, if there is at least one,
/// they are all digits, and a 32-bit signed integer holds the value.
pub open spec fn signed_value(negative: bool, digits: Seq<char>) -> Option<int> {
    let value = if negative {
        -digits_value(digits)
    } else {
        digits_value(digits)
    };
    if digits.len() > 0 && all_digits(digits) && i32::MIN <= value <= i32::MAX {
        Some(value)
    } else {
        None
    }
}

/// The number that a text stands for: an optional sign, then at least one
/// decimal digit and nothing else, with a value that a 32-bit signed integer
/// holds. `None` for any other text.
pub open spec fn parse_number(text: Seq<char>) -> Option<int> {
    if text.len() > 0 && text[0] == '-' {
        signed_value(true, text.drop_first())
    } else if text.len() > 0 && text[0] == '+' {
        signed_value(false, text.drop_first())
    } else {
        signed_value(false, text)
    }
}

proof fn lemma_digits_value_prefix(text: Seq<char>, upto: int)
    requires
        0 <= upto <= text.len(),
    ensures
        0 <= digits_value(text.subrange(0, upto)) <= digits_value(text),
    decreases text.len() - upto,
{
    lemma_digits_value_nonnegative(text.subrange(0, upto));
    if upto < text.len() {
        lemma_digits_value_prefix(text, upto + 1);
        let longer = text.subrange(0, upto + 1);
        assert(longer.drop_last() =~= text.subrange(0, upto));
    } else {
        assert(text.subrange(0, upto) =~= text);
    }
}

proof fn lemma_digits_value_nonnegative(text: Seq<char>)
    ensures
        0 <= digits_value(text),
    decreases text.len(),
{
    if text.len() > 0 {
        lemma_digits_value_nonnegative(text.drop_last());
    }
}

fn digit_of(c: char) -> (value: i64)
    ensures
        value == digit_value(c),
        0 <= value <= 9,
{
    if c == '1' {
        1
    } else if c == '2' {
        2
    } else if c == '3' {
        3
    } else if c == '4' {
        4
    } else if c == '5' {
        5
    } else if c == '6' {
        6
    } else if c == '7' {
        7
    } else if c == '8' {
        8
    } else if c == '9' {
        9
    } else {
        0
    }
}

/// Reads the number that stands in `text` from position `from` to the end.
pub fn parse_number_from(text: &str, from: usize) -> (number: Option<i32>)
    requires
        from <= text@.len(),
    ensures
        number matches Some(n) ==> parse_number(text@.subrange(from as int, text@.len() as int))
            == Some(n as int),
        number is None ==> parse_number(text@.subrange(from as int, text@.len() as int)) is None,
{
    let total: usize = text.unicode_len();
    let ghost whole = text@.subrange(from as int, total as int);
    if from == total {
        return None;
    }
    let first = text.get_char(from);
    let negative = first == '-';
    let start: usize = if first == '-' || first == '+' {
        from + 1
    } else {
        from
    };
    let ghost digits = text@.subrange(start as int, total as int);
    proof {
        assert(whole[0] == first);
        if start != from {
            assert(whole.drop_first() =~= digits);
        }
        assert(parse_number(whole) == signed_value(negative, digits));
    }
    if start == total {
        return None;
    }
    proof {
        assert(digits.subrange(0, 0) =~= Seq::<char>::empty());
    }
    let mut value: i64 = 0;
    let mut at: usize = start;
    while at < total
        invariant
            start <= at <= total,
            total == text@.len(),
            digits == text@.subrange(start as int, total as int),
            parse_number(text@.subrange(from as int, text@.len() as int)) == signed_value(
                negative,
                digits,
            ),
            all_digits(digits.subrange(0, at - start)),
            value == digits_value(digits.subrange(0, at - start)),
            0 <= value <= 2147483648,
        decreases total - at,
    {
        let c = text.get_char(at);
        proof {
            assert(digits[at - start] == c);
        }
        if !is_digit_char(c) {
            return None;
        }
        let ghost longer = digits.subrange(0, at - start + 1);
        proof {
            assert(longer.drop_last() =~= digits.subrange(0, at - start));
            assert(longer.last() == c);
            assert forall|i: int| 0 <= i < longer.len() implies is_digit(#[trigger] longer[i]) by {
                if i < at - start {
                    assert(digits.subrange(0, at - start)[i] == longer[i]);
                }
            }
        }
        value = value * 10 + digit_of(c);
        if value > 2147483648 {
            proof {
                lemma_digits_value_prefix(digits, at - start + 1);
            }
            return None;
        }
        at += 1;
    }
    proof {
        assert(digits.subrange(0, total - start) =~= digits);
    }
    if negative {
        Some((-value) as i32)
    } else if value == 2147483648 {
        None
    } else {
        Some(value as i32)
    }
}

/// Tells whether `text` starts with `prefix`.
pub fn starts_with(text: &str, prefix: &str) -> (starts: bool)
    ensures
        starts == prefix@.is_prefix_of(text@),
{
    let wanted: usize = prefix.unicode_len();
    if wanted > text.unicode_len() {
        return false;
    }
    let mut at: usize = 0;
    while at < wanted
        invariant
            at <= wanted,
            wanted == prefix@.len(),
            wanted <= text@.len(),
            forall|i: int| 0 <= i < at ==> text@[i] == prefix@[i],
        decreases wanted - at,
    {
        if text.get_char(at) != prefix.get_char(at) {
            proof {
                assert(text@.subrange(0, wanted as int)[at as int] == text@[at as int]);
            }
            return false;
        }
        at += 1;
    }
    proof {
        assert(text@.subrange(0, wanted as int) =~= prefix@);
    }
    true
}

} // verus!
