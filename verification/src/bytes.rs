//! Searching and trimming byte strings.

use vstd::prelude::*;
use vstd::slice::*;

verus! {

/// `needle` stands in `haystack` at position `at`.
pub open spec fn occurs_at(haystack: Seq<u8>, needle: Seq<u8>, at: int) -> bool {
    &&& 0 <= at
    &&& at + needle.len() <= haystack.len()
    &&& haystack.subrange(at, at + needle.len()) == needle
}

/// `needle` stands somewhere in `haystack`.
pub open spec fn occurs(haystack: Seq<u8>, needle: Seq<u8>) -> bool {
    exists|at: int| occurs_at(haystack, needle, at)
}

/// `at` is the first position at which `needle` stands in `haystack`.
pub open spec fn is_first_occurrence(haystack: Seq<u8>, needle: Seq<u8>, at: int) -> bool {
    &&& occurs_at(haystack, needle, at)
    &&& forall|earlier: int| earlier < at ==> !occurs_at(haystack, needle, earlier)
}

/// `at` is the last position at which `needle` stands in `haystack`.
pub open spec fn is_last_occurrence(haystack: Seq<u8>, needle: Seq<u8>, at: int) -> bool {
    &&& occurs_at(haystack, needle, at)
    &&& forall|later: int| at < later ==> !occurs_at(haystack, needle, later)
}

/// The first position at which `needle` stands in `haystack`, if any.
pub open spec fn first_occurrence(haystack: Seq<u8>, needle: Seq<u8>) -> Option<int> {
    if occurs(haystack, needle) {
        Some(choose|at: int| is_first_occurrence(haystack, needle, at))
    } else {
        None
    }
}

/// The last position at which `needle` stands in `haystack`, if any.
pub open spec fn last_occurrence(haystack: Seq<u8>, needle: Seq<u8>) -> Option<int> {
    if occurs(haystack, needle) {
        Some(choose|at: int| is_last_occurrence(haystack, needle, at))
    } else {
        None
    }
}

/// A position that is shown to be the first occurrence is the one that
/// `first_occurrence` names.
pub proof fn lemma_first_occurrence(haystack: Seq<u8>, needle: Seq<u8>, at: int)
    requires
        is_first_occurrence(haystack, needle, at),
    ensures
        first_occurrence(haystack, needle) == Some(at),
{
    let chosen = choose|i: int| is_first_occurrence(haystack, needle, i);
    assert(is_first_occurrence(haystack, needle, chosen));
    assert(chosen == at) by {
        if chosen < at {
            assert(!occurs_at(haystack, needle, chosen));
        }
        if at < chosen {
            assert(!occurs_at(haystack, needle, at));
        }
    }
}

/// A position that is shown to be the last occurrence is the one that
/// `last_occurrence` names.
pub proof fn lemma_last_occurrence(haystack: Seq<u8>, needle: Seq<u8>, at: int)
    requires
        is_last_occurrence(haystack, needle, at),
    ensures
        last_occurrence(haystack, needle) == Some(at),
{
    let chosen = choose|i: int| is_last_occurrence(haystack, needle, i);
    assert(is_last_occurrence(haystack, needle, chosen));
    assert(chosen == at) by {
        if chosen < at {
            assert(!occurs_at(haystack, needle, at));
        }
        if at < chosen {
            assert(!occurs_at(haystack, needle, chosen));
        }
    }
}

/// Tells whether `needle` stands in `haystack` at position `at`.
pub fn occurs_here(haystack: &[u8], needle: &[u8], at: usize) -> (found: bool)
    requires
        at + needle@.len() <= haystack@.len(),
    ensures
        found == occurs_at(haystack@, needle@, at as int),
{
    let total: usize = haystack.len();
    let mut k: usize = 0;
    while k < needle.len()
        invariant
            k <= needle@.len(),
            at + needle@.len() <= haystack@.len(),
            haystack@.len() == total,
            forall|j: int| 0 <= j < k ==> haystack@[at + j] == needle@[j],
        decreases needle@.len() - k,
    {
        if haystack[at + k] != needle[k] {
            proof {
                let window = haystack@.subrange(at as int, at + needle@.len());
                assert(window[k as int] == haystack@[at + k]);
            }
            return false;
        }
        k += 1;
    }
    proof {
        assert(haystack@.subrange(at as int, at + needle@.len()) =~= needle@);
    }
    true
}

/// Tells whether two byte strings are the same.
pub fn equal(left: &[u8], right: &[u8]) -> (same: bool)
    ensures
        same == (left@ == right@),
{
    if left.len() != right.len() {
        return false;
    }
    let same = occurs_here(left, right, 0);
    proof {
        assert(left@.subrange(0, left@.len() as int) =~= left@);
    }
    same
}

/// Finds the first position at which `needle` stands in `haystack`.
pub fn find_subarray(haystack: &[u8], needle: &[u8]) -> (found: Option<usize>)
    ensures
        found matches Some(at) ==> first_occurrence(haystack@, needle@) == Some(at as int),
        found matches Some(at) ==> is_first_occurrence(haystack@, needle@, at as int),
        found is None ==> first_occurrence(haystack@, needle@) is None,
{
    if needle.len() > haystack.len() {
        return None;
    }
    let last: usize = haystack.len() - needle.len();
    let mut at: usize = 0;
    loop
        invariant
            last + needle@.len() == haystack@.len(),
            at <= last,
            forall|earlier: int| earlier < at ==> !occurs_at(haystack@, needle@, earlier),
        decreases last - at,
    {
        if occurs_here(haystack, needle, at) {
            proof {
                lemma_first_occurrence(haystack@, needle@, at as int);
            }
            return Some(at);
        }
        if at == last {
            return None;
        }
        at += 1;
    }
}

/// Finds the last position at which `needle` stands in `haystack`.
pub fn rfind_subarray(haystack: &[u8], needle: &[u8]) -> (found: Option<usize>)
    ensures
        found matches Some(at) ==> last_occurrence(haystack@, needle@) == Some(at as int),
        found matches Some(at) ==> is_last_occurrence(haystack@, needle@, at as int),
        found is None ==> last_occurrence(haystack@, needle@) is None,
{
    if needle.len() > haystack.len() {
        return None;
    }
    let last: usize = haystack.len() - needle.len();
    let mut at: usize = last;
    loop
        invariant
            last + needle@.len() == haystack@.len(),
            at <= last,
            forall|later: int| at < later ==> !occurs_at(haystack@, needle@, later),
        decreases at,
    {
        if occurs_here(haystack, needle, at) {
            proof {
                lemma_last_occurrence(haystack@, needle@, at as int);
            }
            return Some(at);
        }
        if at == 0 {
            return None;
        }
        at -= 1;
    }
}

/// A white-space character of one byte: tab, line feed, vertical tab, form
/// feed, carriage return or space.
pub open spec fn is_space(byte: u8) -> bool {
    (9 <= byte <= 13) || byte == 32
}

/// A white-space character of two bytes in UTF-8: next line (U+0085) or
/// no-break space (U+00A0).
pub open spec fn is_space_pair(first: u8, second: u8) -> bool {
    first == 0xC2 && (second == 0x85 || second == 0xA0)
}

/// A white-space character of three bytes in UTF-8: U+1680, U+2000 to
/// U+200A, U+2028, U+2029, U+202F, U+205F or U+3000.
pub open spec fn is_space_triple(first: u8, second: u8, third: u8) -> bool {
    ||| first == 0xE1 && second == 0x9A && third == 0x80
    ||| first == 0xE2 && second == 0x80 && (0x80 <= third <= 0x8A || third == 0xA8 || third
        == 0xA9 || third == 0xAF)
    ||| first == 0xE2 && second == 0x81 && third == 0x9F
    ||| first == 0xE3 && second == 0x80 && third == 0x80
}

/// The length of the white-space character that `text` starts with; zero
/// where it starts with none.
pub open spec fn leading_space(text: Seq<u8>) -> nat {
    if text.len() >= 1 && is_space(text[0]) {
        1
    } else if text.len() >= 2 && is_space_pair(text[0], text[1]) {
        2
    } else if text.len() >= 3 && is_space_triple(text[0], text[1], text[2]) {
        3
    } else {
        0
    }
}

/// The length of the white-space character that `text` ends with; zero
/// where it ends with none.
pub open spec fn trailing_space(text: Seq<u8>) -> nat {
    let n = text.len() as int;
    if n >= 1 && is_space(text[n - 1]) {
        1
    } else if n >= 2 && is_space_pair(text[n - 2], text[n - 1]) {
        2
    } else if n >= 3 && is_space_triple(text[n - 3], text[n - 2], text[n - 1]) {
        3
    } else {
        0
    }
}

/// `text` without the white space at its start.
pub open spec fn trim_start_spec(text: Seq<u8>) -> Seq<u8>
    decreases text.len(),
{
    if leading_space(text) > 0 {
        trim_start_spec(text.subrange(leading_space(text) as int, text.len() as int))
    } else {
        text
    }
}

/// `text` without the white space at its end.
pub open spec fn trim_end_spec(text: Seq<u8>) -> Seq<u8>
    decreases text.len(),
{
    if trailing_space(text) > 0 {
        trim_end_spec(text.subrange(0, text.len() - trailing_space(text)))
    } else {
        text
    }
}

/// `text` without the white space at either end. White space is what
/// Unicode marks as such, in its UTF-8 encoding.
pub open spec fn trim_spec(text: Seq<u8>) -> Seq<u8> {
    trim_end_spec(trim_start_spec(text))
}

/// Tells whether a byte is a white-space character.
pub fn is_space_byte(byte: u8) -> (space: bool)
    ensures
        space == is_space(byte),
{
    (9 <= byte && byte <= 13) || byte == 32
}

fn is_space_pair_bytes(first: u8, second: u8) -> (space: bool)
    ensures
        space == is_space_pair(first, second),
{
    first == 0xC2 && (second == 0x85 || second == 0xA0)
}

fn is_space_triple_bytes(first: u8, second: u8, third: u8) -> (space: bool)
    ensures
        space == is_space_triple(first, second, third),
{
    (first == 0xE1 && second == 0x9A && third == 0x80) || (first == 0xE2 && second == 0x80 && ((
    0x80 <= third && third <= 0x8A) || third == 0xA8 || third == 0xA9 || third == 0xAF)) || (first
        == 0xE2 && second == 0x81 && third == 0x9F) || (first == 0xE3 && second == 0x80 && third
        == 0x80)
}

fn leading_space_in(text: &[u8], start: usize, end: usize) -> (length: usize)
    requires
        start <= end <= text@.len(),
    ensures
        length == leading_space(text@.subrange(start as int, end as int)),
        start + length <= end,
{
    let room: usize = end - start;
    if room >= 1 && is_space_byte(text[start]) {
        1
    } else if room >= 2 && is_space_pair_bytes(text[start], text[start + 1]) {
        2
    } else if room >= 3 && is_space_triple_bytes(text[start], text[start + 1], text[start + 2]) {
        3
    } else {
        0
    }
}

fn trailing_space_in(text: &[u8], start: usize, end: usize) -> (length: usize)
    requires
        start <= end <= text@.len(),
    ensures
        length == trailing_space(text@.subrange(start as int, end as int)),
        start + length <= end,
{
    let room: usize = end - start;
    if room >= 1 && is_space_byte(text[end - 1]) {
        1
    } else if room >= 2 && is_space_pair_bytes(text[end - 2], text[end - 1]) {
        2
    } else if room >= 3 && is_space_triple_bytes(text[end - 3], text[end - 2], text[end - 1]) {
        3
    } else {
        0
    }
}

/// Returns `text` without the white space at either end.
pub fn trim(text: &[u8]) -> (trimmed: &[u8])
    ensures
        trimmed@ == trim_spec(text@),
{
    let total: usize = text.len();
    let mut start: usize = 0;
    proof {
        assert(text@.subrange(0, total as int) =~= text@);
    }
    loop
        invariant
            start <= total,
            total == text@.len(),
            trim_start_spec(text@) == trim_start_spec(text@.subrange(start as int, total as int)),
        ensures
            start <= total,
            trim_start_spec(text@) == text@.subrange(start as int, total as int),
        decreases total - start,
    {
        let length = leading_space_in(text, start, total);
        if length == 0 {
            break;
        }
        proof {
            let rest = text@.subrange(start as int, total as int);
            assert(rest.subrange(length as int, rest.len() as int) =~= text@.subrange(
                start + length,
                total as int,
            ));
        }
        start += length;
    }
    let ghost front = text@.subrange(start as int, total as int);
    let mut end: usize = total;
    loop
        invariant
            start <= end <= total,
            total == text@.len(),
            front == text@.subrange(start as int, total as int),
            trim_end_spec(front) == trim_end_spec(text@.subrange(start as int, end as int)),
        ensures
            start <= end <= total,
            trim_end_spec(front) == text@.subrange(start as int, end as int),
        decreases end - start,
    {
        let length = trailing_space_in(text, start, end);
        if length == 0 {
            break;
        }
        proof {
            let rest = text@.subrange(start as int, end as int);
            assert(rest.subrange(0, rest.len() - length) =~= text@.subrange(
                start as int,
                end - length,
            ));
        }
        end -= length;
    }
    slice_subrange(text, start, end)
}

/// Appends `tail` to `bytes`.
pub fn append_bytes(bytes: &mut Vec<u8>, tail: &[u8])
    ensures
        final(bytes)@ == old(bytes)@ + tail@,
{
    bytes.extend_from_slice(tail);
    proof {
        assert(bytes@ =~= old(bytes)@ + tail@);
    }
}

} // verus!
