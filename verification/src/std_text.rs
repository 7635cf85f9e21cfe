//! Calls into the standard library's text handling whose results the
//! library's logic works with: UTF-8 decoding, case mapping, decimal
//! formatting and building a `String` from characters.

use vstd::prelude::*;
use vstd::utf8::{decode_utf8, is_ascii_chars, valid_utf8};

verus! {

/// A character with ASCII lowercase letters mapped to uppercase.
pub open spec fn ascii_upper_char(c: char) -> char {
    if 'a' <= c <= 'z' {
        ((c as u32) - 32) as char
    } else {
        c
    }
}

/// A character with ASCII uppercase letters mapped to lowercase.
pub open spec fn ascii_lower_char(c: char) -> char {
    if 'A' <= c <= 'Z' {
        ((c as u32) + 32) as char
    } else {
        c
    }
}

/// `s` with ASCII lowercase letters mapped to uppercase.
pub open spec fn ascii_upper(s: Seq<char>) -> Seq<char> {
    s.map_values(|c: char| ascii_upper_char(c))
}

/// `s` with ASCII uppercase letters mapped to lowercase.
pub open spec fn ascii_lower(s: Seq<char>) -> Seq<char> {
    s.map_values(|c: char| ascii_lower_char(c))
}

/// What `str::to_uppercase` returns for a string: its full Unicode uppercase mapping.
pub uninterp spec fn str_to_uppercase(s: Seq<char>) -> Seq<char>;

/// What `str::to_lowercase` returns for a string: its full Unicode lowercase mapping.
pub uninterp spec fn str_to_lowercase(s: Seq<char>) -> Seq<char>;

/// The decimal digit character for `d` in `0..10`.
pub open spec fn digit_char(d: int) -> char {
    (d + 48) as char
}

/// The decimal representation of a natural number, without leading zeros.
pub open spec fn natural_text(n: nat) -> Seq<char>
    decreases n,
{
    if n < 10 {
        seq![digit_char(n as int)]
    } else {
        natural_text(n / 10).push(digit_char((n % 10) as int))
    }
}

/// The decimal representation of an integer, with a leading `-` when negative.
pub open spec fn integer_text(n: int) -> Seq<char> {
    if n < 0 {
        seq!['-'] + natural_text((-n) as nat)
    } else {
        natural_text(n as nat)
    }
}

/// Decodes `bytes` as UTF-8, as `String::from_utf8` does.
///
/// Claims: the result is `Some` exactly when the bytes are valid UTF-8, and
/// then holds the characters that they encode.
#[verifier::external_body]
pub(crate) fn decode_utf8_text(bytes: &[u8]) -> (text: Option<String>)
    ensures
        text is Some <==> valid_utf8(bytes@),
        text matches Some(t) ==> t@ == decode_utf8(bytes@),
{
    String::from_utf8(bytes.to_vec()).ok()
}

/// Collects characters into a `String` (`FromIterator<&char>` for `String`).
///
/// Claims: the string holds exactly those characters, in order.
#[verifier::external_body]
pub(crate) fn string_from_chars(chars: &Vec<char>) -> (s: String)
    ensures
        s@ == chars@,
{
    chars.iter().collect()
}

/// `str::to_uppercase`.
///
/// Claims: the result is the string's Unicode uppercase mapping, a function
/// of the characters alone; for an all-ASCII string it is the ASCII
/// uppercase mapping, since Unicode maps `a`..`z` to `A`..`Z` and every other
/// ASCII character to itself. Which characters non-ASCII text maps to is
/// left to the name.
#[verifier::external_body]
pub(crate) fn to_uppercase(s: &str) -> (upper: String)
    ensures
        upper@ == str_to_uppercase(s@),
        is_ascii_chars(s@) ==> upper@ == ascii_upper(s@),
{
    s.to_uppercase()
}

/// `str::to_lowercase`.
///
/// Claims: the result is the string's Unicode lowercase mapping, a function
/// of the characters alone; for an all-ASCII string it is the ASCII
/// lowercase mapping, since Unicode maps `A`..`Z` to `a`..`z` and every other
/// ASCII character to itself. Which characters non-ASCII text maps to is
/// left to the name.
#[verifier::external_body]
pub(crate) fn to_lowercase(s: &str) -> (lower: String)
    ensures
        lower@ == str_to_lowercase(s@),
        is_ascii_chars(s@) ==> lower@ == ascii_lower(s@),
{
    s.to_lowercase()
}

/// `i64::to_string` (its `Display`).
///
/// Claims: the result is the number in decimal, with a `-` in front when it
/// is negative and no leading zeros.
#[verifier::external_body]
pub(crate) fn i64_text(n: i64) -> (s: String)
    ensures
        s@ == integer_text(n as int),
{
    n.to_string()
}

} // verus!
