//! What the library relies on from std's Unicode tables.
//!
//! Everything in this file is believed, not proved: each item says in its contract what std's
//! documentation says of the function that it stands for.

use vstd::prelude::*;
use vstd::utf8::{is_ascii_chars, valid_utf8, decode_utf8};

verus! {

/// What `str::to_lowercase` makes of a text.
pub uninterp spec fn unicode_lowercase(text: Seq<char>) -> Seq<char>;

/// Whether `char::is_numeric` holds of a character.
pub uninterp spec fn unicode_numeric(c: char) -> bool;

/// Whether `char::is_alphabetic` holds of a character.
pub uninterp spec fn unicode_alphabetic(c: char) -> bool;

/// What `String::from_utf8_lossy` makes of a run of bytes.
pub uninterp spec fn utf8_lossy(bytes: Seq<u8>) -> Seq<char>;

/// The characters that have the Unicode property White_Space.
pub open spec fn is_white_space(c: char) -> bool {
    ||| '\u{9}' <= c <= '\u{d}'
    ||| c == ' '
    ||| c == '\u{85}'
    ||| c == '\u{a0}'
    ||| c == '\u{1680}'
    ||| '\u{2000}' <= c <= '\u{200a}'
    ||| c == '\u{2028}'
    ||| c == '\u{2029}'
    ||| c == '\u{202f}'
    ||| c == '\u{205f}'
    ||| c == '\u{3000}'
}

/// A character below U+0080.
pub open spec fn is_ascii_char(c: char) -> bool {
    c <= '\u{7f}'
}

/// One of the digits `0` to `9`.
pub open spec fn is_ascii_digit(c: char) -> bool {
    '0' <= c <= '9'
}

/// One of the letters `a` to `z`, small or capital.
pub open spec fn is_ascii_letter(c: char) -> bool {
    'a' <= c <= 'z' || 'A' <= c <= 'Z'
}

/// `'A'` to `'Z'` become `'a'` to `'z'`; every other character stays.
pub open spec fn ascii_lower(c: char) -> char {
    if 'A' <= c <= 'Z' {
        ((c as int) + 32) as char
    } else {
        c
    }
}

/// A text with its ASCII capitals made small.
pub open spec fn ascii_lowercase(text: Seq<char>) -> Seq<char> {
    Seq::new(text.len(), |i: int| ascii_lower(text[i]))
}

/// Calls `str::to_lowercase`.
///
/// Its result depends on the text alone, and is named `unicode_lowercase`. Of a text that is all
/// ASCII it is the text with its ASCII capitals made small.
#[verifier::external_body]
pub(crate) fn to_lowercase(text: &str) -> (lower: String)
    ensures
        lower@ == unicode_lowercase(text@),
        is_ascii_chars(text@) ==> lower@ == ascii_lowercase(text@),
{
    text.to_lowercase()
}

/// `char::is_whitespace` holds of exactly the characters with the property White_Space.
pub assume_specification[ char::is_whitespace ](c: char) -> (b: bool)
    ensures
        b == is_white_space(c),
;

/// `char::is_numeric` depends on the character alone, and is named `unicode_numeric`. Among the
/// ASCII characters it holds of the digits `0` to `9` only.
pub assume_specification[ char::is_numeric ](c: char) -> (b: bool)
    ensures
        b == unicode_numeric(c),
        is_ascii_char(c) ==> b == is_ascii_digit(c),
;

/// `char::is_alphabetic` depends on the character alone, and is named `unicode_alphabetic`. Among
/// the ASCII characters it holds of the letters only.
pub assume_specification[ char::is_alphabetic ](c: char) -> (b: bool)
    ensures
        b == unicode_alphabetic(c),
        is_ascii_char(c) ==> b == is_ascii_letter(c),
;

/// `char::is_alphanumeric` holds of the characters that are alphabetic or numeric, and of no other.
/// Among the ASCII characters these are the letters and the digits.
pub assume_specification[ char::is_alphanumeric ](c: char) -> (b: bool)
    ensures
        b == (unicode_alphabetic(c) || unicode_numeric(c)),
        is_ascii_char(c) ==> b == (is_ascii_letter(c) || is_ascii_digit(c)),
;

/// `String::push` puts the character at the end of the text.
pub assume_specification[ String::push ](text: &mut String, c: char)
    ensures
        final(text)@ == old(text)@.push(c),
;

/// Calls `String::from_utf8_lossy`, and copies the text that comes back into a `String`.
///
/// Its result depends on the bytes alone, and is named `utf8_lossy`. Of bytes that are valid UTF-8
/// it is the text that they encode.
#[verifier::external_body]
pub(crate) fn from_utf8_lossy(bytes: &[u8]) -> (text: String)
    ensures
        text@ == utf8_lossy(bytes@),
        valid_utf8(bytes@) ==> text@ == decode_utf8(bytes@),
{
    String::from_utf8_lossy(bytes).into_owned()
}

} // verus!
