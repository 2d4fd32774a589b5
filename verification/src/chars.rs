//! Bridges between `String`/`&str` and the character sequences that the
//! sanitizers work on, plus the character classifications that only the
//! standard library can compute (Unicode classes and Unicode lowercasing).
use vstd::prelude::*;

verus! {

/// Relies on str::chars: yields exactly the characters of the string, in order.
#[verifier::external_body]
pub(crate) fn chars_of(s: &str) -> (r: Vec<char>)
    ensures
        r@ == s@,
{
    s.chars().collect()
}

/// Relies on String's FromIterator<char>: the string made of exactly these
/// characters, in order.
#[verifier::external_body]
pub(crate) fn string_of(chars: &Vec<char>) -> (r: String)
    ensures
        r@ == chars@,
{
    chars.iter().collect()
}

/// What str::to_lowercase returns: a function of the characters alone.
pub uninterp spec fn lower_of(s: Seq<char>) -> Seq<char>;

/// Relies on str::to_lowercase: the Unicode lowercase form of the string,
/// which depends on the characters alone; an empty string stays empty.
#[verifier::external_body]
pub(crate) fn to_lowercase(s: &str) -> (r: String)
    ensures
        r@ == lower_of(s@),
        s@.len() == 0 ==> r@.len() == 0,
{
    s.to_lowercase()
}

/// What char::to_uppercase yields for a character: a function of the
/// character alone (possibly several characters long).
pub uninterp spec fn upper_of(c: char) -> Seq<char>;

/// Relies on char::to_uppercase: the Unicode uppercase mapping of the
/// character, which depends on the character alone.
#[verifier::external_body]
pub(crate) fn char_upper(c: char) -> (r: Vec<char>)
    ensures
        r@ == upper_of(c),
{
    c.to_uppercase().collect()
}

/// Whether char::is_alphanumeric holds of a non-ASCII character.
pub uninterp spec fn unicode_alnum_char(c: char) -> bool;

/// An alphanumeric character: on ASCII the letters and digits, beyond
/// ASCII whatever char::is_alphanumeric says.
pub open spec fn alnum_char(c: char) -> bool {
    if (c as u32) < 128 {
        (97 <= c as u32 && c as u32 <= 122) || (65 <= c as u32 && c as u32 <= 90) || (48 <= c
            as u32 && c as u32 <= 57)
    } else {
        unicode_alnum_char(c)
    }
}

/// Relies on char::is_alphanumeric: true exactly for Unicode alphabetic
/// and numeric characters; on ASCII these are the letters and the digits.
#[verifier::external_body]
pub(crate) fn char_is_alnum(c: char) -> (r: bool)
    ensures
        r == alnum_char(c),
        (c as u32) >= 128 ==> r == unicode_alnum_char(c),
{
    c.is_alphanumeric()
}

/// Whether char::is_whitespace holds of a non-ASCII character.
pub uninterp spec fn unicode_space_char(c: char) -> bool;

/// A whitespace character: on ASCII the space and the controls 0x09
/// through 0x0D, beyond ASCII whatever char::is_whitespace says.
pub open spec fn space_char(c: char) -> bool {
    if (c as u32) < 128 {
        c as u32 == 32 || (9 <= c as u32 && c as u32 <= 13)
    } else {
        unicode_space_char(c)
    }
}

/// Relies on char::is_whitespace: true exactly for characters with the
/// Unicode White_Space property; its ASCII members are the space and the
/// controls 0x09 through 0x0D.
#[verifier::external_body]
pub(crate) fn char_is_space(c: char) -> (r: bool)
    ensures
        r == space_char(c),
        (c as u32) >= 128 ==> r == unicode_space_char(c),
{
    c.is_whitespace()
}

} // verus!
