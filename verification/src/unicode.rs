//! The character classes and case mapping of the Unicode tables that std carries.

use vstd::prelude::*;

verus! {

/// Whether `char::is_alphanumeric` holds of the character (Unicode `Alphabetic` or a numeric
/// general category).
pub uninterp spec fn char_is_alphanumeric(c: char) -> bool;

/// Whether `char::is_numeric` holds of the character (general categories `Nd`, `Nl`, `No`).
pub uninterp spec fn char_is_numeric(c: char) -> bool;

/// What `str::to_lowercase` returns for the text, as characters.
pub uninterp spec fn lowercase_of(s: Seq<char>) -> Seq<char>;

/// Calls `char::is_alphanumeric`; claims only that the answer is the named property of `c`.
#[verifier::external_body]
pub(crate) fn is_alphanumeric(c: char) -> (r: bool)
    ensures
        r == char_is_alphanumeric(c),
{
    c.is_alphanumeric()
}

/// Calls `char::is_numeric`; claims only that the answer is the named property of `c`.
#[verifier::external_body]
pub(crate) fn is_numeric(c: char) -> (r: bool)
    ensures
        r == char_is_numeric(c),
{
    c.is_numeric()
}

/// Calls `str::to_lowercase` on the text that `s` spells; claims only that the result, as
/// characters, is the named lowercase form of `s`.
#[verifier::external_body]
pub(crate) fn to_lowercase(s: &Vec<char>) -> (r: Vec<char>)
    ensures
        r@ == lowercase_of(s@),
{
    let text: String = s.iter().collect();
    text.to_lowercase().chars().collect()
}

/// Collects the characters into a `String` (`FromIterator<char>`); claims that the string spells
/// exactly those characters.
#[verifier::external_body]
pub(crate) fn string_from_chars(v: &Vec<char>) -> (s: String)
    ensures
        s@ == v@,
{
    v.iter().collect()
}

} // verus!
