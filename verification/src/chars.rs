//! Character classification.
//!
//! The tokenizer classifies characters with the Unicode predicates of `char`.
//! Those predicates are decided by large Unicode tables, so each is given an
//! uninterpreted name here; the contracts of the tokenizer are stated over
//! those names.

use vstd::prelude::*;

verus! {

/// The Unicode White_Space classification of a character.
pub uninterp spec fn is_whitespace_char(c: char) -> bool;

/// The Unicode Alphabetic classification of a character.
pub uninterp spec fn is_alphabetic_char(c: char) -> bool;

/// The Unicode numeric classification (general categories Nd, Nl, No) of a
/// character.
pub uninterp spec fn is_numeric_char(c: char) -> bool;

/// Relies on `char::is_whitespace`: true exactly for characters with the
/// Unicode White_Space property, a function of the character alone.
#[verifier::external_body]
pub(crate) fn char_is_whitespace(c: char) -> (b: bool)
    ensures
        b == is_whitespace_char(c),
{
    c.is_whitespace()
}

/// Relies on `char::is_alphabetic`: true exactly for characters with the
/// Unicode Alphabetic property, a function of the character alone.
#[verifier::external_body]
pub(crate) fn char_is_alphabetic(c: char) -> (b: bool)
    ensures
        b == is_alphabetic_char(c),
{
    c.is_alphabetic()
}

/// Relies on `char::is_numeric`: true exactly for characters in the Unicode
/// general categories Nd, Nl and No, a function of the character alone.
#[verifier::external_body]
pub(crate) fn char_is_numeric(c: char) -> (b: bool)
    ensures
        b == is_numeric_char(c),
{
    c.is_numeric()
}

/// Relies on `char::is_alphanumeric`, documented as equivalent to
/// `is_alphabetic() || is_numeric()`.
#[verifier::external_body]
pub(crate) fn char_is_alphanumeric(c: char) -> (b: bool)
    ensures
        b == (is_alphabetic_char(c) || is_numeric_char(c)),
{
    c.is_alphanumeric()
}

/// Relies on `String::push`: appends the given character at the end of the
/// string.
#[verifier::external_body]
pub(crate) fn push_char(s: &mut String, c: char)
    ensures
        final(s)@ == old(s)@.push(c),
{
    s.push(c);
}

} // verus!
