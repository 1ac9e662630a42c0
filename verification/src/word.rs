//! The Unicode word-character class `\w` of the log patterns, taken from
//! the regular-expression syntax crate's Unicode tables.
use vstd::prelude::*;

verus! {

/// Whether `regex_syntax::is_word_character` holds of `c`.
pub uninterp spec fn is_word_char(c: char) -> bool;

/// `regex_syntax::is_word_character`: whether `c` is a Unicode word
/// character (Alphabetic, Mark, Decimal_Number, Connector_Punctuation or
/// Join_Control), the class that `\w` matches. The contract only names the
/// result; the crate's default `unicode` feature is on, so the call does not
/// panic.
#[verifier::external_body]
pub(crate) fn word_char(c: char) -> (r: bool)
    ensures
        r == is_word_char(c),
{
    regex_syntax::is_word_character(c)
}

} // verus!
