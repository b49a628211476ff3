//! Unicode character classes that the lexer relies on.
use vstd::prelude::*;

verus! {

/// What `char::is_whitespace` says of a character (Unicode `White_Space`).
pub uninterp spec fn whitespace_class(c: char) -> bool;

/// What `char::is_alphabetic` says of a character (Unicode `Alphabetic`).
pub uninterp spec fn alphabetic_class(c: char) -> bool;

/// What `char::is_numeric` says of a character (Unicode `Nd`, `Nl`, `No`).
pub uninterp spec fn numeric_class(c: char) -> bool;

/// Characters that may continue an identifier: `char::is_alphanumeric`
/// (alphabetic or numeric) or an underscore.
pub open spec fn ident_class(c: char) -> bool {
    alphabetic_class(c) || numeric_class(c) || c == '_'
}

/// Relies on `char::is_whitespace`: the answer depends on the character alone.
#[verifier::external_body]
pub(crate) fn is_whitespace(c: char) -> (r: bool)
    ensures
        r == whitespace_class(c),
{
    c.is_whitespace()
}

/// Relies on `char::is_alphabetic`: the answer depends on the character alone.
#[verifier::external_body]
pub(crate) fn is_alphabetic(c: char) -> (r: bool)
    ensures
        r == alphabetic_class(c),
{
    c.is_alphabetic()
}

/// Relies on `char::is_numeric`: the answer depends on the character alone.
#[verifier::external_body]
pub(crate) fn is_numeric(c: char) -> (r: bool)
    ensures
        r == numeric_class(c),
{
    c.is_numeric()
}

/// Whether `c` may continue an identifier.
pub(crate) fn is_ident_char(c: char) -> (r: bool)
    ensures
        r == ident_class(c),
{
    is_alphabetic(c) || is_numeric(c) || c == '_'
}

} // verus!
