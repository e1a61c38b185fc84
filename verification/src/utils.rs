//! Character classes of the source alphabet.

use vstd::prelude::*;

verus! {

/// A letter in the sense of the lexer: an ASCII letter or an underscore.
pub open spec fn spec_is_letter(ch: char) -> bool {
    ('a' <= ch && ch <= 'z') || ('A' <= ch && ch <= 'Z') || ch == '_'
}

/// A decimal digit, `0` to `9`.
pub open spec fn spec_is_digit(ch: char) -> bool {
    '0' <= ch && ch <= '9'
}

/// The characters that separate tokens without being one: space, tab,
/// line feed and carriage return.
pub open spec fn spec_is_whitespace(ch: char) -> bool {
    ch == ' ' || ch == '\t' || ch == '\n' || ch == '\r'
}

#[verifier::when_used_as_spec(spec_is_letter)]
pub fn is_letter(ch: char) -> (b: bool)
    ensures
        b == spec_is_letter(ch),
{
    ('a' <= ch && ch <= 'z') || ('A' <= ch && ch <= 'Z') || ch == '_'
}

#[verifier::when_used_as_spec(spec_is_digit)]
pub fn is_digit(ch: char) -> (b: bool)
    ensures
        b == spec_is_digit(ch),
{
    '0' <= ch && ch <= '9'
}

} // verus!
