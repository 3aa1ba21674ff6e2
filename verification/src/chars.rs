use vstd::prelude::*;

verus! {

/// What `char::is_alphabetic` answers for a character.
pub uninterp spec fn is_alphabetic_char(c: char) -> bool;

/// What `char::is_alphanumeric` answers for a character.
pub uninterp spec fn is_alphanumeric_char(c: char) -> bool;

/// What `char::is_whitespace` answers for a character.
pub uninterp spec fn is_whitespace_char(c: char) -> bool;

/// A decimal digit, `0` to `9`.
pub open spec fn is_digit_char(c: char) -> bool {
    '0' <= c && c <= '9'
}

/// The number that a decimal digit stands for.
pub open spec fn digit_value(c: char) -> nat {
    (c as nat - '0' as nat) as nat
}

/// Calls `char::is_alphabetic`, whose answer depends on the character alone
/// and is given the name `is_alphabetic_char`.
#[verifier::external_body]
fn char_is_alphabetic(c: char) -> (b: bool)
    ensures
        b == is_alphabetic_char(c),
{
    c.is_alphabetic()
}

/// Calls `char::is_alphanumeric`, whose answer depends on the character alone
/// and is given the name `is_alphanumeric_char`.
#[verifier::external_body]
fn char_is_alphanumeric(c: char) -> (b: bool)
    ensures
        b == is_alphanumeric_char(c),
{
    c.is_alphanumeric()
}

/// Calls `char::is_whitespace`, whose answer depends on the character alone
/// and is given the name `is_whitespace_char`.
#[verifier::external_body]
fn char_is_whitespace(c: char) -> (b: bool)
    ensures
        b == is_whitespace_char(c),
{
    c.is_whitespace()
}

/// Tells whether a character is a decimal digit.
pub fn char_is_digit(c: char) -> (b: bool)
    ensures
        b == is_digit_char(c),
{
    '0' <= c && c <= '9'
}

/// The number that a decimal digit stands for.
pub fn char_digit_value(c: char) -> (d: u32)
    requires
        is_digit_char(c),
    ensures
        d == digit_value(c),
        d <= 9,
{
    (c as u32) - ('0' as u32)
}

/// A character together with what `char` tells of its class.
#[derive(Debug, Clone, Copy, PartialEq, Eq)]
pub struct Classified {
    pub ch: char,
    pub whitespace: bool,
    pub alphabetic: bool,
    pub alphanumeric: bool,
}

/// A character with its classes as `char` gives them.
pub open spec fn classify_spec(c: char) -> Classified {
    Classified {
        ch: c,
        whitespace: is_whitespace_char(c),
        alphabetic: is_alphabetic_char(c),
        alphanumeric: is_alphanumeric_char(c),
    }
}

/// The characters of a text, each with its classes.
pub open spec fn classified(s: Seq<char>) -> Seq<Classified> {
    s.map_values(|c: char| classify_spec(c))
}

/// The characters of a classified text.
pub open spec fn chars_of(s: Seq<Classified>) -> Seq<char> {
    s.map_values(|c: Classified| c.ch)
}

/// Gives a character its classes.
pub fn classify(c: char) -> (r: Classified)
    ensures
        r == classify_spec(c),
{
    Classified {
        ch: c,
        whitespace: char_is_whitespace(c),
        alphabetic: char_is_alphabetic(c),
        alphanumeric: char_is_alphanumeric(c),
    }
}

} // verus!
