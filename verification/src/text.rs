//! Text primitives the matching logic rests on: Unicode case folding,
//! substring search, and the whitespace test.
//!
//! Case folding and the White_Space property are Unicode tables; their
//! results are named rather than restated, and everything the library proves
//! about matching and trimming is relative to those names.

use vstd::prelude::*;

verus! {

/// The Unicode lowercase folding of a character sequence, as
/// `str::to_lowercase` computes it: a function of the characters alone.
pub uninterp spec fn lower_of(s: Seq<char>) -> Seq<char>;

/// Whether a character has the Unicode White_Space property, as
/// `char::is_whitespace` reports it.
pub uninterp spec fn is_white(c: char) -> bool;

/// `needle` occurs contiguously somewhere in `hay`.
pub open spec fn has_substring(hay: Seq<char>, needle: Seq<char>) -> bool {
    exists|i: int|
        0 <= i <= hay.len() - needle.len() && #[trigger] hay.subrange(i, i + needle.len())
            == needle
}

/// Relies on `str::to_lowercase`: returns the string's Unicode lowercase
/// equivalent, a function of the input characters alone.
#[verifier::external_body]
pub fn lowercase(s: &str) -> (r: String)
    ensures
        r@ == lower_of(s@),
{
    s.to_lowercase()
}

/// Relies on `str::contains`: true exactly when the pattern matches a
/// sub-slice of the string.
#[verifier::external_body]
pub fn str_contains(hay: &str, needle: &str) -> (r: bool)
    ensures
        r == has_substring(hay@, needle@),
{
    hay.contains(needle)
}

/// Relies on `String::push`: appends the given character to the end of the
/// string.
pub assume_specification[ String::push ](s: &mut String, ch: char)
    ensures
        final(s)@ == old(s)@.push(ch),
;

/// Relies on `String::pop`: removes and returns the last character, or
/// nothing from an empty string.
pub assume_specification[ String::pop ](s: &mut String) -> (r: Option<char>)
    ensures
        old(s)@.len() == 0 ==> final(s)@ == old(s)@ && r is None,
        old(s)@.len() > 0 ==> final(s)@ == old(s)@.drop_last() && r == Some(old(s)@.last()),
;

/// Relies on `char::is_whitespace`: whether the character has the Unicode
/// White_Space property. Space, tab, carriage return and line feed are
/// documented members of that property; no line-feed survives line
/// splitting, and the others are what trimming removes.
#[verifier::external_body]
pub fn char_is_whitespace(c: char) -> (r: bool)
    ensures
        r == is_white(c),
        c == ' ' ==> r,
        c == '\t' ==> r,
        c == '\r' ==> r,
        c == '\n' ==> r,
{
    c.is_whitespace()
}

} // verus!
