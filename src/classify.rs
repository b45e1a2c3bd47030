//! Byte and character classes used by word motion, paragraph motion and the
//! command templater.

use vstd::prelude::*;

verus! {

/// The three classes that word motion distinguishes.
#[derive(Clone, Copy, Debug, PartialEq, Eq, Structural)]
pub enum ByteClass {
    Whitespace,
    Word,
    Other,
}

/// ASCII whitespace as `u8::is_ascii_whitespace` defines it:
/// space, tab, line feed, form feed and carriage return.
pub open spec fn spec_is_whitespace(b: u8) -> bool {
    b == 0x20u8 || b == 0x09u8 || b == 0x0Au8 || b == 0x0Cu8 || b == 0x0Du8
}

/// ASCII letters and digits, and the underscore.
pub open spec fn spec_is_word(b: u8) -> bool {
    (0x30u8 <= b <= 0x39u8) || (0x41u8 <= b <= 0x5Au8) || (0x61u8 <= b <= 0x7Au8) || b == 0x5Fu8
}

pub open spec fn spec_class_of(b: u8) -> ByteClass {
    if spec_is_whitespace(b) {
        ByteClass::Whitespace
    } else if spec_is_word(b) {
        ByteClass::Word
    } else {
        ByteClass::Other
    }
}

/// The characters that Unicode gives the White_Space property, which is what
/// `char::is_whitespace` tests.
pub open spec fn spec_is_unicode_whitespace(c: char) -> bool {
    ('\u{9}' <= c <= '\u{D}') || c == ' ' || c == '\u{85}' || c == '\u{A0}' || c == '\u{1680}'
        || ('\u{2000}' <= c <= '\u{200A}') || c == '\u{2028}' || c == '\u{2029}'
        || c == '\u{202F}' || c == '\u{205F}' || c == '\u{3000}'
}

/// True for a byte that belongs to a word: an ASCII letter or digit, or `_`.
pub fn is_keyword(b: u8) -> (r: bool)
    ensures
        r == spec_is_word(b),
{
    (0x30u8 <= b && b <= 0x39u8) || (0x41u8 <= b && b <= 0x5Au8) || (0x61u8 <= b && b <= 0x7Au8) || b == 0x5Fu8
}

/// True for an ASCII whitespace byte.
pub fn is_whitespace_byte(b: u8) -> (r: bool)
    ensures
        r == spec_is_whitespace(b),
{
    b == 0x20u8 || b == 0x09u8 || b == 0x0Au8 || b == 0x0Cu8 || b == 0x0Du8
}

/// True for a byte that is neither a word byte nor whitespace.
pub fn is_punct_byte(b: u8) -> (r: bool)
    ensures
        r == (!spec_is_word(b) && !spec_is_whitespace(b)),
{
    !is_keyword(b) && !is_whitespace_byte(b)
}

/// The class of a byte.
pub fn class_of(b: u8) -> (r: ByteClass)
    ensures
        r == spec_class_of(b),
{
    if is_whitespace_byte(b) {
        ByteClass::Whitespace
    } else if is_keyword(b) {
        ByteClass::Word
    } else {
        ByteClass::Other
    }
}

/// Whether a character is whitespace in the sense of `char::is_whitespace`.
pub fn is_unicode_whitespace(c: char) -> (r: bool)
    ensures
        r == spec_is_unicode_whitespace(c),
{
    ('\u{9}' <= c && c <= '\u{D}') || c == ' ' || c == '\u{85}' || c == '\u{A0}' || c == '\u{1680}'
        || ('\u{2000}' <= c && c <= '\u{200A}') || c == '\u{2028}' || c == '\u{2029}'
        || c == '\u{202F}' || c == '\u{205F}' || c == '\u{3000}'
}

} // verus!
