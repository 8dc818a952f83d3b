//! The byte classes that the lexer tells apart.

use vstd::prelude::*;

verus! {

pub const LEFT_PARENTHESIS: u8 = 0x28;

pub const RIGHT_PARENTHESIS: u8 = 0x29;

pub const LEFT_BRACE: u8 = 0x7b;

pub const RIGHT_BRACE: u8 = 0x7d;

pub const COMMA: u8 = 0x2c;

pub const DOT: u8 = 0x2e;

pub const MINUS: u8 = 0x2d;

pub const PLUS: u8 = 0x2b;

pub const SEMICOLON: u8 = 0x3b;

pub const STAR: u8 = 0x2a;

pub const BANG: u8 = 0x21;

pub const EQUAL: u8 = 0x3d;

pub const LESS: u8 = 0x3c;

pub const GREATER: u8 = 0x3e;

pub const SLASH: u8 = 0x2f;

pub const QUOTE: u8 = 0x22;

pub const NEWLINE: u8 = 0x0a;

pub const UNDERSCORE: u8 = 0x5f;

/// An ASCII decimal digit.
pub open spec fn is_digit(byte: u8) -> bool {
    0x30 <= byte <= 0x39
}

/// An ASCII letter, upper or lower case.
pub open spec fn is_letter(byte: u8) -> bool {
    0x41 <= byte <= 0x5a || 0x61 <= byte <= 0x7a
}

/// A byte that may stand in an identifier: a letter, a digit or an underscore.
pub open spec fn is_identifier_byte(byte: u8) -> bool {
    is_letter(byte) || is_digit(byte) || byte == UNDERSCORE
}

/// ASCII whitespace: space, tab, line feed, form feed or carriage return.
pub open spec fn is_whitespace(byte: u8) -> bool {
    byte == 0x20 || byte == 0x09 || byte == NEWLINE || byte == 0x0c || byte == 0x0d
}

/// Whitespace that does not end a line.
pub open spec fn is_non_newline_whitespace(byte: u8) -> bool {
    is_whitespace(byte) && byte != NEWLINE
}

/// A byte that is, or starts, an operator, a delimiter or a string.
pub open spec fn is_punctuation(byte: u8) -> bool {
    byte == LEFT_PARENTHESIS || byte == RIGHT_PARENTHESIS || byte == LEFT_BRACE || byte
        == RIGHT_BRACE || byte == COMMA || byte == DOT || byte == MINUS || byte == PLUS || byte
        == SEMICOLON || byte == STAR || byte == BANG || byte == EQUAL || byte == LESS || byte
        == GREATER || byte == SLASH || byte == QUOTE
}

/// A byte with which no lexical rule starts.
pub open spec fn is_unrecognized(byte: u8) -> bool {
    !is_punctuation(byte) && !is_whitespace(byte) && !is_identifier_byte(byte)
}

/// A byte below 0x80, which UTF-8 uses for exactly one character.
pub open spec fn is_ascii(byte: u8) -> bool {
    byte <= 0x7f
}

/// A set of bytes that a run of the lexer is made of.
pub enum ByteClass {
    /// Decimal digits.
    Digit,
    /// Letters, digits and the underscore.
    Identifier,
    /// Whitespace other than the line feed.
    Blank,
    /// Bytes with which no lexical rule starts.
    Unrecognized,
    /// One byte and no other.
    Only(u8),
    /// Every byte but one.
    Except(u8),
}

impl ByteClass {
    /// Whether `byte` belongs to the class.
    pub open spec fn accepts(self, byte: u8) -> bool {
        match self {
            ByteClass::Digit => is_digit(byte),
            ByteClass::Identifier => is_identifier_byte(byte),
            ByteClass::Blank => is_non_newline_whitespace(byte),
            ByteClass::Unrecognized => is_unrecognized(byte),
            ByteClass::Only(target) => byte == target,
            ByteClass::Except(target) => byte != target,
        }
    }
}

/// Says that the executable predicate `predicate` can be called on every byte
/// and accepts exactly the bytes of `class`.
pub open spec fn decides<F: Fn(u8) -> bool>(predicate: F, class: ByteClass) -> bool {
    &&& forall|byte: u8| call_requires(predicate, (byte,))
    &&& forall|byte: u8, accepted: bool|
        call_ensures(predicate, (byte,), accepted) ==> accepted == class.accepts(byte)
}

pub fn byte_is_whitespace(b: u8) -> (accepted: bool)
    ensures
        accepted == is_whitespace(b),
{
    b == 0x20 || b == 0x09 || b == NEWLINE || b == 0x0c || b == 0x0d
}

pub fn byte_is_punctuation(b: u8) -> (accepted: bool)
    ensures
        accepted == is_punctuation(b),
{
    b == LEFT_PARENTHESIS || b == RIGHT_PARENTHESIS || b == LEFT_BRACE || b == RIGHT_BRACE || b
        == COMMA || b == DOT || b == MINUS || b == PLUS || b == SEMICOLON || b == STAR || b
        == BANG || b == EQUAL || b == LESS || b == GREATER || b == SLASH || b == QUOTE
}

pub fn byte_is_unrecognized(b: u8) -> (accepted: bool)
    ensures
        accepted == is_unrecognized(b),
{
    !byte_is_punctuation(b) && !byte_is_whitespace(b) && !byte_is_identifier(b)
}

pub fn byte_is_non_newline_whitespace(b: u8) -> (accepted: bool)
    ensures
        accepted == is_non_newline_whitespace(b),
{
    b != NEWLINE && byte_is_whitespace(b)
}

pub fn byte_is_digit(b: u8) -> (accepted: bool)
    ensures
        accepted == is_digit(b),
{
    0x30 <= b && b <= 0x39
}

pub fn byte_is_letter(b: u8) -> (accepted: bool)
    ensures
        accepted == is_letter(b),
{
    (0x41 <= b && b <= 0x5a) || (0x61 <= b && b <= 0x7a)
}

pub fn byte_is_identifier(b: u8) -> (accepted: bool)
    ensures
        accepted == is_identifier_byte(b),
{
    byte_is_letter(b) || byte_is_digit(b) || b == UNDERSCORE
}

/// The predicate that accepts `target` and no other byte.
pub fn byte_is(target: u8) -> (predicate: impl Fn(u8) -> bool)
    ensures
        decides(predicate, ByteClass::Only(target)),
{
    move |b: u8| -> (accepted: bool)
        ensures
            accepted == (b == target),
        { b == target }
}

/// The predicate that accepts every byte but `target`.
pub fn byte_is_not(target: u8) -> (predicate: impl Fn(u8) -> bool)
    ensures
        decides(predicate, ByteClass::Except(target)),
{
    move |b: u8| -> (accepted: bool)
        ensures
            accepted == (b != target),
        { b != target }
}

} // verus!
