//! What the lexer reports when a lexeme is no token.

use crate::token::Token;
use vstd::prelude::*;

verus! {

/// Why a lexeme is no token.
#[derive(Debug, Clone, Copy, PartialEq, Eq, Structural)]
pub enum LexerErrorKind {
    /// The lexeme is a run of bytes with which no rule starts.
    Unrecognized,
    /// The source ends before the string's closing quote.
    UnterminatedStringLiteral,
    /// A number ends in a dot that no digit follows.
    NumberTrailingDot,
}

/// A lexical error: its kind and the offending lexeme as a token of kind
/// `Unrecognized`.
#[derive(Debug, Clone, Copy, PartialEq, Eq)]
pub struct LexerError<'a> {
    pub kind: LexerErrorKind,
    pub token: Token<'a>,
}

impl<'a> LexerError<'a> {
    pub fn new(kind: LexerErrorKind, token: Token<'a>) -> (error: Self)
        ensures
            error == (LexerError { kind, token }),
    {
        LexerError { kind, token }
    }

    pub fn token(&self) -> (token: Token<'a>)
        ensures
            token == self.token,
    {
        self.token
    }

    pub fn kind(&self) -> (kind: LexerErrorKind)
        ensures
            kind == self.kind,
    {
        self.kind
    }
}

} // verus!
