//! What the parser reports when the tokens are no expression.

use crate::lexer::error::LexerError;
use crate::token::Token;
use vstd::prelude::*;

verus! {

/// Why parsing failed.
#[derive(Debug, Clone, Copy, PartialEq, Eq)]
pub enum ParseErrorKind<'a> {
    /// A grouping is not closed where its expression ends.
    MissingRightParenthesis,
    /// A token stands where an expression must start, and starts none.
    ExpectedExpression,
    /// A prefix operator has no operand.
    UnaryExpressionMissingOperand,
    /// The source could not be split into tokens.
    LexerError(LexerError<'a>),
}

/// A syntax error: its kind and the token at which it was found.
#[derive(Debug, Clone, Copy, PartialEq, Eq)]
pub struct ParseError<'a> {
    pub kind: ParseErrorKind<'a>,
    pub token: Token<'a>,
}

impl<'a> From<LexerError<'a>> for ParseError<'a> {
    /// The syntax error that a lexical error becomes: it names the same
    /// token.
    fn from(value: LexerError<'a>) -> (error: Self) {
        ParseError { token: value.token(), kind: ParseErrorKind::LexerError(value) }
    }
}

impl<'a> vstd::std_specs::convert::FromSpecImpl<LexerError<'a>> for ParseError<'a> {
    open spec fn obeys_from_spec() -> bool {
        true
    }

    open spec fn from_spec(value: LexerError<'a>) -> Self {
        ParseError { kind: ParseErrorKind::LexerError(value), token: value.token }
    }
}

impl<'a> ParseError<'a> {
    pub fn kind(&self) -> (kind: ParseErrorKind<'a>)
        ensures
            kind == self.kind,
    {
        self.kind
    }

    pub fn token(&self) -> (token: Token<'a>)
        ensures
            token == self.token,
    {
        self.token
    }
}

} // verus!
