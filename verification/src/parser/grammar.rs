//! The expression grammar, as functions from a token sequence and a position
//! to the tree (or error) that parsing gives there and the number of tokens it
//! takes.
//!
//! ```text
//! expression  := equality
//! equality    := comparison (("!=" | "==") comparison)*
//! comparison  := term (("<" | "<=" | ">" | ">=") term)*
//! term        := factor (("+" | "-") factor)*
//! factor      := unary (("*" | "/") unary)*
//! unary       := ("!" | "-") unary | primary
//! primary     := NUMBER | STRING | "true" | "false" | "nil" | "(" expression ")"
//! ```

use crate::abstract_syntax_tree::Expression;
use crate::parser::error::{ParseError, ParseErrorKind};
use crate::token::{Token, TokenKind};
use vstd::prelude::*;

verus! {

/// The four levels of binary operators, loosest first.
#[derive(Debug, Clone, Copy, PartialEq, Eq, Structural)]
pub enum Precedence {
    Equality,
    Comparison,
    Term,
    Factor,
}

impl Precedence {
    /// The operators of the level.
    pub open spec fn operators(self) -> Seq<TokenKind> {
        match self {
            Precedence::Equality => seq![TokenKind::BangEqual, TokenKind::EqualEqual],
            Precedence::Comparison => seq![
                TokenKind::Less,
                TokenKind::LessEqual,
                TokenKind::Greater,
                TokenKind::GreaterEqual,
            ],
            Precedence::Term => seq![TokenKind::Plus, TokenKind::Minus],
            Precedence::Factor => seq![TokenKind::Star, TokenKind::Slash],
        }
    }

    /// A measure that falls from each level to the next tighter one.
    pub open spec fn rank(self) -> nat {
        match self {
            Precedence::Equality => 8,
            Precedence::Comparison => 6,
            Precedence::Term => 4,
            Precedence::Factor => 2,
        }
    }
}

/// The prefix operators.
pub open spec fn unary_operators() -> Seq<TokenKind> {
    seq![TokenKind::Bang, TokenKind::Minus]
}

/// The kinds of token that are an expression by themselves.
pub open spec fn literal_kinds() -> Seq<TokenKind> {
    seq![
        TokenKind::False,
        TokenKind::True,
        TokenKind::Nil,
        TokenKind::NumberLiteral,
        TokenKind::StringLiteral,
    ]
}

/// The kind of the token at `position`; behind the last token, end of file.
pub open spec fn kind_at(tokens: Seq<Token>, position: int) -> TokenKind {
    if 0 <= position < tokens.len() {
        tokens[position].kind
    } else {
        TokenKind::EndOfFile
    }
}

/// Whether the token at `position` is of one of `kinds` and not the end of
/// the file.
pub open spec fn at_one_of(tokens: Seq<Token>, position: int, kinds: Seq<TokenKind>) -> bool {
    kind_at(tokens, position) != TokenKind::EndOfFile && kinds.contains(kind_at(tokens, position))
}

/// How many tokens stand at and behind `position`.
pub open spec fn tokens_left(tokens: Seq<Token>, position: int) -> nat {
    if position <= tokens.len() {
        (tokens.len() - position) as nat
    } else {
        0
    }
}

/// What a rule gives at a position: the tree or the error, and the number of
/// tokens that it has taken.
pub struct Parsed<'a> {
    pub result: Result<Box<Expression<'a>>, ParseError<'a>>,
    pub length: nat,
}

impl<'a> Parsed<'a> {
    /// The same result behind `before` more tokens.
    pub open spec fn after(self, before: nat) -> Self {
        Parsed { result: self.result, length: before + self.length }
    }
}

/// `expression := equality`
pub open spec fn parse_expression<'a>(tokens: Seq<Token<'a>>, position: int) -> Parsed<'a>
    decreases tokens_left(tokens, position), 10nat,
{
    parse_binary(tokens, position, Precedence::Equality)
}

/// An operand of a binary level: an expression of the next tighter level.
pub open spec fn parse_operand<'a>(
    tokens: Seq<Token<'a>>,
    position: int,
    level: Precedence,
) -> Parsed<'a>
    decreases tokens_left(tokens, position), level.rank(),
{
    match level {
        Precedence::Equality => parse_binary(tokens, position, Precedence::Comparison),
        Precedence::Comparison => parse_binary(tokens, position, Precedence::Term),
        Precedence::Term => parse_binary(tokens, position, Precedence::Factor),
        Precedence::Factor => parse_unary(tokens, position),
    }
}

/// A binary level: one operand, then operators of the level with an operand
/// each, folded into a tree that leans to the left.
pub open spec fn parse_binary<'a>(
    tokens: Seq<Token<'a>>,
    position: int,
    level: Precedence,
) -> Parsed<'a>
    decreases tokens_left(tokens, position), level.rank() + 1,
{
    let first = parse_operand(tokens, position, level);
    match first.result {
        Ok(left_operand) => parse_operations(
            tokens,
            position + first.length,
            level,
            left_operand,
        ).after(first.length),
        Err(_) => first,
    }
}

/// The operators of a level with an operand each, from `position` on, folded
/// onto `left_operand`.
pub open spec fn parse_operations<'a>(
    tokens: Seq<Token<'a>>,
    position: int,
    level: Precedence,
    left_operand: Box<Expression<'a>>,
) -> Parsed<'a>
    decreases tokens_left(tokens, position), level.rank(),
{
    if at_one_of(tokens, position, level.operators()) {
        let right = parse_operand(tokens, position + 1, level);
        match right.result {
            Ok(right_operand) => parse_operations(
                tokens,
                position + 1 + right.length,
                level,
                Box::new(
                    Expression::Binary { left_operand, operator: tokens[position], right_operand },
                ),
            ).after(1 + right.length),
            Err(_) => right.after(1),
        }
    } else {
        Parsed { result: Ok(left_operand), length: 0 }
    }
}

/// `unary := ("!" | "-") unary | primary`
pub open spec fn parse_unary<'a>(tokens: Seq<Token<'a>>, position: int) -> Parsed<'a>
    decreases tokens_left(tokens, position), 1nat,
{
    if at_one_of(tokens, position, unary_operators()) {
        let operand = parse_unary(tokens, position + 1);
        match operand.result {
            Ok(right_operand) => Parsed {
                result: Ok(
                    Box::new(Expression::Unary { operator: tokens[position], right_operand }),
                ),
                length: 1 + operand.length,
            },
            Err(_) => operand.after(1),
        }
    } else {
        parse_primary(tokens, position)
    }
}

/// `primary := NUMBER | STRING | "true" | "false" | "nil" | "(" expression ")"`
///
/// A grouping that is not closed fails with `MissingRightParenthesis` at the
/// token that stands in the parenthesis' place; a token that starts no
/// expression fails with `ExpectedExpression` at that token.
pub open spec fn parse_primary<'a>(tokens: Seq<Token<'a>>, position: int) -> Parsed<'a>
    decreases tokens_left(tokens, position), 0nat,
{
    if at_one_of(tokens, position, literal_kinds()) {
        Parsed { result: Ok(Box::new(Expression::Literal(tokens[position]))), length: 1 }
    } else if at_one_of(tokens, position, seq![TokenKind::LeftParentheses]) {
        let inner = parse_expression(tokens, position + 1);
        let close = position + 1 + inner.length;
        match inner.result {
            Ok(expression) => if at_one_of(tokens, close, seq![TokenKind::RightParentheses]) {
                Parsed {
                    result: Ok(Box::new(Expression::Grouping(expression))),
                    length: 2 + inner.length,
                }
            } else {
                Parsed {
                    result: Err(
                        ParseError {
                            kind: ParseErrorKind::MissingRightParenthesis,
                            token: tokens[close],
                        },
                    ),
                    length: 1 + inner.length,
                }
            },
            Err(_) => inner.after(1),
        }
    } else {
        Parsed {
            result: Err(
                ParseError { kind: ParseErrorKind::ExpectedExpression, token: tokens[position] },
            ),
            length: 0,
        }
    }
}

} // verus!
