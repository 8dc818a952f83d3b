//! The recursive-descent parser: tokens in, one expression tree out.

pub mod error;
pub mod grammar;
pub mod laws;

use crate::abstract_syntax_tree::Expression;
use crate::lexer::model::{first_error, lemma_next_token_advances, next_token, remaining_items};
use crate::lexer::{result_matches, tokens_match, Lexer};
pub use crate::parser::error::{ParseError, ParseErrorKind};
use crate::parser::grammar::{
    at_one_of, kind_at, literal_kinds, parse_binary, parse_expression, parse_operand,
    parse_operations, parse_primary, parse_unary, tokens_left, unary_operators, Parsed,
    Precedence,
};
use crate::token::{Token, TokenKind};
use vstd::prelude::*;

verus! {

/// Whether an end-of-file token stands at `position` or behind it.
pub open spec fn ends_from(tokens: Seq<Token>, position: int) -> bool {
    exists|index: int|
        position <= index < tokens.len() && (#[trigger] tokens[index]).kind
            == TokenKind::EndOfFile
}

/// A cursor over a token sequence that an end-of-file token closes.
#[derive(Debug, Clone, PartialEq, Eq)]
pub struct Parser<'a> {
    tokens: Vec<Token<'a>>,
    current_token_index: usize,
}

impl<'a> Parser<'a> {
    /// The tokens that are parsed.
    pub closed spec fn tokens(&self) -> Seq<Token<'a>> {
        self.tokens@
    }

    /// The index of the current token.
    pub closed spec fn position(&self) -> int {
        self.current_token_index as int
    }

    /// The current token exists, and an end-of-file token stands there or
    /// behind it.
    pub open spec fn wf(&self) -> bool {
        0 <= self.position() && ends_from(self.tokens(), self.position())
    }

    /// Whether this parser is `before`, moved on over the tokens that `parsed`
    /// took, and `result` is what `parsed` gives.
    pub open spec fn has_parsed(
        &self,
        before: &Self,
        parsed: Parsed<'a>,
        result: Result<Box<Expression<'a>>, ParseError<'a>>,
    ) -> bool {
        &&& self.wf()
        &&& self.tokens() == before.tokens()
        &&& self.position() == before.position() + parsed.length
        &&& result == parsed.result
    }

    /// A parser at the first of `tokens`, one of which must be the end-of-file
    /// token.
    pub fn new(tokens: Vec<Token<'a>>) -> (parser: Self)
        requires
            ends_from(tokens@, 0),
        ensures
            parser.wf(),
            parser.tokens() == tokens@,
            parser.position() == 0,
    {
        Parser { tokens, current_token_index: 0 }
    }

    /// A parser over everything that `lexer` still yields. The first lexical
    /// error ends the reading and is handed on as a syntax error; without one
    /// the parser stands at the first of the tokens read.
    pub fn try_from(lexer: Lexer<'a>) -> (result: Result<Self, ParseError<'a>>)
        requires
            lexer.wf(),
            !lexer.state().exhausted,
        ensures
            match result {
                Ok(parser) => {
                    &&& first_error(remaining_items(lexer.bytes(), lexer.state())) is None
                    &&& parser.wf()
                    &&& parser.position() == 0
                    &&& tokens_match(
                        parser.tokens(),
                        lexer.bytes(),
                        remaining_items(lexer.bytes(), lexer.state()),
                    )
                },
                Err(error) => {
                    &&& first_error(remaining_items(lexer.bytes(), lexer.state())) matches Some(
                        model,
                    )
                    &&& error.kind matches ParseErrorKind::LexerError(cause)
                    &&& error.token == cause.token
                    &&& result_matches(Err(cause), lexer.bytes(), Err(model))
                },
            },
    {
        let ghost bytes = lexer.bytes();
        let ghost all = remaining_items(bytes, lexer.state());
        let mut stream = lexer;
        let mut tokens: Vec<Token<'a>> = Vec::new();
        loop
            invariant
                bytes == lexer.bytes(),
                all == remaining_items(bytes, lexer.state()),
                stream.wf(),
                stream.bytes() == bytes,
                tokens@.len() <= all.len(),
                all.skip(tokens@.len() as int) == remaining_items(bytes, stream.state()),
                first_error(all) == first_error(remaining_items(bytes, stream.state())),
                forall|index: int|
                    0 <= index < tokens@.len() ==> result_matches(
                        Ok(#[trigger] tokens@[index]),
                        bytes,
                        all[index],
                    ),
                stream.state().exhausted ==> tokens@.len() > 0 && tokens@.last().kind
                    == TokenKind::EndOfFile,
            ensures
                stream.state().exhausted,
                tokens_match(tokens@, bytes, all),
                first_error(all) is None,
                tokens@.len() > 0 && tokens@.last().kind == TokenKind::EndOfFile,
            decreases remaining_items(bytes, stream.state()).len(),
        {
            let ghost before = stream.state();
            let ghost rest = remaining_items(bytes, before);
            proof {
                if !before.exhausted {
                    lemma_next_token_advances(bytes, before);
                    let lexed = next_token(bytes, before);
                    if !lexed.state.exhausted {
                        assert(rest.drop_first() =~= remaining_items(bytes, lexed.state));
                    } else {
                        assert(rest.drop_first() =~= remaining_items(bytes, lexed.state));
                    }
                    assert(rest[0] == lexed.item);
                    assert(all.skip(tokens@.len() as int + 1) =~= rest.drop_first());
                    assert(all[tokens@.len() as int] == rest[0]);
                } else {
                    assert(all.skip(tokens@.len() as int).len() == 0);
                }
            }
            match stream.next() {
                None => {
                    break ;
                },
                Some(Ok(token)) => {
                    tokens.push(token);
                },
                Some(Err(error)) => {
                    return Err(ParseError::from(error));
                },
            }
        }
        proof {
            let end = tokens@.len() - 1;
            assert(tokens@[end].kind == TokenKind::EndOfFile);
        }
        Ok(Parser::new(tokens))
    }

    /// Moves over the current token if it is of one of `kinds` and not the
    /// end of the file, and says whether it did.
    pub fn consume_current_token_of_kind(&mut self, kinds: &[TokenKind]) -> (consumed: bool)
        requires
            old(self).wf(),
        ensures
            final(self).wf(),
            final(self).tokens() == old(self).tokens(),
            consumed == at_one_of(old(self).tokens(), old(self).position(), kinds@),
            final(self).position() == if consumed {
                old(self).position() + 1
            } else {
                old(self).position()
            },
    {
        let mut index: usize = 0;
        while index < kinds.len()
            invariant
                self == old(self),
                self.wf(),
                index <= kinds@.len(),
                forall|i: int|
                    0 <= i < index ==> !(kind_at(self.tokens(), self.position())
                        != TokenKind::EndOfFile && kinds@[i] == kind_at(
                        self.tokens(),
                        self.position(),
                    )),
            decreases kinds@.len() - index,
        {
            if self.is_current_token(kinds[index]) {
                self.consume_current_token();
                return true;
            }
            index += 1;
        }
        false
    }

    /// Whether the current token is of the given kind and not the end of the
    /// file.
    pub fn is_current_token(&self, kind: TokenKind) -> (is: bool)
        requires
            self.wf(),
        ensures
            is == (kind_at(self.tokens(), self.position()) != TokenKind::EndOfFile && kind_at(
                self.tokens(),
                self.position(),
            ) == kind),
    {
        !self.is_at_end() && self.peek_current_token().kind() == kind
    }

    /// Moves to the next token, unless the current one is the end of the
    /// file.
    pub fn consume_current_token(&mut self)
        requires
            old(self).wf(),
        ensures
            final(self).wf(),
            final(self).tokens() == old(self).tokens(),
            final(self).position() == if kind_at(old(self).tokens(), old(self).position())
                == TokenKind::EndOfFile {
                old(self).position()
            } else {
                old(self).position() + 1
            },
    {
        if !self.is_at_end() {
            proof {
                let end = choose|index: int|
                    self.position() <= index < self.tokens().len() && (
                    #[trigger] self.tokens()[index]).kind == TokenKind::EndOfFile;
                assert(self.current_token_index < end < self.tokens.len());
            }
            self.current_token_index += 1;
        }
    }

    /// Whether the current token is the end of the file.
    pub fn is_at_end(&self) -> (at_end: bool)
        requires
            self.wf(),
        ensures
            at_end == (kind_at(self.tokens(), self.position()) == TokenKind::EndOfFile),
    {
        self.peek_current_token().is_end_of_file()
    }

    /// The current token.
    pub fn peek_current_token(&self) -> (token: Token<'a>)
        requires
            self.wf(),
        ensures
            token == self.tokens()[self.position()],
    {
        self.tokens[self.current_token_index]
    }

    /// The token before the current one.
    pub fn peek_previous_token(&self) -> (token: Token<'a>)
        requires
            self.wf(),
            self.position() > 0,
        ensures
            token == self.tokens()[self.position() - 1],
    {
        self.tokens[self.current_token_index - 1]
    }

    /// `expression := equality`
    pub fn expression_rule(&mut self) -> (result: Result<Box<Expression<'a>>, ParseError<'a>>)
        requires
            old(self).wf(),
        ensures
            final(self).has_parsed(
                old(self),
                parse_expression(old(self).tokens(), old(self).position()),
                result,
            ),
        decreases tokens_left(old(self).tokens(), old(self).position()), 19nat,
    {
        self.equality_rule()
    }

    /// `equality := comparison (("!=" | "==") comparison)*`
    pub fn equality_rule(&mut self) -> (result: Result<Box<Expression<'a>>, ParseError<'a>>)
        requires
            old(self).wf(),
        ensures
            final(self).has_parsed(
                old(self),
                parse_binary(old(self).tokens(), old(self).position(), Precedence::Equality),
                result,
            ),
        decreases tokens_left(old(self).tokens(), old(self).position()), 18nat,
    {
        self.binary_rule(Precedence::Equality)
    }

    /// `comparison := term (("<" | "<=" | ">" | ">=") term)*`
    pub fn comparison_rule(&mut self) -> (result: Result<Box<Expression<'a>>, ParseError<'a>>)
        requires
            old(self).wf(),
        ensures
            final(self).has_parsed(
                old(self),
                parse_binary(old(self).tokens(), old(self).position(), Precedence::Comparison),
                result,
            ),
        decreases tokens_left(old(self).tokens(), old(self).position()), 14nat,
    {
        self.binary_rule(Precedence::Comparison)
    }

    /// `term := factor (("+" | "-") factor)*`
    pub fn term_rule(&mut self) -> (result: Result<Box<Expression<'a>>, ParseError<'a>>)
        requires
            old(self).wf(),
        ensures
            final(self).has_parsed(
                old(self),
                parse_binary(old(self).tokens(), old(self).position(), Precedence::Term),
                result,
            ),
        decreases tokens_left(old(self).tokens(), old(self).position()), 10nat,
    {
        self.binary_rule(Precedence::Term)
    }

    /// `factor := unary (("*" | "/") unary)*`
    pub fn factor_rule(&mut self) -> (result: Result<Box<Expression<'a>>, ParseError<'a>>)
        requires
            old(self).wf(),
        ensures
            final(self).has_parsed(
                old(self),
                parse_binary(old(self).tokens(), old(self).position(), Precedence::Factor),
                result,
            ),
        decreases tokens_left(old(self).tokens(), old(self).position()), 6nat,
    {
        self.binary_rule(Precedence::Factor)
    }

    /// An operand of the given level: an expression of the next tighter one.
    fn operand_rule(&mut self, level: Precedence) -> (result: Result<
        Box<Expression<'a>>,
        ParseError<'a>,
    >)
        requires
            old(self).wf(),
        ensures
            final(self).has_parsed(
                old(self),
                parse_operand(old(self).tokens(), old(self).position(), level),
                result,
            ),
        decreases tokens_left(old(self).tokens(), old(self).position()), 2 * level.rank(),
    {
        match level {
            Precedence::Equality => self.comparison_rule(),
            Precedence::Comparison => self.term_rule(),
            Precedence::Term => self.factor_rule(),
            Precedence::Factor => self.unary_rule(),
        }
    }

    /// Moves over the current token if it is an operator of the given level.
    fn consume_operator(&mut self, level: Precedence) -> (consumed: bool)
        requires
            old(self).wf(),
        ensures
            final(self).wf(),
            final(self).tokens() == old(self).tokens(),
            consumed == at_one_of(old(self).tokens(), old(self).position(), level.operators()),
            final(self).position() == if consumed {
                old(self).position() + 1
            } else {
                old(self).position()
            },
    {
        match level {
            Precedence::Equality => {
                let kinds = [TokenKind::BangEqual, TokenKind::EqualEqual];
                assert(kinds@ =~= level.operators());
                self.consume_current_token_of_kind(kinds.as_slice())
            },
            Precedence::Comparison => {
                let kinds = [
                    TokenKind::Less,
                    TokenKind::LessEqual,
                    TokenKind::Greater,
                    TokenKind::GreaterEqual,
                ];
                assert(kinds@ =~= level.operators());
                self.consume_current_token_of_kind(kinds.as_slice())
            },
            Precedence::Term => {
                let kinds = [TokenKind::Plus, TokenKind::Minus];
                assert(kinds@ =~= level.operators());
                self.consume_current_token_of_kind(kinds.as_slice())
            },
            Precedence::Factor => {
                let kinds = [TokenKind::Star, TokenKind::Slash];
                assert(kinds@ =~= level.operators());
                self.consume_current_token_of_kind(kinds.as_slice())
            },
        }
    }

    /// One operand of the given level, then every operator of the level with
    /// its operand, folded to the left as they come.
    fn binary_rule(&mut self, level: Precedence) -> (result: Result<
        Box<Expression<'a>>,
        ParseError<'a>,
    >)
        requires
            old(self).wf(),
        ensures
            final(self).has_parsed(
                old(self),
                parse_binary(old(self).tokens(), old(self).position(), level),
                result,
            ),
        decreases tokens_left(old(self).tokens(), old(self).position()), 2 * level.rank() + 1,
    {
        let mut expression = match self.operand_rule(level) {
            Ok(operand) => operand,
            Err(error) => {
                return Err(error);
            },
        };
        loop
            invariant
                self.wf(),
                self.tokens() == old(self).tokens(),
                old(self).position() <= self.position(),
                parse_binary(old(self).tokens(), old(self).position(), level) == parse_operations(
                    self.tokens(),
                    self.position(),
                    level,
                    expression,
                ).after((self.position() - old(self).position()) as nat),
            ensures
                self.has_parsed(
                    old(self),
                    parse_binary(old(self).tokens(), old(self).position(), level),
                    Ok(expression),
                ),
            decreases tokens_left(self.tokens(), self.position()),
        {
            if !self.consume_operator(level) {
                break ;
            }
            let operator = self.peek_previous_token();
            let right_operand = match self.operand_rule(level) {
                Ok(operand) => operand,
                Err(error) => {
                    return Err(error);
                },
            };
            expression =
            Box::new(Expression::Binary { left_operand: expression, operator, right_operand });
        }
        Ok(expression)
    }

    /// `unary := ("!" | "-") unary | primary`
    pub fn unary_rule(&mut self) -> (result: Result<Box<Expression<'a>>, ParseError<'a>>)
        requires
            old(self).wf(),
        ensures
            final(self).has_parsed(
                old(self),
                parse_unary(old(self).tokens(), old(self).position()),
                result,
            ),
        decreases tokens_left(old(self).tokens(), old(self).position()), 3nat,
    {
        let kinds = [TokenKind::Bang, TokenKind::Minus];
        assert(kinds@ =~= unary_operators());
        if self.consume_current_token_of_kind(kinds.as_slice()) {
            let operator = self.peek_previous_token();
            match self.unary_rule() {
                Ok(right_operand) => Ok(Box::new(Expression::Unary { operator, right_operand })),
                Err(error) => Err(error),
            }
        } else {
            self.primary_rule()
        }
    }

    /// `primary := NUMBER | STRING | "true" | "false" | "nil" | "(" expression ")"`
    pub fn primary_rule(&mut self) -> (result: Result<Box<Expression<'a>>, ParseError<'a>>)
        requires
            old(self).wf(),
        ensures
            final(self).has_parsed(
                old(self),
                parse_primary(old(self).tokens(), old(self).position()),
                result,
            ),
        decreases tokens_left(old(self).tokens(), old(self).position()), 2nat,
    {
        let literals = [
            TokenKind::False,
            TokenKind::True,
            TokenKind::Nil,
            TokenKind::NumberLiteral,
            TokenKind::StringLiteral,
        ];
        assert(literals@ =~= literal_kinds());
        if self.consume_current_token_of_kind(literals.as_slice()) {
            return Ok(Box::new(Expression::Literal(self.peek_previous_token())));
        }
        let opening = [TokenKind::LeftParentheses];
        assert(opening@ =~= seq![TokenKind::LeftParentheses]);
        if self.consume_current_token_of_kind(opening.as_slice()) {
            let expression = match self.expression_rule() {
                Ok(expression) => expression,
                Err(error) => {
                    return Err(error);
                },
            };
            let closing = [TokenKind::RightParentheses];
            assert(closing@ =~= seq![TokenKind::RightParentheses]);
            if !self.consume_current_token_of_kind(closing.as_slice()) {
                return Err(
                    ParseError {
                        kind: ParseErrorKind::MissingRightParenthesis,
                        token: self.peek_current_token(),
                    },
                );
            }
            return Ok(Box::new(Expression::Grouping(expression)));
        }
        Err(
            ParseError {
                kind: ParseErrorKind::ExpectedExpression,
                token: self.peek_current_token(),
            },
        )
    }
}

/// Parses the expression with which `tokens` start. One of the tokens must be
/// the end-of-file token.
pub fn parse<'a>(tokens: Vec<Token<'a>>) -> (result: Result<Box<Expression<'a>>, ParseError<'a>>)
    requires
        ends_from(tokens@, 0),
    ensures
        result == parse_expression(tokens@, 0).result,
{
    let mut parser = Parser::new(tokens);
    parser.expression_rule()
}

} // verus!
