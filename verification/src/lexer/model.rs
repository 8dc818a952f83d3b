//! What lexing means, stated over the bytes of the source alone.
//!
//! A source is cut into lexemes, one after the other. Each lexeme is a token,
//! an error, or something to skip (whitespace, a comment, a line break). The
//! functions here say where each lexeme ends, what it is, and how the line and
//! column counters move; the executable lexer is proved to follow them.

use crate::lexer::bytes::{
    is_digit, is_identifier_byte, is_whitespace, ByteClass, BANG, COMMA, DOT, EQUAL, GREATER,
    LEFT_BRACE, LEFT_PARENTHESIS, LESS, MINUS, NEWLINE, PLUS, QUOTE, RIGHT_BRACE,
    RIGHT_PARENTHESIS, SEMICOLON, SLASH, STAR,
};
use crate::lexer::error::LexerErrorKind;
use crate::lexer::graphemes::grapheme_cluster_count;
use crate::token::TokenKind;
use vstd::prelude::*;
use vstd::utf8::decode_utf8;

verus! {

/// How many bytes of `class` follow one another from index `from` on.
pub open spec fn run_length(bytes: Seq<u8>, from: int, class: ByteClass) -> nat
    decreases bytes.len() - from,
{
    if 0 <= from < bytes.len() && class.accepts(bytes[from]) {
        1 + run_length(bytes, from + 1, class)
    } else {
        0
    }
}

/// The index just behind the longest run of bytes of `class` that starts at
/// `from`.
pub open spec fn run_end(bytes: Seq<u8>, from: int, class: ByteClass) -> int {
    from + run_length(bytes, from, class)
}

/// The text that the bytes from `from` up to `to` encode.
pub open spec fn text(bytes: Seq<u8>, from: int, to: int) -> Seq<char> {
    decode_utf8(bytes.subrange(from, to))
}

/// Whether the byte at index `at` exists and is `byte`.
pub open spec fn followed_by(bytes: Seq<u8>, at: int, byte: u8) -> bool {
    0 <= at < bytes.len() && bytes[at] == byte
}

/// Whether the digits that start at `start` are followed by a dot and a digit.
pub open spec fn has_fraction(bytes: Seq<u8>, start: int) -> bool {
    let whole = run_end(bytes, start + 1, ByteClass::Digit);
    followed_by(bytes, whole, DOT) && whole + 1 < bytes.len() && is_digit(bytes[whole + 1])
}

/// Whether the digits that start at `start` are followed by a dot that no
/// digit follows.
pub open spec fn has_trailing_dot(bytes: Seq<u8>, start: int) -> bool {
    let whole = run_end(bytes, start + 1, ByteClass::Digit);
    followed_by(bytes, whole, DOT) && !has_fraction(bytes, start)
}

/// Where the number that starts at `start` ends: behind its fraction if it has
/// one, behind a trailing dot if it has that, else behind its digits.
pub open spec fn number_end(bytes: Seq<u8>, start: int) -> int {
    let whole = run_end(bytes, start + 1, ByteClass::Digit);
    if has_fraction(bytes, start) {
        run_end(bytes, whole + 1, ByteClass::Digit)
    } else if followed_by(bytes, whole, DOT) {
        whole + 1
    } else {
        whole
    }
}

/// Whether the string that opens at `start` is closed before the source ends.
pub open spec fn string_is_closed(bytes: Seq<u8>, start: int) -> bool {
    run_end(bytes, start + 1, ByteClass::Except(QUOTE)) < bytes.len()
}

/// The index just behind the lexeme that starts at `start`, always the longest
/// one that a rule allows.
pub open spec fn lexeme_end(bytes: Seq<u8>, start: int) -> int
    recommends
        0 <= start < bytes.len(),
{
    let first = bytes[start];
    let next = start + 1;
    if first == BANG || first == EQUAL || first == LESS || first == GREATER {
        if followed_by(bytes, next, EQUAL) {
            next + 1
        } else {
            next
        }
    } else if first == SLASH {
        if followed_by(bytes, next, SLASH) {
            run_end(bytes, next, ByteClass::Except(NEWLINE))
        } else {
            next
        }
    } else if first == QUOTE {
        if string_is_closed(bytes, start) {
            run_end(bytes, next, ByteClass::Except(QUOTE)) + 1
        } else {
            run_end(bytes, next, ByteClass::Except(QUOTE))
        }
    } else if first == NEWLINE {
        next
    } else if is_whitespace(first) {
        run_end(bytes, next, ByteClass::Blank)
    } else if is_digit(first) {
        number_end(bytes, start)
    } else if is_identifier_byte(first) {
        run_end(bytes, next, ByteClass::Identifier)
    } else if first == LEFT_PARENTHESIS || first == RIGHT_PARENTHESIS || first == LEFT_BRACE
        || first == RIGHT_BRACE || first == COMMA || first == DOT || first == MINUS || first
        == PLUS || first == SEMICOLON || first == STAR {
        next
    } else {
        run_end(bytes, next, ByteClass::Unrecognized)
    }
}

/// A run that starts within the source ends within it.
pub proof fn lemma_run_end_in_bounds(bytes: Seq<u8>, from: int, class: ByteClass)
    requires
        0 <= from <= bytes.len(),
    ensures
        from <= run_end(bytes, from, class) <= bytes.len(),
    decreases bytes.len() - from,
{
    if from < bytes.len() && class.accepts(bytes[from]) {
        lemma_run_end_in_bounds(bytes, from + 1, class);
    }
}

/// A run holds bytes of its class only, and stops at the end of the source or
/// at the first byte that is not of the class.
pub proof fn lemma_run_is_maximal(bytes: Seq<u8>, from: int, class: ByteClass)
    requires
        0 <= from <= bytes.len(),
    ensures
        forall|index: int|
            from <= index < run_end(bytes, from, class) ==> class.accepts(#[trigger] bytes[index]),
        run_end(bytes, from, class) < bytes.len() ==> !class.accepts(
            bytes[run_end(bytes, from, class)],
        ),
    decreases bytes.len() - from,
{
    if from < bytes.len() && class.accepts(bytes[from]) {
        lemma_run_is_maximal(bytes, from + 1, class);
    }
}

/// A lexeme is never empty and ends within the source.
pub proof fn lemma_lexeme_end_in_bounds(bytes: Seq<u8>, start: int)
    requires
        0 <= start < bytes.len(),
    ensures
        start < lexeme_end(bytes, start) <= bytes.len(),
{
    let next = start + 1;
    lemma_run_end_in_bounds(bytes, next, ByteClass::Except(NEWLINE));
    lemma_run_end_in_bounds(bytes, next, ByteClass::Except(QUOTE));
    lemma_run_end_in_bounds(bytes, next, ByteClass::Blank);
    lemma_run_end_in_bounds(bytes, next, ByteClass::Identifier);
    lemma_run_end_in_bounds(bytes, next, ByteClass::Unrecognized);
    lemma_run_end_in_bounds(bytes, next, ByteClass::Digit);
    let whole = run_end(bytes, next, ByteClass::Digit);
    if has_fraction(bytes, start) {
        lemma_run_end_in_bounds(bytes, whole + 1, ByteClass::Digit);
    }
}

/// What a lexeme is.
pub enum LexemeClass {
    /// A token of the given kind.
    Token(TokenKind),
    /// A comment or a run of whitespace within a line: skipped.
    Blank,
    /// A line feed: skipped, and the next line starts.
    LineBreak,
    /// No token, for the given reason.
    Error(LexerErrorKind),
}

/// What the lexeme that starts at `start` is.
pub open spec fn lexeme_class(bytes: Seq<u8>, start: int) -> LexemeClass
    recommends
        0 <= start < bytes.len(),
{
    let first = bytes[start];
    let doubled = followed_by(bytes, start + 1, EQUAL);
    if first == LEFT_PARENTHESIS {
        LexemeClass::Token(TokenKind::LeftParentheses)
    } else if first == RIGHT_PARENTHESIS {
        LexemeClass::Token(TokenKind::RightParentheses)
    } else if first == LEFT_BRACE {
        LexemeClass::Token(TokenKind::LeftBrace)
    } else if first == RIGHT_BRACE {
        LexemeClass::Token(TokenKind::RightBrace)
    } else if first == COMMA {
        LexemeClass::Token(TokenKind::Comma)
    } else if first == DOT {
        LexemeClass::Token(TokenKind::Dot)
    } else if first == MINUS {
        LexemeClass::Token(TokenKind::Minus)
    } else if first == PLUS {
        LexemeClass::Token(TokenKind::Plus)
    } else if first == SEMICOLON {
        LexemeClass::Token(TokenKind::Semicolon)
    } else if first == STAR {
        LexemeClass::Token(TokenKind::Star)
    } else if first == BANG {
        LexemeClass::Token(if doubled { TokenKind::BangEqual } else { TokenKind::Bang })
    } else if first == EQUAL {
        LexemeClass::Token(if doubled { TokenKind::EqualEqual } else { TokenKind::Equal })
    } else if first == LESS {
        LexemeClass::Token(if doubled { TokenKind::LessEqual } else { TokenKind::Less })
    } else if first == GREATER {
        LexemeClass::Token(if doubled { TokenKind::GreaterEqual } else { TokenKind::Greater })
    } else if first == SLASH {
        if followed_by(bytes, start + 1, SLASH) {
            LexemeClass::Blank
        } else {
            LexemeClass::Token(TokenKind::Slash)
        }
    } else if first == QUOTE {
        if string_is_closed(bytes, start) {
            LexemeClass::Token(TokenKind::StringLiteral)
        } else {
            LexemeClass::Error(LexerErrorKind::UnterminatedStringLiteral)
        }
    } else if first == NEWLINE {
        LexemeClass::LineBreak
    } else if is_whitespace(first) {
        LexemeClass::Blank
    } else if is_digit(first) {
        if has_trailing_dot(bytes, start) {
            LexemeClass::Error(LexerErrorKind::NumberTrailingDot)
        } else {
            LexemeClass::Token(TokenKind::NumberLiteral)
        }
    } else if is_identifier_byte(first) {
        LexemeClass::Token(
            TokenKind::keyword_kind(text(bytes, start, lexeme_end(bytes, start))),
        )
    } else {
        LexemeClass::Error(LexerErrorKind::Unrecognized)
    }
}

/// The lexer's position in a source: the bounds of the lexeme read last, the
/// line and column counters, and whether the end-of-file token was given out.
pub struct LexerState {
    pub start: int,
    pub end: int,
    pub line: int,
    pub column: int,
    pub exhausted: bool,
}

/// The state in which lexing starts.
pub open spec fn initial_state() -> LexerState {
    LexerState { start: 0, end: 0, line: 1, column: 0, exhausted: false }
}

/// A token as the model sees it: its text is the source from `from` up to
/// `to`.
pub struct TokenModel {
    pub kind: TokenKind,
    pub from: int,
    pub to: int,
    pub line: int,
    pub column: int,
}

/// An error as the model sees it.
pub struct ErrorModel {
    pub kind: LexerErrorKind,
    pub token: TokenModel,
}

/// A step of the lexer: the state it leaves and what it yields.
pub struct Lexed {
    pub state: LexerState,
    pub item: Result<TokenModel, ErrorModel>,
}

/// The state once the lexeme behind `state.end` has been read: the column has
/// moved on by the grapheme clusters of the lexeme before it.
pub open spec fn begin_lexeme(bytes: Seq<u8>, state: LexerState) -> LexerState {
    LexerState {
        start: state.end,
        end: lexeme_end(bytes, state.end),
        line: state.line,
        column: state.column + grapheme_cluster_count(text(bytes, state.start, state.end)),
        exhausted: state.exhausted,
    }
}

/// The next token or error from `state` on. Blank lexemes are passed over; a
/// line break counts a line and sets the column back to zero. At the end of
/// the source the end-of-file token is given, as often as it is asked for.
pub open spec fn next_token(bytes: Seq<u8>, state: LexerState) -> Lexed
    decreases bytes.len() - state.end,
    via next_token_terminates
{
    if !(0 <= state.end < bytes.len()) {
        Lexed {
            state: LexerState {
                start: state.start,
                end: state.end,
                line: state.line,
                column: state.column,
                exhausted: true,
            },
            item: Ok(
                TokenModel {
                    kind: TokenKind::EndOfFile,
                    from: state.end,
                    to: state.end,
                    line: state.line,
                    column: state.column,
                },
            ),
        }
    } else {
        let begun = begin_lexeme(bytes, state);
        match lexeme_class(bytes, begun.start) {
            LexemeClass::Token(kind) => Lexed {
                state: begun,
                item: Ok(
                    TokenModel {
                        kind,
                        from: if kind == TokenKind::StringLiteral {
                            begun.start + 1
                        } else {
                            begun.start
                        },
                        to: if kind == TokenKind::StringLiteral {
                            begun.end - 1
                        } else {
                            begun.end
                        },
                        line: begun.line,
                        column: begun.column,
                    },
                ),
            },
            LexemeClass::Error(kind) => Lexed {
                state: begun,
                item: Err(
                    ErrorModel {
                        kind,
                        token: TokenModel {
                            kind: TokenKind::Unrecognized,
                            from: begun.start,
                            to: begun.end,
                            line: begun.line,
                            column: begun.column,
                        },
                    },
                ),
            },
            LexemeClass::Blank => next_token(bytes, begun),
            LexemeClass::LineBreak => next_token(
                bytes,
                LexerState {
                    start: begun.start,
                    end: begun.end,
                    line: begun.line + 1,
                    column: 0,
                    exhausted: begun.exhausted,
                },
            ),
        }
    }
}

/// Until the end-of-file token comes, each step of the lexer takes at least
/// one byte; and that token is the only one that ends the lexing.
pub proof fn lemma_next_token_advances(bytes: Seq<u8>, state: LexerState)
    requires
        !state.exhausted,
    ensures
        ({
            let lexed = next_token(bytes, state);
            &&& lexed.state.exhausted <==> (lexed.item matches Ok(token) && token.kind
                == TokenKind::EndOfFile)
            &&& !lexed.state.exhausted ==> state.end < lexed.state.end <= bytes.len()
        }),
    decreases bytes.len() - state.end,
{
    if 0 <= state.end < bytes.len() {
        lemma_lexeme_end_in_bounds(bytes, state.end);
        let begun = begin_lexeme(bytes, state);
        match lexeme_class(bytes, begun.start) {
            LexemeClass::Blank => {
                lemma_next_token_advances(bytes, begun);
            },
            LexemeClass::LineBreak => {
                lemma_next_token_advances(
                    bytes,
                    LexerState {
                        start: begun.start,
                        end: begun.end,
                        line: begun.line + 1,
                        column: 0,
                        exhausted: begun.exhausted,
                    },
                );
            },
            _ => {},
        }
    }
}

/// Everything that the lexer yields from `state` on, in order: tokens and
/// errors, and the end-of-file token last. Nothing comes behind that token.
pub open spec fn remaining_items(bytes: Seq<u8>, state: LexerState) -> Seq<
    Result<TokenModel, ErrorModel>,
>
    decreases bytes.len() - state.end,
    via remaining_items_terminates
{
    if state.exhausted {
        Seq::empty()
    } else {
        let lexed = next_token(bytes, state);
        if lexed.state.exhausted {
            seq![lexed.item]
        } else {
            seq![lexed.item] + remaining_items(bytes, lexed.state)
        }
    }
}

#[via_fn]
proof fn remaining_items_terminates(bytes: Seq<u8>, state: LexerState) {
    if !state.exhausted {
        lemma_next_token_advances(bytes, state);
    }
}

/// Everything that lexing a source yields.
pub open spec fn items(bytes: Seq<u8>) -> Seq<Result<TokenModel, ErrorModel>> {
    remaining_items(bytes, initial_state())
}

/// The first error among `items`, if there is one.
pub open spec fn first_error(items: Seq<Result<TokenModel, ErrorModel>>) -> Option<ErrorModel>
    decreases items.len(),
{
    if items.len() == 0 {
        None
    } else {
        match items[0] {
            Err(error) => Some(error),
            Ok(_) => first_error(items.drop_first()),
        }
    }
}

#[via_fn]
proof fn next_token_terminates(bytes: Seq<u8>, state: LexerState) {
    if 0 <= state.end < bytes.len() {
        lemma_lexeme_end_in_bounds(bytes, state.end);
    }
}

} // verus!
