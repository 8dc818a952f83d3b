//! The lexer: source text in, one token at a time out.

pub mod boundaries;
pub mod bytes;
pub mod error;
pub mod graphemes;
pub mod laws;
pub mod model;

use crate::lexer::boundaries::{
    lemma_boundary_after_ascii, lemma_boundary_at_ascii, lemma_boundary_within_prefix,
    lemma_lexeme_ends_at_boundary, text_between,
};
use crate::lexer::bytes::{
    byte_is, byte_is_digit, byte_is_identifier, byte_is_non_newline_whitespace, byte_is_not,
    byte_is_unrecognized, byte_is_whitespace, decides, ByteClass, BANG, COMMA, DOT, EQUAL, GREATER,
    LEFT_BRACE, LEFT_PARENTHESIS, LESS, MINUS, NEWLINE, PLUS, QUOTE, RIGHT_BRACE, RIGHT_PARENTHESIS,
    SEMICOLON, SLASH, STAR,
};
pub use crate::lexer::error::{LexerError, LexerErrorKind};
use crate::lexer::graphemes::{count_grapheme_clusters, grapheme_cluster_count};
use crate::lexer::model::{
    has_trailing_dot, initial_state, lemma_lexeme_end_in_bounds, lemma_run_end_in_bounds,
    lemma_run_is_maximal, lexeme_end, number_end, run_end, string_is_closed, text, ErrorModel,
    LexerState, TokenModel,
};
use crate::token::{Token, TokenKind};
use vstd::prelude::*;
use vstd::string::StringSliceAdditionalSpecFns;
use vstd::utf8::{
    encode_utf8_decode_utf8, encode_utf8_valid_utf8, is_char_boundary,
    is_char_boundary_start_end_of_seq,
};

verus! {

/// Whether `token` is the token that `model` describes in a source of the
/// given bytes: the same kind and position, and as text the bytes that the
/// model marks.
pub open spec fn token_matches(token: Token, bytes: Seq<u8>, model: TokenModel) -> bool {
    &&& token.kind == model.kind
    &&& token.lexeme.spec_bytes() == bytes.subrange(model.from, model.to)
    &&& token.lexeme@ == text(bytes, model.from, model.to)
    &&& token.line == model.line
    &&& token.column == model.column
}

/// Whether `result` is what `item` describes: the token it describes, or the
/// error of its kind on the token it describes.
pub open spec fn result_matches(
    result: Result<Token, LexerError>,
    bytes: Seq<u8>,
    item: Result<TokenModel, ErrorModel>,
) -> bool {
    match (result, item) {
        (Ok(token), Ok(model)) => token_matches(token, bytes, model),
        (Err(error), Err(model)) => error.kind == model.kind && token_matches(
            error.token,
            bytes,
            model.token,
        ),
        _ => false,
    }
}

/// Whether `tokens` are the tokens that `items` describe, one for one, none of
/// `items` being an error.
pub open spec fn tokens_match(
    tokens: Seq<Token>,
    bytes: Seq<u8>,
    items: Seq<Result<TokenModel, ErrorModel>>,
) -> bool {
    &&& tokens.len() == items.len()
    &&& forall|index: int|
        0 <= index < tokens.len() ==> result_matches(
            Ok(#[trigger] tokens[index]),
            bytes,
            items[index],
        )
}

/// Splits Lox source text into tokens, one call at a time.
pub struct Lexer<'a> {
    source: &'a str,
    lexeme_start: usize,
    /// Index of the byte to read next, one behind the last byte of the
    /// current lexeme.
    lexeme_end: usize,
    line: usize,
    column: usize,
    end_of_file_emitted: bool,
}

/// Whether `extend_lexeme_if` took a byte into the lexeme.
#[derive(Debug, Clone, Copy, PartialEq, Eq, Structural)]
enum LexemeStatus {
    Extended,
    NotExtended,
}

impl<'a> Lexer<'a> {
    /// The bytes of the source.
    pub closed spec fn bytes(&self) -> Seq<u8> {
        self.source.spec_bytes()
    }

    /// Where the lexer stands.
    pub closed spec fn state(&self) -> LexerState {
        LexerState {
            start: self.lexeme_start as int,
            end: self.lexeme_end as int,
            line: self.line as int,
            column: self.column as int,
            exhausted: self.end_of_file_emitted,
        }
    }

    /// What holds while a lexeme is being read: the bounds lie in the source,
    /// the lexeme starts at a character boundary, and the counters cannot
    /// overflow.
    closed spec fn scanning(&self) -> bool {
        &&& self.bytes().len() < usize::MAX
        &&& self.lexeme_start <= self.lexeme_end <= self.bytes().len()
        &&& is_char_boundary(self.bytes(), self.lexeme_start as int)
        &&& self.column <= self.lexeme_start
        &&& self.line <= self.lexeme_end + 1
    }

    /// What holds between two tokens: the lexeme read last is a piece of the
    /// source's text.
    pub closed spec fn wf(&self) -> bool {
        &&& self.scanning()
        &&& is_char_boundary(self.bytes(), self.lexeme_end as int)
    }

    /// A lexer at the start of `source`. The source must be shorter than
    /// `usize::MAX` bytes, so that the line counter cannot overflow.
    pub fn new(source: &'a str) -> (lexer: Self)
        requires
            source.spec_bytes().len() < usize::MAX,
        ensures
            lexer.wf(),
            lexer.bytes() == source.spec_bytes(),
            lexer.state() == initial_state(),
    {
        proof {
            encode_utf8_valid_utf8(source@);
            is_char_boundary_start_end_of_seq(source.spec_bytes());
        }
        Lexer {
            source,
            lexeme_start: 0,
            lexeme_end: 0,
            line: 1,
            column: 0,
            end_of_file_emitted: false,
        }
    }

    fn out_of_source_bytes(&self) -> (out: bool)
        ensures
            out == (self.lexeme_end >= self.bytes().len()),
    {
        self.lexeme_end >= self.source.as_bytes().len()
    }

    /// The byte to read next.
    fn current_byte_unchecked(&self) -> (byte: u8)
        requires
            self.lexeme_end < self.bytes().len(),
        ensures
            byte == self.bytes()[self.lexeme_end as int],
    {
        self.source.as_bytes()[self.lexeme_end]
    }

    /// The byte to read next, if there is one.
    fn current_byte(&self) -> (byte: Option<u8>)
        ensures
            byte == if self.lexeme_end < self.bytes().len() {
                Some(self.bytes()[self.lexeme_end as int])
            } else {
                None
            },
    {
        let bytes = self.source.as_bytes();
        if self.lexeme_end < bytes.len() {
            Some(bytes[self.lexeme_end])
        } else {
            None
        }
    }

    /// The current lexeme: the source from `lexeme_start` up to `lexeme_end`.
    fn lexeme(&self) -> (lexeme: &'a str)
        requires
            self.wf(),
        ensures
            lexeme.spec_bytes() == self.bytes().subrange(
                self.lexeme_start as int,
                self.lexeme_end as int,
            ),
            lexeme@ == text(self.bytes(), self.lexeme_start as int, self.lexeme_end as int),
    {
        text_between(self.source, self.lexeme_start, self.lexeme_end)
    }

    fn current_byte_is(&self, target: u8) -> (is: bool)
        ensures
            is == (self.lexeme_end < self.bytes().len() && self.bytes()[self.lexeme_end as int]
                == target),
    {
        match self.current_byte() {
            Some(byte) => byte == target,
            None => false,
        }
    }

    /// Whether this lexer is `before` with nothing changed but the end of the
    /// lexeme, which is now `end`.
    closed spec fn extends(&self, before: &Self, end: int) -> bool {
        &&& self.source == before.source
        &&& self.lexeme_start == before.lexeme_start
        &&& self.lexeme_end == end
        &&& self.line == before.line
        &&& self.column == before.column
        &&& self.end_of_file_emitted == before.end_of_file_emitted
    }

    /// Closes the current lexeme and opens an empty one behind it. The column
    /// moves on by the grapheme clusters of the lexeme that is closed.
    fn start_lexeme(&mut self)
        requires
            old(self).wf(),
        ensures
            final(self).wf(),
            final(self).bytes() == old(self).bytes(),
            final(self).lexeme_start == old(self).lexeme_end,
            final(self).lexeme_end == old(self).lexeme_end,
            final(self).line == old(self).line,
            final(self).column == old(self).column + grapheme_cluster_count(
                text(old(self).bytes(), old(self).lexeme_start as int, old(self).lexeme_end as int),
            ),
            final(self).end_of_file_emitted == old(self).end_of_file_emitted,
    {
        let clusters = count_grapheme_clusters(self.lexeme());
        self.start_lexeme_behind(clusters);
    }

    /// Closes the current lexeme, which is `clusters` grapheme clusters long,
    /// and opens an empty one behind it: the column moves on by `clusters`.
    pub fn start_lexeme_behind(&mut self, clusters: usize)
        requires
            old(self).wf(),
            clusters <= old(self).state().end - old(self).state().start,
        ensures
            final(self).wf(),
            final(self).bytes() == old(self).bytes(),
            final(self).state() == (LexerState {
                start: old(self).state().end,
                end: old(self).state().end,
                line: old(self).state().line,
                column: old(self).state().column + clusters,
                exhausted: old(self).state().exhausted,
            }),
    {
        self.column = self.column + clusters;
        self.lexeme_start = self.lexeme_end;
    }

    /// Takes the next byte into the lexeme.
    fn extend_lexeme(&mut self)
        requires
            old(self).scanning(),
            old(self).lexeme_end < old(self).bytes().len(),
        ensures
            final(self).scanning(),
            final(self).extends(old(self), old(self).lexeme_end + 1),
    {
        self.lexeme_end = self.lexeme_end + 1;
    }

    /// Takes the next byte into the lexeme if there is one and `predicate`
    /// accepts it.
    fn extend_lexeme_if<F: Fn(u8) -> bool>(
        &mut self,
        predicate: &F,
        Ghost(class): Ghost<ByteClass>,
    ) -> (status: LexemeStatus)
        requires
            old(self).scanning(),
            decides(*predicate, class),
        ensures
            final(self).scanning(),
            status == if old(self).lexeme_end < old(self).bytes().len() && class.accepts(
                old(self).bytes()[old(self).lexeme_end as int],
            ) {
                LexemeStatus::Extended
            } else {
                LexemeStatus::NotExtended
            },
            final(self).extends(
                old(self),
                if status == LexemeStatus::Extended {
                    old(self).lexeme_end + 1
                } else {
                    old(self).lexeme_end as int
                },
            ),
    {
        match self.current_byte() {
            Some(byte) => {
                if predicate(byte) {
                    self.extend_lexeme();
                    LexemeStatus::Extended
                } else {
                    LexemeStatus::NotExtended
                }
            },
            None => LexemeStatus::NotExtended,
        }
    }

    /// Takes bytes into the lexeme for as long as `predicate` accepts them.
    fn extend_lexeme_while<F: Fn(u8) -> bool>(&mut self, predicate: F, Ghost(class): Ghost<ByteClass>)
        requires
            old(self).scanning(),
            decides(predicate, class),
        ensures
            final(self).scanning(),
            final(self).extends(
                old(self),
                run_end(old(self).bytes(), old(self).lexeme_end as int, class),
            ),
    {
        loop
            invariant
                self.scanning(),
                decides(predicate, class),
                self.extends(old(self), self.lexeme_end as int),
                old(self).lexeme_end <= self.lexeme_end,
                run_end(self.bytes(), self.lexeme_end as int, class) == run_end(
                    old(self).bytes(),
                    old(self).lexeme_end as int,
                    class,
                ),
            ensures
                self.scanning(),
                self.extends(
                    old(self),
                    run_end(old(self).bytes(), old(self).lexeme_end as int, class),
                ),
            decreases self.bytes().len() - self.lexeme_end,
        {
            match self.extend_lexeme_if(&predicate, Ghost(class)) {
                LexemeStatus::Extended => {},
                LexemeStatus::NotExtended => {
                    break ;
                },
            }
        }
    }

    /// The current lexeme as a token of the given kind; the end-of-file token
    /// has no text.
    fn token(&self, kind: TokenKind) -> (token: Token<'a>)
        requires
            self.wf(),
        ensures
            token_matches(
                token,
                self.bytes(),
                TokenModel {
                    kind,
                    from: if kind == TokenKind::EndOfFile {
                        self.lexeme_end as int
                    } else {
                        self.lexeme_start as int
                    },
                    to: self.lexeme_end as int,
                    line: self.line as int,
                    column: self.column as int,
                },
            ),
    {
        let lexeme = match kind {
            TokenKind::EndOfFile => {
                proof {
                    reveal_strlit("");
                    assert(self.bytes().subrange(self.lexeme_end as int, self.lexeme_end as int)
                        =~= Seq::<u8>::empty());
                    assert(""@ =~= Seq::<char>::empty());
                    encode_utf8_decode_utf8(""@);
                }
                ""
            },
            _ => self.lexeme(),
        };
        Token::new(kind, lexeme, self.line, self.column)
    }

    /// The error of the given kind on the current lexeme.
    fn error(&self, kind: LexerErrorKind) -> (error: LexerError<'a>)
        requires
            self.wf(),
        ensures
            error.kind == kind,
            token_matches(
                error.token,
                self.bytes(),
                TokenModel {
                    kind: TokenKind::Unrecognized,
                    from: self.lexeme_start as int,
                    to: self.lexeme_end as int,
                    line: self.line as int,
                    column: self.column as int,
                },
            ),
    {
        LexerError::new(kind, self.token(TokenKind::Unrecognized))
    }

    /// The lexer as a stream: the next token or error, and `None` once the
    /// end-of-file token has been given out.
    pub fn next(&mut self) -> (item: Option<Result<Token<'a>, LexerError<'a>>>)
        requires
            old(self).wf(),
        ensures
            final(self).wf(),
            final(self).bytes() == old(self).bytes(),
            match item {
                None => old(self).state().exhausted && final(self).state() == old(self).state(),
                Some(result) => {
                    &&& !old(self).state().exhausted
                    &&& final(self).state() == model::next_token(
                        old(self).bytes(),
                        old(self).state(),
                    ).state
                    &&& result_matches(
                        result,
                        old(self).bytes(),
                        model::next_token(old(self).bytes(), old(self).state()).item,
                    )
                    &&& result matches Ok(token) ==> token.wf()
                },
            },
    {
        if self.end_of_file_emitted {
            None
        } else {
            Some(self.next_token())
        }
    }

    /// Reads a number whose first digit is taken: the digits, then a dot with
    /// the digits behind it. A dot that no digit follows is taken too, and the
    /// number is then reported as incomplete.
    fn consume_number_literal(&mut self) -> (complete: bool)
        requires
            old(self).scanning(),
            old(self).lexeme_end == old(self).lexeme_start + 1,
        ensures
            final(self).scanning(),
            final(self).extends(
                old(self),
                number_end(old(self).bytes(), old(self).lexeme_start as int),
            ),
            complete == !has_trailing_dot(old(self).bytes(), old(self).lexeme_start as int),
    {
        self.extend_lexeme_while(byte_is_digit, Ghost(ByteClass::Digit));
        if !self.current_byte_is(DOT) {
            return true;
        }
        self.extend_lexeme();
        match self.current_byte() {
            Some(byte) => {
                if byte_is_digit(byte) {
                    self.extend_lexeme_while(byte_is_digit, Ghost(ByteClass::Digit));
                    true
                } else {
                    false
                }
            },
            None => false,
        }
    }

    /// Reads a string whose opening quote is taken, up to and with the closing
    /// quote. Without one the rest of the source is taken, and the string is
    /// reported as open.
    fn consume_string_literal(&mut self) -> (closed: bool)
        requires
            old(self).scanning(),
            old(self).lexeme_end == old(self).lexeme_start + 1,
        ensures
            final(self).scanning(),
            final(self).extends(
                old(self),
                if closed {
                    run_end(
                        old(self).bytes(),
                        old(self).lexeme_end as int,
                        ByteClass::Except(QUOTE),
                    ) + 1
                } else {
                    run_end(
                        old(self).bytes(),
                        old(self).lexeme_end as int,
                        ByteClass::Except(QUOTE),
                    )
                },
            ),
            closed == string_is_closed(old(self).bytes(), old(self).lexeme_start as int),
    {
        self.extend_lexeme_while(byte_is_not(QUOTE), Ghost(ByteClass::Except(QUOTE)));
        if self.out_of_source_bytes() {
            false
        } else {
            self.extend_lexeme();
            true
        }
    }

    /// The next token of the source, or the next lexical error. Whitespace and
    /// comments are passed over. After an error the following call goes on
    /// behind the bad lexeme. At the end of the source every call gives the
    /// end-of-file token.
    pub fn next_token(&mut self) -> (result: Result<Token<'a>, LexerError<'a>>)
        requires
            old(self).wf(),
        ensures
            final(self).wf(),
            final(self).bytes() == old(self).bytes(),
            final(self).state() == model::next_token(old(self).bytes(), old(self).state()).state,
            result_matches(
                result,
                old(self).bytes(),
                model::next_token(old(self).bytes(), old(self).state()).item,
            ),
            result matches Ok(token) ==> token.wf(),
        decreases old(self).bytes().len() - old(self).state().end,
    {
        if self.out_of_source_bytes() {
            self.end_of_file_emitted = true;
            return Ok(self.token(TokenKind::EndOfFile));
        }
        self.start_lexeme();
        let previous_byte = self.current_byte_unchecked();
        self.extend_lexeme();
        proof {
            encode_utf8_valid_utf8(self.source@);
            lemma_lexeme_ends_at_boundary(self.bytes(), self.lexeme_start as int);
            lemma_lexeme_end_in_bounds(self.bytes(), self.lexeme_start as int);
        }
        if previous_byte == LEFT_PARENTHESIS {
            Ok(self.token(TokenKind::LeftParentheses))
        } else if previous_byte == RIGHT_PARENTHESIS {
            Ok(self.token(TokenKind::RightParentheses))
        } else if previous_byte == LEFT_BRACE {
            Ok(self.token(TokenKind::LeftBrace))
        } else if previous_byte == RIGHT_BRACE {
            Ok(self.token(TokenKind::RightBrace))
        } else if previous_byte == COMMA {
            Ok(self.token(TokenKind::Comma))
        } else if previous_byte == DOT {
            Ok(self.token(TokenKind::Dot))
        } else if previous_byte == MINUS {
            Ok(self.token(TokenKind::Minus))
        } else if previous_byte == PLUS {
            Ok(self.token(TokenKind::Plus))
        } else if previous_byte == SEMICOLON {
            Ok(self.token(TokenKind::Semicolon))
        } else if previous_byte == STAR {
            Ok(self.token(TokenKind::Star))
        } else if previous_byte == BANG {
            match self.extend_lexeme_if(&byte_is(EQUAL), Ghost(ByteClass::Only(EQUAL))) {
                LexemeStatus::Extended => Ok(self.token(TokenKind::BangEqual)),
                LexemeStatus::NotExtended => Ok(self.token(TokenKind::Bang)),
            }
        } else if previous_byte == EQUAL {
            match self.extend_lexeme_if(&byte_is(EQUAL), Ghost(ByteClass::Only(EQUAL))) {
                LexemeStatus::Extended => Ok(self.token(TokenKind::EqualEqual)),
                LexemeStatus::NotExtended => Ok(self.token(TokenKind::Equal)),
            }
        } else if previous_byte == LESS {
            match self.extend_lexeme_if(&byte_is(EQUAL), Ghost(ByteClass::Only(EQUAL))) {
                LexemeStatus::Extended => Ok(self.token(TokenKind::LessEqual)),
                LexemeStatus::NotExtended => Ok(self.token(TokenKind::Less)),
            }
        } else if previous_byte == GREATER {
            match self.extend_lexeme_if(&byte_is(EQUAL), Ghost(ByteClass::Only(EQUAL))) {
                LexemeStatus::Extended => Ok(self.token(TokenKind::GreaterEqual)),
                LexemeStatus::NotExtended => Ok(self.token(TokenKind::Greater)),
            }
        } else if previous_byte == SLASH {
            if self.current_byte_is(SLASH) {
                self.extend_lexeme_while(byte_is_not(NEWLINE), Ghost(ByteClass::Except(NEWLINE)));
                self.next_token()
            } else {
                Ok(self.token(TokenKind::Slash))
            }
        } else if previous_byte == QUOTE {
            if self.consume_string_literal() {
                let quoted = self.lexeme();
                proof {
                    lemma_run_end_in_bounds(
                        self.bytes(),
                        self.lexeme_start + 1,
                        ByteClass::Except(QUOTE),
                    );
                    lemma_run_is_maximal(
                        self.bytes(),
                        self.lexeme_start + 1,
                        ByteClass::Except(QUOTE),
                    );
                    encode_utf8_valid_utf8(quoted@);
                    lemma_boundary_after_ascii(quoted.spec_bytes(), 0);
                    lemma_boundary_at_ascii(quoted.spec_bytes(), quoted.spec_bytes().len() - 1);
                }
                let unquoted = trim_first_and_last(quoted);
                proof {
                    assert(unquoted.spec_bytes() =~= self.bytes().subrange(
                        self.lexeme_start + 1,
                        self.lexeme_end - 1,
                    ));
                    encode_utf8_decode_utf8(unquoted@);
                }
                Ok(Token::new(TokenKind::StringLiteral, unquoted, self.line, self.column))
            } else {
                Err(self.error(LexerErrorKind::UnterminatedStringLiteral))
            }
        } else if previous_byte == NEWLINE {
            self.line = self.line + 1;
            self.column = 0;
            self.next_token()
        } else if byte_is_whitespace(previous_byte) {
            self.extend_lexeme_while(byte_is_non_newline_whitespace, Ghost(ByteClass::Blank));
            self.next_token()
        } else if byte_is_digit(previous_byte) {
            if self.consume_number_literal() {
                Ok(self.token(TokenKind::NumberLiteral))
            } else {
                Err(self.error(LexerErrorKind::NumberTrailingDot))
            }
        } else if byte_is_identifier(previous_byte) {
            self.extend_lexeme_while(byte_is_identifier, Ghost(ByteClass::Identifier));
            let kind = TokenKind::parse_keyword(self.lexeme());
            Ok(self.token(kind))
        } else {
            self.extend_lexeme_while(byte_is_unrecognized, Ghost(ByteClass::Unrecognized));
            Err(self.error(LexerErrorKind::Unrecognized))
        }
    }
}

/// The text between the first and the last byte of `s`; empty where `s` has
/// fewer than two bytes or cannot be cut there.
fn trim_first_and_last(s: &str) -> (trimmed: &str)
    ensures
        trimmed.spec_bytes() == if s.spec_bytes().len() >= 2 && is_char_boundary(s.spec_bytes(), 1)
            && is_char_boundary(s.spec_bytes(), s.spec_bytes().len() - 1) {
            s.spec_bytes().subrange(1, s.spec_bytes().len() - 1)
        } else {
            Seq::<u8>::empty()
        },
{
    let length = s.as_bytes().len();
    if length >= 2 && s.is_char_boundary(1) && s.is_char_boundary(length - 1) {
        proof {
            encode_utf8_valid_utf8(s@);
            lemma_boundary_within_prefix(s.spec_bytes(), 1, length - 1);
        }
        let (head, _) = s.split_at(length - 1);
        let (_, trimmed) = head.split_at(1);
        assert(trimmed.spec_bytes() =~= s.spec_bytes().subrange(1, length - 1));
        trimmed
    } else {
        proof {
            reveal_strlit("");
            assert(""@ =~= Seq::<char>::empty());
        }
        ""
    }
}

} // verus!
