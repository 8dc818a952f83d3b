//! A lexer for operators, delimiters and strings, written as a finite
//! automaton: a table of states and one step per byte.

use crate::lexer::boundaries::{lemma_boundary_after_ascii, text_between};
use crate::lexer::bytes::{
    is_ascii, BANG, COMMA, DOT, EQUAL, GREATER, LEFT_BRACE, LEFT_PARENTHESIS, LESS, MINUS,
    NEWLINE, PLUS, QUOTE, RIGHT_BRACE, RIGHT_PARENTHESIS, SEMICOLON, STAR,
};
use crate::lexer::model::TokenModel;
use crate::lexer::token_matches;
use crate::token::{Token, TokenKind};
use vstd::prelude::*;
use vstd::string::StringSliceAdditionalSpecFns;
use vstd::utf8::{
    encode_utf8_valid_utf8, is_char_boundary, is_char_boundary_start_end_of_seq, valid_utf8,
};

verus! {

/// The states of the automaton.
#[derive(Debug, Clone, Copy, PartialEq, Eq, Structural)]
pub enum State {
    Start,
    LeftParentheses,
    RightParentheses,
    LeftBrace,
    RightBrace,
    Comma,
    Dot,
    Minus,
    Plus,
    Semicolon,
    Asterisk,
    CheckForBangEqual,
    Bang,
    BangEqual,
    CheckForEqualEqual,
    Equal,
    EqualEqual,
    CheckForGreaterEqual,
    Greater,
    GreaterEqual,
    CheckForLessEqual,
    Less,
    LessEqual,
    OpenQuote,
    StringBody,
    StringLiteral,
    NewLine,
}

impl State {
    /// The states in which a token is complete: those that have a token kind.
    pub open spec fn accepts(self) -> bool {
        self.token_kind() != TokenKind::Unrecognized
    }

    /// Whether the state is entered by taking the byte that leads to it. The
    /// four operators of one character that can be the start of an operator
    /// of two are entered on a byte that is left for the next token.
    pub open spec fn consumes(self) -> bool {
        self != State::Bang && self != State::Equal && self != State::Greater && self
            != State::Less
    }

    /// The kind of the token that is complete in this state; `Unrecognized`
    /// where none is.
    pub open spec fn token_kind(self) -> TokenKind {
        match self {
            State::LeftParentheses => TokenKind::LeftParentheses,
            State::RightParentheses => TokenKind::RightParentheses,
            State::LeftBrace => TokenKind::LeftBrace,
            State::RightBrace => TokenKind::RightBrace,
            State::Comma => TokenKind::Comma,
            State::Dot => TokenKind::Dot,
            State::Minus => TokenKind::Minus,
            State::Plus => TokenKind::Plus,
            State::Semicolon => TokenKind::Semicolon,
            State::Asterisk => TokenKind::Star,
            State::Bang => TokenKind::Bang,
            State::Equal => TokenKind::Equal,
            State::Greater => TokenKind::Greater,
            State::Less => TokenKind::Less,
            State::BangEqual => TokenKind::BangEqual,
            State::EqualEqual => TokenKind::EqualEqual,
            State::GreaterEqual => TokenKind::GreaterEqual,
            State::LessEqual => TokenKind::LessEqual,
            State::StringLiteral => TokenKind::StringLiteral,
            _ => TokenKind::Unrecognized,
        }
    }

    pub fn is_final(&self) -> (accepting: bool)
        ensures
            accepting == self.accepts(),
    {
        match self {
            State::LeftParentheses
            | State::RightParentheses
            | State::LeftBrace
            | State::RightBrace
            | State::Comma
            | State::Dot
            | State::Minus
            | State::Plus
            | State::Semicolon
            | State::Asterisk
            | State::Bang
            | State::Equal
            | State::Greater
            | State::Less
            | State::BangEqual
            | State::EqualEqual
            | State::GreaterEqual
            | State::LessEqual
            | State::StringLiteral => true,
            _ => false,
        }
    }

    pub fn is_symbol_consumed(&self) -> (consumed: bool)
        ensures
            consumed == self.consumes(),
    {
        match self {
            State::Start
            | State::LeftParentheses
            | State::RightParentheses
            | State::LeftBrace
            | State::RightBrace
            | State::Comma
            | State::Dot
            | State::Minus
            | State::Plus
            | State::Semicolon
            | State::Asterisk
            | State::BangEqual
            | State::EqualEqual
            | State::GreaterEqual
            | State::LessEqual
            | State::CheckForBangEqual
            | State::CheckForEqualEqual
            | State::CheckForLessEqual
            | State::CheckForGreaterEqual
            | State::OpenQuote
            | State::StringLiteral
            | State::StringBody
            | State::NewLine => true,
            _ => false,
        }
    }

    pub fn as_token_kind(&self) -> (kind: TokenKind)
        ensures
            kind == self.token_kind(),
    {
        match self {
            State::LeftParentheses => TokenKind::LeftParentheses,
            State::RightParentheses => TokenKind::RightParentheses,
            State::LeftBrace => TokenKind::LeftBrace,
            State::RightBrace => TokenKind::RightBrace,
            State::Comma => TokenKind::Comma,
            State::Dot => TokenKind::Dot,
            State::Minus => TokenKind::Minus,
            State::Plus => TokenKind::Plus,
            State::Semicolon => TokenKind::Semicolon,
            State::Asterisk => TokenKind::Star,
            State::Bang => TokenKind::Bang,
            State::Equal => TokenKind::Equal,
            State::Greater => TokenKind::Greater,
            State::Less => TokenKind::Less,
            State::BangEqual => TokenKind::BangEqual,
            State::EqualEqual => TokenKind::EqualEqual,
            State::GreaterEqual => TokenKind::GreaterEqual,
            State::LessEqual => TokenKind::LessEqual,
            State::StringLiteral => TokenKind::StringLiteral,
            _ => TokenKind::Unrecognized,
        }
    }
}

/// The state that follows `state` on the byte `symbol`. From the start state
/// a byte that starts no token leads back to it; a state without a rule for
/// the byte stays as it is.
pub open spec fn next_state(state: State, symbol: u8) -> State {
    match state {
        State::Start => {
            if symbol == LEFT_PARENTHESIS {
                State::LeftParentheses
            } else if symbol == RIGHT_PARENTHESIS {
                State::RightParentheses
            } else if symbol == LEFT_BRACE {
                State::LeftBrace
            } else if symbol == RIGHT_BRACE {
                State::RightBrace
            } else if symbol == COMMA {
                State::Comma
            } else if symbol == DOT {
                State::Dot
            } else if symbol == MINUS {
                State::Minus
            } else if symbol == PLUS {
                State::Plus
            } else if symbol == SEMICOLON {
                State::Semicolon
            } else if symbol == STAR {
                State::Asterisk
            } else if symbol == NEWLINE {
                State::NewLine
            } else if symbol == BANG {
                State::CheckForBangEqual
            } else if symbol == EQUAL {
                State::CheckForEqualEqual
            } else if symbol == LESS {
                State::CheckForLessEqual
            } else if symbol == GREATER {
                State::CheckForGreaterEqual
            } else if symbol == QUOTE {
                State::OpenQuote
            } else {
                State::Start
            }
        },
        State::CheckForBangEqual => if symbol == EQUAL {
            State::BangEqual
        } else {
            State::Bang
        },
        State::CheckForEqualEqual => if symbol == EQUAL {
            State::EqualEqual
        } else {
            State::Equal
        },
        State::CheckForGreaterEqual => if symbol == EQUAL {
            State::GreaterEqual
        } else {
            State::Greater
        },
        State::CheckForLessEqual => if symbol == EQUAL {
            State::LessEqual
        } else {
            State::Less
        },
        State::OpenQuote | State::StringBody => if symbol == QUOTE {
            State::StringLiteral
        } else {
            State::StringBody
        },
        _ => state,
    }
}

pub fn transition(state: State, symbol: u8) -> (next: State)
    ensures
        next == next_state(state, symbol),
{
    match state {
        State::Start => {
            if symbol == LEFT_PARENTHESIS {
                State::LeftParentheses
            } else if symbol == RIGHT_PARENTHESIS {
                State::RightParentheses
            } else if symbol == LEFT_BRACE {
                State::LeftBrace
            } else if symbol == RIGHT_BRACE {
                State::RightBrace
            } else if symbol == COMMA {
                State::Comma
            } else if symbol == DOT {
                State::Dot
            } else if symbol == MINUS {
                State::Minus
            } else if symbol == PLUS {
                State::Plus
            } else if symbol == SEMICOLON {
                State::Semicolon
            } else if symbol == STAR {
                State::Asterisk
            } else if symbol == NEWLINE {
                State::NewLine
            } else if symbol == BANG {
                State::CheckForBangEqual
            } else if symbol == EQUAL {
                State::CheckForEqualEqual
            } else if symbol == LESS {
                State::CheckForLessEqual
            } else if symbol == GREATER {
                State::CheckForGreaterEqual
            } else if symbol == QUOTE {
                State::OpenQuote
            } else {
                State::Start
            }
        },
        State::CheckForBangEqual => if symbol == EQUAL {
            State::BangEqual
        } else {
            State::Bang
        },
        State::CheckForEqualEqual => if symbol == EQUAL {
            State::EqualEqual
        } else {
            State::Equal
        },
        State::CheckForGreaterEqual => if symbol == EQUAL {
            State::GreaterEqual
        } else {
            State::Greater
        },
        State::CheckForLessEqual => if symbol == EQUAL {
            State::LessEqual
        } else {
            State::Less
        },
        State::OpenQuote | State::StringBody => if symbol == QUOTE {
            State::StringLiteral
        } else {
            State::StringBody
        },
        _ => state,
    }
}

/// Where the automaton stands in a source: its state, the bounds of the
/// text read since the last token, and the line and column counters.
pub struct Machine {
    pub state: State,
    pub start: int,
    pub end: int,
    pub line: int,
    pub column: int,
}

/// The machine before the first byte.
pub open spec fn initial_machine() -> Machine {
    Machine { state: State::Start, start: 0, end: 0, line: 1, column: 0 }
}

/// How many bytes stand at and behind index `from`.
pub open spec fn bytes_left(bytes: Seq<u8>, from: int) -> nat {
    if from <= bytes.len() {
        (bytes.len() - from) as nat
    } else {
        0
    }
}

/// The tokens that the automaton gives from `machine` on. Each step looks at
/// one byte. A line feed counts a line; an accepting state gives a token whose
/// text is everything read since the token before, and the column moves on by
/// the length of that text in bytes. A token that is still open when the
/// source ends is not given.
pub open spec fn tokens_from(bytes: Seq<u8>, machine: Machine) -> Seq<TokenModel>
    decreases bytes_left(bytes, machine.end), (if machine.state == State::Start {
        0nat
    } else {
        1nat
    }),
{
    if !(0 <= machine.end < bytes.len()) {
        Seq::empty()
    } else {
        let state = next_state(machine.state, bytes[machine.end]);
        let end = if state.consumes() {
            machine.end + 1
        } else {
            machine.end
        };
        if state == State::NewLine {
            tokens_from(
                bytes,
                Machine { state: State::Start, start: end, end, line: machine.line + 1, column: 0 },
            )
        } else if state.accepts() {
            seq![
                TokenModel {
                    kind: state.token_kind(),
                    from: machine.start,
                    to: end,
                    line: machine.line,
                    column: machine.column,
                },
            ] + tokens_from(
                bytes,
                Machine {
                    state: State::Start,
                    start: end,
                    end,
                    line: machine.line,
                    column: machine.column + (end - machine.start),
                },
            )
        } else {
            tokens_from(
                bytes,
                Machine {
                    state,
                    start: machine.start,
                    end,
                    line: machine.line,
                    column: machine.column,
                },
            )
        }
    }
}

/// Whether `tokens` are the tokens that `models` describe, one for one.
pub open spec fn tokens_follow(tokens: Seq<Token>, bytes: Seq<u8>, models: Seq<TokenModel>) -> bool {
    &&& tokens.len() == models.len()
    &&& forall|index: int|
        0 <= index < tokens.len() ==> token_matches(#[trigger] tokens[index], bytes, models[index])
}

/// The states in which the automaton can stand between two bytes.
spec fn between_bytes(state: State) -> bool {
    match state {
        State::Start
        | State::CheckForBangEqual
        | State::CheckForEqualEqual
        | State::CheckForGreaterEqual
        | State::CheckForLessEqual
        | State::OpenQuote
        | State::StringBody => true,
        _ => false,
    }
}

/// Runs the automaton over `source` and collects its tokens. The source must
/// be shorter than `usize::MAX` bytes, so that the line counter cannot
/// overflow.
pub fn lex<'a>(source: &'a str) -> (tokens: Vec<Token<'a>>)
    requires
        source.spec_bytes().len() < usize::MAX,
    ensures
        tokens_follow(tokens@, source.spec_bytes(), tokens_from(source.spec_bytes(), initial_machine())),
{
    let bytes = source.as_bytes();
    let ghost all = tokens_from(bytes@, initial_machine());
    let mut tokens: Vec<Token<'a>> = Vec::new();
    let mut lexeme_start: usize = 0;
    let mut lexeme_end: usize = 0;
    let mut line: usize = 1;
    let mut column: usize = 0;
    let mut state = State::Start;
    proof {
        encode_utf8_valid_utf8(source@);
        is_char_boundary_start_end_of_seq(bytes@);
    }
    while lexeme_end < bytes.len()
        invariant
            bytes@ == source.spec_bytes(),
            valid_utf8(bytes@),
            bytes@.len() < usize::MAX,
            all == tokens_from(bytes@, initial_machine()),
            lexeme_start <= lexeme_end <= bytes@.len(),
            is_char_boundary(bytes@, lexeme_start as int),
            state != State::Start && state != State::OpenQuote && state != State::StringBody
                ==> is_char_boundary(bytes@, lexeme_end as int),
            between_bytes(state),
            column <= lexeme_start,
            line <= lexeme_end + 1,
            tokens@.len() <= all.len(),
            all.skip(tokens@.len() as int) == tokens_from(
                bytes@,
                Machine {
                    state,
                    start: lexeme_start as int,
                    end: lexeme_end as int,
                    line: line as int,
                    column: column as int,
                },
            ),
            forall|index: int|
                0 <= index < tokens@.len() ==> token_matches(
                    #[trigger] tokens@[index],
                    bytes@,
                    all[index],
                ),
        decreases bytes@.len() - lexeme_end, (if state == State::Start {
            0nat
        } else {
            1nat
        }),
    {
        let ghost rest = all.skip(tokens@.len() as int);
        let symbol = bytes[lexeme_end];
        let new_state = transition(state, symbol);
        if new_state.is_symbol_consumed() {
            proof {
                if is_ascii(symbol) {
                    lemma_boundary_after_ascii(bytes@, lexeme_end as int);
                }
            }
            lexeme_end += 1;
        }
        state = new_state;
        if state == State::NewLine {
            state = State::Start;
            line += 1;
            column = 0;
            lexeme_start = lexeme_end;
        } else if state.is_final() {
            let lexeme = text_between(source, lexeme_start, lexeme_end);
            let token = Token::new(state.as_token_kind(), lexeme, line, column);
            proof {
                assert(rest.len() > 0);
                assert(all[tokens@.len() as int] == rest[0]);
                assert(all.skip(tokens@.len() as int + 1) =~= rest.drop_first());
            }
            tokens.push(token);
            state = State::Start;
            column += lexeme_end - lexeme_start;
            lexeme_start = lexeme_end;
        }
    }
    proof {
        assert(all.skip(tokens@.len() as int).len() == 0);
    }
    tokens
}

} // verus!
