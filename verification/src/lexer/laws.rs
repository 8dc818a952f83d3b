//! What holds of every source, proved from the model of the lexer.

use crate::lexer::bytes::{is_punctuation, is_whitespace, ByteClass, NEWLINE, QUOTE, SLASH};
use crate::lexer::model::{
    begin_lexeme, followed_by, items, lemma_lexeme_end_in_bounds, lemma_next_token_advances,
    lemma_run_is_maximal, lexeme_class, lexeme_end, next_token, remaining_items, run_end,
    ErrorModel, LexemeClass, LexerState, TokenModel,
};
use crate::lexer::tokens_match;
use crate::token::{Token, TokenKind};
use vstd::prelude::*;
use vstd::string::StringSliceAdditionalSpecFns;

verus! {

/// The bytes of the source that an item stands for.
pub open spec fn item_text(bytes: Seq<u8>, item: Result<TokenModel, ErrorModel>) -> Seq<u8> {
    match item {
        Ok(token) => bytes.subrange(token.from, token.to),
        Err(error) => bytes.subrange(error.token.from, error.token.to),
    }
}

/// The texts of `items`, one behind the other.
pub open spec fn concatenated_text(
    bytes: Seq<u8>,
    items: Seq<Result<TokenModel, ErrorModel>>,
) -> Seq<u8>
    decreases items.len(),
{
    if items.len() == 0 {
        Seq::empty()
    } else {
        item_text(bytes, items[0]) + concatenated_text(bytes, items.drop_first())
    }
}

/// Whether the source holds nothing but operators, delimiters and whitespace.
pub open spec fn only_operators_and_whitespace(bytes: Seq<u8>) -> bool {
    forall|index: int|
        0 <= index < bytes.len() ==> {
            let byte = #[trigger] bytes[index];
            (is_punctuation(byte) && byte != QUOTE) || is_whitespace(byte)
        }
}

/// The end of the line that holds index `from`: the index of the next line
/// feed, or the end of the source.
pub open spec fn line_end(bytes: Seq<u8>, from: int) -> int {
    run_end(bytes, from, ByteClass::Except(NEWLINE))
}

/// How many bytes stand at and behind index `from`.
pub open spec fn bytes_left(bytes: Seq<u8>, from: int) -> nat {
    if from <= bytes.len() {
        (bytes.len() - from) as nat
    } else {
        0
    }
}

/// The source from index `from` on without its whitespace and without its
/// comments, each of which runs from two slashes to the end of the line.
pub open spec fn without_blanks(bytes: Seq<u8>, from: int) -> Seq<u8>
    decreases bytes_left(bytes, from),
{
    if !(0 <= from < bytes.len()) {
        Seq::empty()
    } else if is_whitespace(bytes[from]) {
        without_blanks(bytes, from + 1)
    } else if bytes[from] == SLASH && followed_by(bytes, from + 1, SLASH) {
        without_blanks(bytes, line_end(bytes, from + 1))
    } else {
        seq![bytes[from]] + without_blanks(bytes, from + 1)
    }
}

/// Whitespace from `from` up to `to` adds nothing to the source without
/// blanks.
proof fn lemma_whitespace_is_dropped(bytes: Seq<u8>, from: int, to: int)
    requires
        0 <= from <= to <= bytes.len(),
        forall|index: int| from <= index < to ==> is_whitespace(#[trigger] bytes[index]),
    ensures
        without_blanks(bytes, from) == without_blanks(bytes, to),
    decreases to - from,
{
    if from < to {
        lemma_whitespace_is_dropped(bytes, from + 1, to);
    }
}

/// One step of the lexer takes the next token's text off the front of what is
/// left of the source without blanks, and meets no error.
proof fn lemma_next_token_round_trip(bytes: Seq<u8>, state: LexerState)
    requires
        only_operators_and_whitespace(bytes),
        0 <= state.end <= bytes.len(),
    ensures
        ({
            let lexed = next_token(bytes, state);
            &&& lexed.item is Ok
            &&& 0 <= lexed.state.end <= bytes.len()
            &&& !state.exhausted && lexed.state.exhausted ==> lexed.state.end == bytes.len()
            &&& without_blanks(bytes, state.end) == item_text(bytes, lexed.item) + without_blanks(
                bytes,
                lexed.state.end,
            )
        }),
    decreases bytes.len() - state.end,
{
    let lexed = next_token(bytes, state);
    if state.end < bytes.len() {
        let start = state.end;
        let next = start + 1;
        let end = lexeme_end(bytes, start);
        let begun = begin_lexeme(bytes, state);
        let first = bytes[start];
        lemma_lexeme_end_in_bounds(bytes, start);
        match lexeme_class(bytes, start) {
            LexemeClass::Blank => {
                if first == SLASH {
                } else {
                    lemma_run_is_maximal(bytes, next, ByteClass::Blank);
                    lemma_whitespace_is_dropped(bytes, start, end);
                }
                lemma_next_token_round_trip(bytes, begun);
            },
            LexemeClass::LineBreak => {
                lemma_next_token_round_trip(
                    bytes,
                    LexerState {
                        start: begun.start,
                        end: begun.end,
                        line: begun.line + 1,
                        column: 0,
                        exhausted: begun.exhausted,
                    },
                );
            },
            LexemeClass::Token(kind) => {
                if end == next + 1 {
                    assert(bytes.subrange(start, end) =~= seq![bytes[start]] + seq![bytes[next]]);
                    assert(without_blanks(bytes, next) == seq![bytes[next]] + without_blanks(
                        bytes,
                        end,
                    ));
                } else {
                    assert(bytes.subrange(start, end) =~= seq![bytes[start]]);
                }
                assert(without_blanks(bytes, start) =~= bytes.subrange(start, end)
                    + without_blanks(bytes, end));
            },
            LexemeClass::Error(kind) => {},
        }
    } else {
        assert(item_text(bytes, lexed.item) =~= Seq::<u8>::empty());
    }
}

/// The round trip from any state on.
proof fn lemma_remaining_round_trip(bytes: Seq<u8>, state: LexerState)
    requires
        only_operators_and_whitespace(bytes),
        0 <= state.end <= bytes.len(),
        !state.exhausted,
    ensures
        forall|index: int|
            0 <= index < remaining_items(bytes, state).len() ==> (
            #[trigger] remaining_items(bytes, state)[index]) is Ok,
        concatenated_text(bytes, remaining_items(bytes, state)) == without_blanks(
            bytes,
            state.end,
        ),
    decreases bytes.len() - state.end,
{
    let lexed = next_token(bytes, state);
    let rest = remaining_items(bytes, state);
    lemma_next_token_advances(bytes, state);
    lemma_next_token_round_trip(bytes, state);
    if lexed.state.exhausted {
        assert(rest.drop_first() =~= Seq::empty());
        assert(concatenated_text(bytes, rest.drop_first()) =~= Seq::<u8>::empty());
        assert(concatenated_text(bytes, rest) =~= item_text(bytes, lexed.item));
        assert(without_blanks(bytes, state.end) =~= item_text(bytes, lexed.item));
    } else {
        lemma_remaining_round_trip(bytes, lexed.state);
        assert(rest.drop_first() =~= remaining_items(bytes, lexed.state));
    }
}

/// Round trip: where a source holds nothing but operators, delimiters and
/// whitespace, lexing it meets no error, and the texts of its tokens, put one
/// behind the other, are the source without its whitespace and comments.
pub proof fn lemma_round_trip(bytes: Seq<u8>)
    requires
        only_operators_and_whitespace(bytes),
    ensures
        forall|index: int|
            0 <= index < items(bytes).len() ==> (#[trigger] items(bytes)[index]) is Ok,
        concatenated_text(bytes, items(bytes)) == without_blanks(bytes, 0),
{
    lemma_remaining_round_trip(bytes, crate::lexer::model::initial_state());
}

/// The lexemes of `tokens`, as bytes, one behind the other.
pub open spec fn concatenated_lexemes(tokens: Seq<Token>) -> Seq<u8>
    decreases tokens.len(),
{
    if tokens.len() == 0 {
        Seq::empty()
    } else {
        tokens[0].lexeme.spec_bytes() + concatenated_lexemes(tokens.drop_first())
    }
}

/// Tokens that are what `items` describe have the texts of `items` as their
/// lexemes.
proof fn lemma_lexemes_are_item_texts(
    bytes: Seq<u8>,
    tokens: Seq<Token>,
    items: Seq<Result<TokenModel, ErrorModel>>,
)
    requires
        tokens_match(tokens, bytes, items),
    ensures
        concatenated_lexemes(tokens) == concatenated_text(bytes, items),
    decreases tokens.len(),
{
    if tokens.len() > 0 {
        assert(tokens[0].lexeme.spec_bytes() == item_text(bytes, items[0]));
        assert forall|index: int| 0 <= index < tokens.drop_first().len() implies crate::lexer::result_matches(
            Ok(#[trigger] tokens.drop_first()[index]),
            bytes,
            items.drop_first()[index],
        ) by {
            assert(tokens.drop_first()[index] == tokens[index + 1]);
        }
        lemma_lexemes_are_item_texts(bytes, tokens.drop_first(), items.drop_first());
    }
}

/// Round trip, of the tokens themselves: where a source holds nothing but
/// operators, delimiters and whitespace, the lexemes of the tokens that the
/// lexer gives for it, put one behind the other, are the source without its
/// whitespace and comments.
pub proof fn lemma_round_trip_of_tokens(bytes: Seq<u8>, tokens: Seq<Token>)
    requires
        only_operators_and_whitespace(bytes),
        tokens_match(tokens, bytes, items(bytes)),
    ensures
        concatenated_lexemes(tokens) == without_blanks(bytes, 0),
{
    lemma_round_trip(bytes);
    lemma_lexemes_are_item_texts(bytes, tokens, items(bytes));
}

/// What `lemma_end_of_file_closes` says, from any state on.
proof fn lemma_end_of_file_closes_remaining(bytes: Seq<u8>, state: LexerState)
    requires
        !state.exhausted,
    ensures
        remaining_items(bytes, state).len() > 0,
        forall|index: int|
            0 <= index < remaining_items(bytes, state).len() ==> ((
            #[trigger] remaining_items(bytes, state)[index]) matches Ok(token) && token.kind
                == TokenKind::EndOfFile) == (index == remaining_items(bytes, state).len() - 1),
    decreases bytes.len() - state.end,
{
    let lexed = next_token(bytes, state);
    let rest = remaining_items(bytes, state);
    lemma_next_token_advances(bytes, state);
    if !lexed.state.exhausted {
        lemma_end_of_file_closes_remaining(bytes, lexed.state);
        let tail = remaining_items(bytes, lexed.state);
        assert forall|index: int| 0 <= index < rest.len() implies ((
        #[trigger] rest[index]) matches Ok(token) && token.kind == TokenKind::EndOfFile) == (index
            == rest.len() - 1) by {
            if index > 0 {
                assert(rest[index] == tail[index - 1]);
            }
        }
    }
}

/// Lexing a source yields the end-of-file token exactly once, as the last
/// item.
pub proof fn lemma_end_of_file_closes(bytes: Seq<u8>)
    ensures
        items(bytes).len() > 0,
        forall|index: int|
            0 <= index < items(bytes).len() ==> ((#[trigger] items(bytes)[index]) matches Ok(
                token,
            ) && token.kind == TokenKind::EndOfFile) == (index == items(bytes).len() - 1),
{
    lemma_end_of_file_closes_remaining(bytes, crate::lexer::model::initial_state());
}

/// The end-of-file token has no text.
pub proof fn lemma_end_of_file_is_empty(bytes: Seq<u8>, state: LexerState)
    ensures
        next_token(bytes, state).item matches Ok(token) ==> (token.kind == TokenKind::EndOfFile
            ==> token.from == token.to),
    decreases bytes.len() - state.end,
{
    if 0 <= state.end < bytes.len() {
        lemma_lexeme_end_in_bounds(bytes, state.end);
        let begun = begin_lexeme(bytes, state);
        match lexeme_class(bytes, begun.start) {
            LexemeClass::Blank => {
                lemma_end_of_file_is_empty(bytes, begun);
            },
            LexemeClass::LineBreak => {
                lemma_end_of_file_is_empty(
                    bytes,
                    LexerState {
                        start: begun.start,
                        end: begun.end,
                        line: begun.line + 1,
                        column: 0,
                        exhausted: begun.exhausted,
                    },
                );
            },
            _ => {},
        }
    }
}

} // verus!
