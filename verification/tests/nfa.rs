use lox::nfa::{lex, transition, State};
use lox::token::TokenKind;

#[test]
fn test_lex() {
    let source = "!(=)<{>\n}!=,==.<=->=+;*\"\"\"this is a second string literal!\"";
    let mut kinds = Vec::new();
    for token in lex(source) {
        println!("{:?}    {:?}", token, token.kind());
        kinds.push(token.kind());
    }
    assert_eq!(
        kinds,
        vec![
            TokenKind::Bang,
            TokenKind::LeftParentheses,
            TokenKind::Equal,
            TokenKind::RightParentheses,
            TokenKind::Less,
            TokenKind::LeftBrace,
            TokenKind::Greater,
            TokenKind::RightBrace,
            TokenKind::BangEqual,
            TokenKind::Comma,
            TokenKind::EqualEqual,
            TokenKind::Dot,
            TokenKind::LessEqual,
            TokenKind::Minus,
            TokenKind::GreaterEqual,
            TokenKind::Plus,
            TokenKind::Semicolon,
            TokenKind::Star,
            TokenKind::StringLiteral,
            TokenKind::StringLiteral,
        ]
    );
}

#[test]
fn automaton_positions_and_texts() {
    let tokens = lex("(\n\"ab\"!=");
    assert_eq!(tokens.len(), 3);
    assert_eq!(tokens[0].lexeme(), "(");
    assert_eq!((tokens[0].line(), tokens[0].column()), (1, 0));
    assert_eq!(tokens[1].kind(), TokenKind::StringLiteral);
    assert_eq!(tokens[1].lexeme(), "\"ab\"");
    assert_eq!((tokens[1].line(), tokens[1].column()), (2, 0));
    assert_eq!(tokens[2].kind(), TokenKind::BangEqual);
    assert_eq!((tokens[2].line(), tokens[2].column()), (2, 4));
}

#[test]
fn automaton_gives_no_token_that_is_still_open() {
    assert!(lex("").is_empty());
    assert!(lex("!").is_empty());
    assert!(lex("\"open").is_empty());
    let tokens = lex("+<");
    assert_eq!(tokens.len(), 1);
    assert_eq!(tokens[0].kind(), TokenKind::Plus);
}

#[test]
fn automaton_table() {
    assert_eq!(transition(State::Start, b'('), State::LeftParentheses);
    assert_eq!(transition(State::Start, b'!'), State::CheckForBangEqual);
    assert_eq!(transition(State::CheckForBangEqual, b'='), State::BangEqual);
    assert_eq!(transition(State::CheckForBangEqual, b'x'), State::Bang);
    assert_eq!(transition(State::Start, b'x'), State::Start);
    assert_eq!(transition(State::OpenQuote, b'x'), State::StringBody);
    assert_eq!(transition(State::StringBody, b'"'), State::StringLiteral);
    assert_eq!(transition(State::Comma, b'x'), State::Comma);
    assert!(State::Bang.is_final());
    assert!(!State::Bang.is_symbol_consumed());
    assert!(State::BangEqual.is_symbol_consumed());
    assert!(!State::Start.is_final());
    assert!(!State::StringBody.is_final());
    assert_eq!(State::Asterisk.as_token_kind(), TokenKind::Star);
    assert_eq!(State::StringLiteral.as_token_kind(), TokenKind::StringLiteral);
    assert_eq!(State::Start.as_token_kind(), TokenKind::Unrecognized);
}
