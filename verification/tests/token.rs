use lox::token::{OwnedToken, Token, TokenKind};

#[test]
fn keyword_lookup_defaults_to_identifier() {
    assert_eq!(TokenKind::parse_keyword("and"), TokenKind::And);
    assert_eq!(TokenKind::parse_keyword("while"), TokenKind::While);
    assert_eq!(TokenKind::parse_keyword("fun"), TokenKind::Fun);
    assert_eq!(TokenKind::parse_keyword("for"), TokenKind::For);
    assert_eq!(TokenKind::parse_keyword("nil"), TokenKind::Nil);
    assert_eq!(TokenKind::parse_keyword("While"), TokenKind::Identifier);
    assert_eq!(TokenKind::parse_keyword("whil"), TokenKind::Identifier);
    assert_eq!(TokenKind::parse_keyword("whiles"), TokenKind::Identifier);
    assert_eq!(TokenKind::parse_keyword(""), TokenKind::Identifier);
}

#[test]
fn kind_names() {
    assert_eq!(TokenKind::Unrecognized.as_str(), "Unrecognized");
    assert_eq!(TokenKind::EndOfFile.as_str(), "EndOfFile");
    assert_eq!(TokenKind::LeftParentheses.as_str(), "LeftParentheses");
    assert_eq!(TokenKind::GreaterEqual.as_str(), "GreaterEqual");
    assert_eq!(TokenKind::StringLiteral.as_str(), "StringLiteral");
    assert_eq!(TokenKind::NumberLiteral.as_str(), "NumberLiteral");
    assert_eq!(TokenKind::While.as_str(), "While");
}

#[test]
fn is_any_looks_through_the_list() {
    let term = [TokenKind::Plus, TokenKind::Minus];
    assert!(TokenKind::Plus.is_any(&term));
    assert!(TokenKind::Minus.is_any(&term));
    assert!(!TokenKind::Star.is_any(&term));
    assert!(!TokenKind::Plus.is_any(&[]));
}

#[test]
fn token_accessors() {
    let token = Token::new(TokenKind::Identifier, "name", 3, 7);
    assert_eq!(token.kind(), TokenKind::Identifier);
    assert_eq!(token.lexeme(), "name");
    assert_eq!(token.line(), 3);
    assert_eq!(token.column(), 7);
    assert!(!token.is_end_of_file());
    assert!(!token.kind().is_end_of_file());
}

#[test]
fn end_of_file_token_has_no_text() {
    let token = Token::end_of_file(4, 2);
    assert_eq!(token.kind(), TokenKind::EndOfFile);
    assert_eq!(token.lexeme(), "");
    assert_eq!(token.line(), 4);
    assert_eq!(token.column(), 2);
    assert!(token.is_end_of_file());
    assert!(TokenKind::EndOfFile.is_end_of_file());
}

#[test]
fn owned_token_copies_the_text() {
    let source = String::from("print");
    let owned = {
        let token = Token::new(TokenKind::Print, &source, 1, 0);
        OwnedToken::from_token(token)
    };
    drop(source);
    assert_eq!(owned.kind(), TokenKind::Print);
    assert_eq!(owned.lexeme(), "print");
    assert!(!owned.is_end_of_file());
    assert_eq!(owned, OwnedToken::new(TokenKind::Print, "print", 1, 0));

    let end = OwnedToken::end_of_file(2, 5);
    assert!(end.is_end_of_file());
    assert_eq!(end.lexeme(), "");
}
