use lox::lexer::error::LexerErrorKind;
use lox::lexer::{Lexer, LexerError};
use lox::token::{Token, TokenKind};

fn lex_all(source: &str) -> Vec<Result<Token<'_>, LexerError<'_>>> {
    let mut lexer = Lexer::new(source);
    let mut items = Vec::new();
    while let Some(item) = lexer.next() {
        items.push(item);
    }
    items
}

fn kinds(source: &str) -> Vec<TokenKind> {
    lex_all(source).into_iter().map(|item| item.unwrap().kind()).collect()
}

#[test]
fn maximal_munch_prefers_bang_equal() {
    let mut lexer = Lexer::new("!=");
    let token = lexer.next_token().unwrap();
    assert_eq!(token.kind(), TokenKind::BangEqual);
    assert_eq!(token.lexeme(), "!=");
    let end = lexer.next_token().unwrap();
    assert_eq!(end.kind(), TokenKind::EndOfFile);
    assert_eq!(end.lexeme(), "");
    assert_eq!(kinds("!="), vec![TokenKind::BangEqual, TokenKind::EndOfFile]);
}

#[test]
fn one_and_two_character_operators() {
    assert_eq!(
        kinds("! != = == < <= > >= / ( ) { } , . - + ; *"),
        vec![
            TokenKind::Bang,
            TokenKind::BangEqual,
            TokenKind::Equal,
            TokenKind::EqualEqual,
            TokenKind::Less,
            TokenKind::LessEqual,
            TokenKind::Greater,
            TokenKind::GreaterEqual,
            TokenKind::Slash,
            TokenKind::LeftParentheses,
            TokenKind::RightParentheses,
            TokenKind::LeftBrace,
            TokenKind::RightBrace,
            TokenKind::Comma,
            TokenKind::Dot,
            TokenKind::Minus,
            TokenKind::Plus,
            TokenKind::Semicolon,
            TokenKind::Star,
            TokenKind::EndOfFile,
        ]
    );
    assert_eq!(
        kinds("==="),
        vec![TokenKind::EqualEqual, TokenKind::Equal, TokenKind::EndOfFile]
    );
}

#[test]
fn unterminated_string_is_one_error_then_end_of_file() {
    let mut lexer = Lexer::new("\"abc");
    let error = lexer.next().unwrap().unwrap_err();
    assert_eq!(error.kind(), LexerErrorKind::UnterminatedStringLiteral);
    assert_eq!(error.token().kind(), TokenKind::Unrecognized);
    assert_eq!(error.token().lexeme(), "\"abc");
    let end = lexer.next().unwrap().unwrap();
    assert_eq!(end.kind(), TokenKind::EndOfFile);
    assert!(lexer.next().is_none());
}

#[test]
fn trailing_dot_is_an_error_and_a_fraction_is_a_number() {
    let items = lex_all("1.");
    assert_eq!(items.len(), 2);
    let error = items[0].unwrap_err();
    assert_eq!(error.kind(), LexerErrorKind::NumberTrailingDot);
    assert_eq!(error.token().lexeme(), "1.");
    assert_eq!(items[1].unwrap().kind(), TokenKind::EndOfFile);

    let items = lex_all("1.5");
    assert_eq!(items.len(), 2);
    let number = items[0].unwrap();
    assert_eq!(number.kind(), TokenKind::NumberLiteral);
    assert_eq!(number.lexeme(), "1.5");
    assert_eq!(items[1].unwrap().kind(), TokenKind::EndOfFile);
}

#[test]
fn lexing_goes_on_behind_an_error() {
    let items = lex_all("12.x 7");
    assert_eq!(items.len(), 4);
    assert_eq!(items[0].unwrap_err().kind(), LexerErrorKind::NumberTrailingDot);
    assert_eq!(items[0].unwrap_err().token().lexeme(), "12.");
    assert_eq!(items[1].unwrap().kind(), TokenKind::Identifier);
    assert_eq!(items[1].unwrap().lexeme(), "x");
    assert_eq!(items[2].unwrap().kind(), TokenKind::NumberLiteral);
    assert_eq!(items[2].unwrap().lexeme(), "7");
    assert_eq!(items[3].unwrap().kind(), TokenKind::EndOfFile);
}

#[test]
fn unrecognized_bytes_come_as_one_run() {
    let items = lex_all("a @#$ b");
    assert_eq!(items.len(), 4);
    assert_eq!(items[0].unwrap().lexeme(), "a");
    let error = items[1].unwrap_err();
    assert_eq!(error.kind(), LexerErrorKind::Unrecognized);
    assert_eq!(error.token().kind(), TokenKind::Unrecognized);
    assert_eq!(error.token().lexeme(), "@#$");
    assert_eq!(error.token().column(), 2);
    assert_eq!(items[2].unwrap().lexeme(), "b");
    assert_eq!(items[3].unwrap().kind(), TokenKind::EndOfFile);

    let items = lex_all("é+");
    assert_eq!(items[0].unwrap_err().token().lexeme(), "é");
    assert_eq!(items[1].unwrap().kind(), TokenKind::Plus);
    assert_eq!(items[1].unwrap().column(), 1);
}

#[test]
fn string_lexeme_leaves_the_quotes_out() {
    let items = lex_all("\"hello world\" \"\"");
    assert_eq!(items.len(), 3);
    assert_eq!(items[0].unwrap().kind(), TokenKind::StringLiteral);
    assert_eq!(items[0].unwrap().lexeme(), "hello world");
    assert_eq!(items[1].unwrap().kind(), TokenKind::StringLiteral);
    assert_eq!(items[1].unwrap().lexeme(), "");
    assert_eq!(items[1].unwrap().column(), 14);
    assert_eq!(items[2].unwrap().kind(), TokenKind::EndOfFile);
}

#[test]
fn keywords_and_identifiers() {
    assert_eq!(
        kinds("and class else false fun for if nil or print return super this true var while"),
        vec![
            TokenKind::And,
            TokenKind::Class,
            TokenKind::Else,
            TokenKind::False,
            TokenKind::Fun,
            TokenKind::For,
            TokenKind::If,
            TokenKind::Nil,
            TokenKind::Or,
            TokenKind::Print,
            TokenKind::Return,
            TokenKind::Super,
            TokenKind::This,
            TokenKind::True,
            TokenKind::Var,
            TokenKind::While,
            TokenKind::EndOfFile,
        ]
    );
    let items = lex_all("_under score1 classy");
    assert_eq!(items[0].unwrap().kind(), TokenKind::Identifier);
    assert_eq!(items[0].unwrap().lexeme(), "_under");
    assert_eq!(items[1].unwrap().kind(), TokenKind::Identifier);
    assert_eq!(items[1].unwrap().lexeme(), "score1");
    assert_eq!(items[2].unwrap().kind(), TokenKind::Identifier);
    assert_eq!(items[2].unwrap().lexeme(), "classy");
}

#[test]
fn comments_and_whitespace_yield_nothing() {
    assert_eq!(
        kinds("+ // plus\n\t - // minus"),
        vec![TokenKind::Plus, TokenKind::Minus, TokenKind::EndOfFile]
    );
    assert_eq!(kinds("// only a comment"), vec![TokenKind::EndOfFile]);
    assert_eq!(kinds(" \r\n\t "), vec![TokenKind::EndOfFile]);
    assert_eq!(kinds(""), vec![TokenKind::EndOfFile]);
}

#[test]
fn lines_and_columns() {
    let items = lex_all("ab +\n  cd");
    let ab = items[0].unwrap();
    assert_eq!((ab.line(), ab.column()), (1, 0));
    let plus = items[1].unwrap();
    assert_eq!((plus.line(), plus.column()), (1, 3));
    let cd = items[2].unwrap();
    assert_eq!((cd.line(), cd.column()), (2, 3));
    let end = items[3].unwrap();
    assert_eq!(end.kind(), TokenKind::EndOfFile);
    assert_eq!((end.line(), end.column()), (2, 3));
}

#[test]
fn columns_count_grapheme_clusters_not_bytes() {
    // The string holds one cluster of two code points and three bytes.
    let items = lex_all("\"e\u{301}\" +");
    let string = items[0].unwrap();
    assert_eq!(string.lexeme(), "e\u{301}");
    assert_eq!(string.column(), 0);
    let plus = items[1].unwrap();
    assert_eq!(plus.kind(), TokenKind::Plus);
    assert_eq!(plus.column(), 4);
}

#[test]
fn end_of_file_is_given_again_when_asked_again() {
    let mut lexer = Lexer::new("1");
    assert_eq!(lexer.next_token().unwrap().kind(), TokenKind::NumberLiteral);
    assert_eq!(lexer.next_token().unwrap().kind(), TokenKind::EndOfFile);
    assert_eq!(lexer.next_token().unwrap().kind(), TokenKind::EndOfFile);
    assert!(lexer.next().is_none());
}

#[test]
fn round_trip_of_operators_and_whitespace() {
    let source = "(!= ==) // note ==\n <= >=\t!{},.-+;*/ / =";
    let mut joined = String::new();
    for item in lex_all(source) {
        joined.push_str(item.unwrap().lexeme());
    }
    assert_eq!(joined, "(!===)<=>=!{},.-+;*//=");
}

#[test]
fn a_lexeme_closed_by_hand_moves_the_column() {
    let mut lexer = Lexer::new("ab");
    let word = lexer.next_token().unwrap();
    assert_eq!((word.lexeme(), word.column()), ("ab", 0));
    lexer.start_lexeme_behind(2);
    let end = lexer.next_token().unwrap();
    assert_eq!(end.kind(), TokenKind::EndOfFile);
    assert_eq!(end.column(), 2);
}
