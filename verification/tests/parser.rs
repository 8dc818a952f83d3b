use lox::abstract_syntax_tree::Expression;
use lox::lexer::error::LexerErrorKind;
use lox::lexer::Lexer;
use lox::parser::{parse as parse_tokens, ParseError, ParseErrorKind, Parser};
use lox::token::{Token, TokenKind};

fn parse(source: &str) -> Result<Box<Expression<'_>>, ParseError<'_>> {
    let mut parser = Parser::try_from(Lexer::new(source))?;
    parser.expression_rule()
}

fn literal(kind: TokenKind, lexeme: &str, column: usize) -> Box<Expression<'_>> {
    Box::new(Expression::Literal(Token::new(kind, lexeme, 1, column)))
}

#[test]
fn test_parser() {
    const SOURCE: &str = "1 + 2 * 3 == 7\n!(true)\n\"text\" -4 < 5 / nil";
    let lexer = Lexer::new(SOURCE);
    let mut parser = Parser::try_from(lexer).unwrap();

    let mut printed = Vec::new();
    loop {
        match parser.equality_rule() {
            Ok(expression) => {
                println!("{}", expression.to_string());
                printed.push(expression.to_string());
            }
            Err(parse_error) if !parse_error.token.is_end_of_file() => {
                println!("{:?}", parse_error);
                break;
            }
            _ => break,
        }
    }
    assert_eq!(
        printed,
        vec![
            "(== (+ 1 (* 2 3)) 7)",
            "(! (group true))",
            "(< (- text 4) (/ 5 nil))",
        ]
    );
}

#[test]
fn subtraction_leans_to_the_left() {
    let tree = parse("1 - 2 - 3").unwrap();
    let expected = Box::new(Expression::Binary {
        left_operand: Box::new(Expression::Binary {
            left_operand: literal(TokenKind::NumberLiteral, "1", 0),
            operator: Token::new(TokenKind::Minus, "-", 1, 2),
            right_operand: literal(TokenKind::NumberLiteral, "2", 4),
        }),
        operator: Token::new(TokenKind::Minus, "-", 1, 6),
        right_operand: literal(TokenKind::NumberLiteral, "3", 8),
    });
    assert_eq!(tree, expected);
    assert_eq!(tree.to_string(), "(- (- 1 2) 3)");
}

#[test]
fn prefix_operators_nest_to_the_right() {
    let tree = parse("- - 5").unwrap();
    let expected = Box::new(Expression::Unary {
        operator: Token::new(TokenKind::Minus, "-", 1, 0),
        right_operand: Box::new(Expression::Unary {
            operator: Token::new(TokenKind::Minus, "-", 1, 2),
            right_operand: literal(TokenKind::NumberLiteral, "5", 4),
        }),
    });
    assert_eq!(tree, expected);
}

#[test]
fn multiplication_binds_tighter_than_addition() {
    let tree = parse("1 + 2 * 3").unwrap();
    let expected = Box::new(Expression::Binary {
        left_operand: literal(TokenKind::NumberLiteral, "1", 0),
        operator: Token::new(TokenKind::Plus, "+", 1, 2),
        right_operand: Box::new(Expression::Binary {
            left_operand: literal(TokenKind::NumberLiteral, "2", 4),
            operator: Token::new(TokenKind::Star, "*", 1, 6),
            right_operand: literal(TokenKind::NumberLiteral, "3", 8),
        }),
    });
    assert_eq!(tree, expected);
}

#[test]
fn all_levels_of_precedence() {
    assert_eq!(
        parse("1 == 2 < 3 + 4 * -5").unwrap().to_string(),
        "(== 1 (< 2 (+ 3 (* 4 (- 5)))))"
    );
    assert_eq!(
        parse("1 * 2 + 3 > 4 != 5").unwrap().to_string(),
        "(!= (> (+ (* 1 2) 3) 4) 5)"
    );
    assert_eq!(
        parse("8 / 4 / 2 >= 1 <= 2").unwrap().to_string(),
        "(<= (>= (/ (/ 8 4) 2) 1) 2)"
    );
    assert_eq!(parse("!true == false").unwrap().to_string(), "(== (! true) false)");
    assert_eq!(parse("\"a\" + nil").unwrap().to_string(), "(+ a nil)");
}

#[test]
fn open_grouping_misses_its_parenthesis() {
    let error = parse("(1 + 2").unwrap_err();
    assert_eq!(error.kind(), ParseErrorKind::MissingRightParenthesis);
    assert_eq!(error.token().kind(), TokenKind::EndOfFile);

    let error = parse("(1 2)").unwrap_err();
    assert_eq!(error.kind(), ParseErrorKind::MissingRightParenthesis);
    assert_eq!(error.token().lexeme(), "2");
}

#[test]
fn a_token_that_starts_no_expression() {
    let error = parse("1 + *").unwrap_err();
    assert_eq!(error.kind(), ParseErrorKind::ExpectedExpression);
    assert_eq!(error.token().kind(), TokenKind::Star);
    assert_eq!(error.token().column(), 4);

    let error = parse("").unwrap_err();
    assert_eq!(error.kind(), ParseErrorKind::ExpectedExpression);
    assert!(error.token().is_end_of_file());

    let error = parse("-").unwrap_err();
    assert_eq!(error.kind(), ParseErrorKind::ExpectedExpression);
    assert!(error.token().is_end_of_file());
}

#[test]
fn a_lexical_error_ends_the_parse_before_it_starts() {
    let error = parse("1 + \"open").unwrap_err();
    let ParseErrorKind::LexerError(cause) = error.kind() else {
        panic!("the error is a lexical one");
    };
    assert_eq!(cause.kind(), LexerErrorKind::UnterminatedStringLiteral);
    assert_eq!(error.token(), cause.token());
    assert_eq!(error.token().lexeme(), "\"open");

    let error = parse("2. + 1").unwrap_err();
    let ParseErrorKind::LexerError(cause) = error.kind() else {
        panic!("the error is a lexical one");
    };
    assert_eq!(cause.kind(), LexerErrorKind::NumberTrailingDot);
}

#[test]
fn canonical_print_of_a_parse() {
    assert_eq!(parse("-123 * (45.67)").unwrap().to_string(), "(* (- 123) (group 45.67))");
}

#[test]
fn the_cursor_stops_at_the_end_of_file() {
    let tokens = vec![
        Token::new(TokenKind::NumberLiteral, "1", 1, 0),
        Token::end_of_file(1, 1),
    ];
    let mut parser = Parser::new(tokens);
    assert!(!parser.is_at_end());
    assert!(parser.is_current_token(TokenKind::NumberLiteral));
    assert!(!parser.consume_current_token_of_kind(&[TokenKind::Plus, TokenKind::Minus]));
    assert!(parser.consume_current_token_of_kind(&[TokenKind::NumberLiteral]));
    assert_eq!(parser.peek_previous_token().lexeme(), "1");
    assert!(parser.is_at_end());
    assert!(!parser.is_current_token(TokenKind::EndOfFile));
    assert!(!parser.consume_current_token_of_kind(&[TokenKind::EndOfFile]));
    parser.consume_current_token();
    assert!(parser.is_at_end());
    assert!(parser.peek_current_token().is_end_of_file());
}

#[test]
fn a_rule_stops_where_its_expression_ends() {
    let mut parser = Parser::try_from(Lexer::new("1 + 2 3")).unwrap();
    assert_eq!(parser.term_rule().unwrap().to_string(), "(+ 1 2)");
    assert_eq!(parser.peek_current_token().lexeme(), "3");
    assert_eq!(parser.factor_rule().unwrap().to_string(), "3");
    assert!(parser.is_at_end());
    let mut parser = Parser::try_from(Lexer::new("1 < 2 == 3")).unwrap();
    assert_eq!(parser.comparison_rule().unwrap().to_string(), "(< 1 2)");
    assert!(parser.is_current_token(TokenKind::EqualEqual));
    let mut parser = Parser::try_from(Lexer::new("!nil 1")).unwrap();
    assert_eq!(parser.unary_rule().unwrap().to_string(), "(! nil)");
    assert_eq!(parser.primary_rule().unwrap().to_string(), "1");
}

#[test]
fn parsing_a_token_list() {
    let tokens = vec![
        Token::new(TokenKind::Nil, "nil", 1, 0),
        Token::new(TokenKind::BangEqual, "!=", 1, 4),
        Token::new(TokenKind::False, "false", 1, 7),
        Token::end_of_file(1, 7),
    ];
    assert_eq!(parse_tokens(tokens).unwrap().to_string(), "(!= nil false)");
    let error = parse_tokens(vec![Token::end_of_file(1, 0)]).unwrap_err();
    assert_eq!(error.kind(), ParseErrorKind::ExpectedExpression);
}

#[test]
fn a_lexical_error_becomes_a_syntax_error() {
    let mut lexer = Lexer::new("@");
    let cause = lexer.next_token().unwrap_err();
    let error = ParseError::from(cause);
    assert_eq!(error.kind(), ParseErrorKind::LexerError(cause));
    assert_eq!(error.token(), cause.token());
}
