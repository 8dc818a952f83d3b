use lox::abstract_syntax_tree::Expression;
use lox::token::{Token, TokenKind};

#[test]
fn abstract_syntax_tree_ast_print() {
    const EXPECTED: &'static str = "(* (- 123) (group 45.67))";

    let expression = Expression::Binary {
        left_operand: Box::new(Expression::Unary {
            operator: Token::new(TokenKind::Minus, "-", 0, 0),
            right_operand: Box::new(Expression::Literal(Token::new(
                TokenKind::NumberLiteral,
                "123",
                0,
                0,
            ))),
        }),
        operator: Token::new(TokenKind::Star, "*", 0, 0),
        right_operand: Box::new(Expression::Grouping(Box::new(Expression::Literal(
            Token::new(TokenKind::NumberLiteral, "45.67", 0, 0),
        )))),
    };

    let output = expression.to_string();

    assert_eq!(output, EXPECTED);
}

#[test]
fn literal_prints_as_its_lexeme() {
    let string = Expression::Literal(Token::new(TokenKind::StringLiteral, "a b", 1, 0));
    assert_eq!(string.to_string(), "a b");
    let grouped = Expression::Grouping(Box::new(string));
    assert_eq!(grouped.to_string(), "(group a b)");
}

#[test]
fn a_clone_is_the_same_tree() {
    let tree = Expression::Unary {
        operator: Token::new(TokenKind::Bang, "!", 1, 0),
        right_operand: Box::new(Expression::Grouping(Box::new(Expression::Literal(
            Token::new(TokenKind::True, "true", 1, 2),
        )))),
    };
    let copy = tree.clone();
    assert_eq!(copy, tree);
    assert_eq!(copy.to_string(), "(! (group true))");
}
