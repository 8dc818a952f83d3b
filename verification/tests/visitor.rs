use lox::abstract_syntax_tree_visitor_pattern::printer::AbstractSyntaxTreePrinter;
use lox::abstract_syntax_tree_visitor_pattern::{Binary, Expression, Grouping, Literal, Unary};
use lox::token::{Token, TokenKind};

fn visited_example<'a>() -> Expression<'a> {
    Expression::Binary(Binary {
        left_operand: Box::new(Expression::Unary(Unary {
            operator: Token::new(TokenKind::Minus, "-", 0, 0),
            right_operand: Box::new(Expression::Literal(Literal(Token::new(
                TokenKind::NumberLiteral,
                "123",
                0,
                0,
            )))),
        })),
        operator: Token::new(TokenKind::Star, "*", 0, 0),
        right_operand: Box::new(Expression::Grouping(Grouping(Box::new(
            Expression::Literal(Literal(Token::new(TokenKind::NumberLiteral, "45.67", 0, 0))),
        )))),
    })
}

#[test]
fn printer_ast_print() {
    const EXPECTED: &'static str = "(* (- 123) (group 45.67))";

    let expression = visited_example();

    let output = AbstractSyntaxTreePrinter.print(&expression);

    assert_eq!(output, EXPECTED);
}

#[test]
fn accept_visitor_gives_what_the_printer_prints() {
    let expression = visited_example();
    let output: String = expression.accept_visitor(&AbstractSyntaxTreePrinter);
    assert_eq!(output, "(* (- 123) (group 45.67))");
}

#[test]
fn node_accessors() {
    let expression = visited_example();
    let Expression::Binary(binary) = &expression else {
        panic!("the example is a binary node");
    };
    assert_eq!(binary.operator().lexeme(), "*");
    let Expression::Unary(unary) = binary.left_operand() else {
        panic!("the left operand is a unary node");
    };
    assert_eq!(unary.operator().lexeme(), "-");
    let Expression::Literal(literal) = unary.right_operand() else {
        panic!("the operand is a literal");
    };
    assert_eq!(literal.token().lexeme(), "123");
    let Expression::Grouping(grouping) = binary.right_operand() else {
        panic!("the right operand is a grouping");
    };
    let Expression::Literal(inner) = grouping.inner_expression() else {
        panic!("the grouping holds a literal");
    };
    assert_eq!(inner.token().lexeme(), "45.67");
}
