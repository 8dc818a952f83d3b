//! Expression trees with one struct per kind of node, walked by visitors.

pub mod printer;

use crate::abstract_syntax_tree::parenthesized;
use crate::token::Token;
use vstd::prelude::*;

verus! {

/// What is done at each kind of node of an expression tree. A visitor says in
/// its four `visits_` predicates which results its methods may give.
pub trait ExpressionVisitor<R> {
    spec fn visits_binary(&self, expression: &Binary, result: R) -> bool;

    spec fn visits_unary(&self, expression: &Unary, result: R) -> bool;

    spec fn visits_grouping(&self, expression: &Grouping, result: R) -> bool;

    spec fn visits_literal(&self, expression: &Literal, result: R) -> bool;

    fn visit_binary_expression(&self, expression: &Binary) -> (result: R)
        ensures
            self.visits_binary(expression, result),
    ;

    fn visit_unary_expression(&self, expression: &Unary) -> (result: R)
        ensures
            self.visits_unary(expression, result),
    ;

    fn visit_grouping_expression(&self, expression: &Grouping) -> (result: R)
        ensures
            self.visits_grouping(expression, result),
    ;

    fn visit_literal_expression(&self, expression: &Literal) -> (result: R)
        ensures
            self.visits_literal(expression, result),
    ;
}

/// An expression: a tree whose leaves are literal tokens.
pub enum Expression<'a> {
    Binary(Binary<'a>),
    Unary(Unary<'a>),
    Grouping(Grouping<'a>),
    Literal(Literal<'a>),
}

/// Two operands with an operator between them.
pub struct Binary<'a> {
    pub left_operand: Box<Expression<'a>>,
    pub operator: Token<'a>,
    pub right_operand: Box<Expression<'a>>,
}

/// A prefix operator and its operand.
pub struct Unary<'a> {
    pub operator: Token<'a>,
    pub right_operand: Box<Expression<'a>>,
}

/// An expression in parentheses.
pub struct Grouping<'a>(pub Box<Expression<'a>>);

/// A literal token.
pub struct Literal<'a>(pub Token<'a>);

/// Whether `result` is what `visitor` may give at the root of `expression`.
pub open spec fn visits<R, V: ExpressionVisitor<R>>(
    visitor: &V,
    expression: &Expression,
    result: R,
) -> bool {
    match expression {
        Expression::Binary(binary) => visitor.visits_binary(binary, result),
        Expression::Unary(unary) => visitor.visits_unary(unary, result),
        Expression::Grouping(grouping) => visitor.visits_grouping(grouping, result),
        Expression::Literal(literal) => visitor.visits_literal(literal, result),
    }
}

impl<'a> Expression<'a> {
    /// Hands the root of the tree to the method of `visitor` that is for its
    /// kind of node, and returns what that method returns.
    pub fn accept_visitor<R, V: ExpressionVisitor<R>>(&self, visitor: &V) -> (result: R)
        ensures
            visits(visitor, self, result),
    {
        match self {
            Expression::Binary(binary) => visitor.visit_binary_expression(binary),
            Expression::Unary(unary) => visitor.visit_unary_expression(unary),
            Expression::Grouping(grouping) => visitor.visit_grouping_expression(grouping),
            Expression::Literal(literal) => visitor.visit_literal_expression(literal),
        }
    }

    /// The number of nodes of the tree.
    pub open spec fn size(self) -> nat
        decreases self,
    {
        match self {
            Expression::Binary(binary) => 1 + binary.left_operand.size()
                + binary.right_operand.size(),
            Expression::Unary(unary) => 1 + unary.right_operand.size(),
            Expression::Grouping(grouping) => 1 + grouping.0.size(),
            Expression::Literal(literal) => 1,
        }
    }

    /// The canonical printed form: a literal is its lexeme, a grouping is
    /// `(group inner)`, and an operation is `(operator operands)`.
    pub open spec fn rendering(self) -> Seq<char>
        decreases self,
    {
        match self {
            Expression::Binary(binary) => parenthesized(
                binary.operator.lexeme@,
                seq![binary.left_operand.rendering(), binary.right_operand.rendering()],
            ),
            Expression::Unary(unary) => parenthesized(
                unary.operator.lexeme@,
                seq![unary.right_operand.rendering()],
            ),
            Expression::Grouping(grouping) => parenthesized(
                seq!['g', 'r', 'o', 'u', 'p'],
                seq![grouping.0.rendering()],
            ),
            Expression::Literal(literal) => literal.0.lexeme@,
        }
    }
}

impl<'a> Binary<'a> {
    pub fn left_operand(&self) -> (operand: &Expression<'a>)
        ensures
            *operand == *self.left_operand,
    {
        &*self.left_operand
    }

    pub fn operator(&self) -> (operator: &Token<'a>)
        ensures
            *operator == self.operator,
    {
        &self.operator
    }

    pub fn right_operand(&self) -> (operand: &Expression<'a>)
        ensures
            *operand == *self.right_operand,
    {
        &*self.right_operand
    }
}

impl<'a> Unary<'a> {
    pub fn operator(&self) -> (operator: &Token<'a>)
        ensures
            *operator == self.operator,
    {
        &self.operator
    }

    pub fn right_operand(&self) -> (operand: &Expression<'a>)
        ensures
            *operand == *self.right_operand,
    {
        &*self.right_operand
    }
}

impl<'a> Grouping<'a> {
    pub fn inner_expression(&self) -> (inner: &Expression<'a>)
        ensures
            *inner == *self.0,
    {
        &*self.0
    }
}

impl<'a> Literal<'a> {
    pub fn token(&self) -> (token: &Token<'a>)
        ensures
            *token == self.0,
    {
        &self.0
    }
}

} // verus!
