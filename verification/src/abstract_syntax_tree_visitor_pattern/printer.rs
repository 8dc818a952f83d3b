//! A visitor that prints an expression tree in its canonical form.

use crate::abstract_syntax_tree::{parenthesized, spaced};
use crate::abstract_syntax_tree_visitor_pattern::{
    Binary, Expression, ExpressionVisitor, Grouping, Literal, Unary,
};
use vstd::prelude::*;
use vstd::string::StringExecFns;

verus! {

/// The printed forms of a sequence of expressions.
pub open spec fn renderings(expressions: Seq<&Expression>) -> Seq<Seq<char>> {
    Seq::new(expressions.len(), |index: int| expressions[index].rendering())
}

/// The number of nodes of a sequence of expressions.
pub open spec fn total_size(expressions: Seq<&Expression>) -> nat
    decreases expressions.len(),
{
    if expressions.len() == 0 {
        0
    } else {
        total_size(expressions.drop_last()) + expressions.last().size()
    }
}

/// Prints expression trees.
pub struct AbstractSyntaxTreePrinter;

impl AbstractSyntaxTreePrinter {
    /// Prints the expression in its canonical form, which is also what
    /// `accept_visitor` gives with this printer. The printer walks the tree by
    /// itself, since a recursion cannot run through a trait's methods.
    pub fn print(&self, expression: &Expression) -> (output: String)
        ensures
            output@ == expression.rendering(),
        decreases expression.size(), 1nat,
    {
        match expression {
            Expression::Binary(binary) => self.print_binary(binary),
            Expression::Unary(unary) => self.print_unary(unary),
            Expression::Grouping(grouping) => self.print_grouping(grouping),
            Expression::Literal(literal) => self.print_literal(literal),
        }
    }

    fn print_binary(&self, expression: &Binary) -> (output: String)
        ensures
            output@ == Expression::Binary(*expression).rendering(),
        decreases Expression::Binary(*expression).size(), 0nat,
    {
        let operands: [&Expression; 2] = [expression.left_operand(), expression.right_operand()];
        proof {
            lemma_total_size_of_two(&*expression.left_operand, &*expression.right_operand);
            assert(operands@ =~= seq![&*expression.left_operand, &*expression.right_operand]);
            assert(renderings(operands@) =~= seq![
                expression.left_operand.rendering(),
                expression.right_operand.rendering(),
            ]);
        }
        parenthesizes(expression.operator().lexeme(), operands.as_slice())
    }

    fn print_unary(&self, expression: &Unary) -> (output: String)
        ensures
            output@ == Expression::Unary(*expression).rendering(),
        decreases Expression::Unary(*expression).size(), 0nat,
    {
        let operands: [&Expression; 1] = [expression.right_operand()];
        proof {
            lemma_total_size_of_one(&*expression.right_operand);
            assert(operands@ =~= seq![&*expression.right_operand]);
            assert(renderings(operands@) =~= seq![expression.right_operand.rendering()]);
        }
        parenthesizes(expression.operator().lexeme(), operands.as_slice())
    }

    fn print_grouping(&self, expression: &Grouping) -> (output: String)
        ensures
            output@ == Expression::Grouping(*expression).rendering(),
        decreases Expression::Grouping(*expression).size(), 0nat,
    {
        let operands: [&Expression; 1] = [expression.inner_expression()];
        proof {
            lemma_total_size_of_one(&*expression.0);
            assert(operands@ =~= seq![&*expression.0]);
            assert(renderings(operands@) =~= seq![expression.0.rendering()]);
            reveal_strlit("group");
            assert("group"@ =~= seq!['g', 'r', 'o', 'u', 'p']);
        }
        parenthesizes("group", operands.as_slice())
    }

    fn print_literal(&self, expression: &Literal) -> (output: String)
        ensures
            output@ == Expression::Literal(*expression).rendering(),
    {
        expression.token().lexeme().to_owned()
    }
}

impl ExpressionVisitor<String> for AbstractSyntaxTreePrinter {
    open spec fn visits_binary(&self, expression: &Binary, result: String) -> bool {
        result@ == Expression::Binary(*expression).rendering()
    }

    open spec fn visits_unary(&self, expression: &Unary, result: String) -> bool {
        result@ == Expression::Unary(*expression).rendering()
    }

    open spec fn visits_grouping(&self, expression: &Grouping, result: String) -> bool {
        result@ == Expression::Grouping(*expression).rendering()
    }

    open spec fn visits_literal(&self, expression: &Literal, result: String) -> bool {
        result@ == Expression::Literal(*expression).rendering()
    }

    fn visit_binary_expression(&self, expression: &Binary) -> (result: String) {
        self.print_binary(expression)
    }

    fn visit_unary_expression(&self, expression: &Unary) -> (result: String) {
        self.print_unary(expression)
    }

    fn visit_grouping_expression(&self, expression: &Grouping) -> (result: String) {
        self.print_grouping(expression)
    }

    fn visit_literal_expression(&self, expression: &Literal) -> (result: String) {
        self.print_literal(expression)
    }
}

proof fn lemma_total_size_of_one(only: &Expression)
    ensures
        total_size(seq![only]) == only.size(),
{
    reveal_with_fuel(total_size, 2);
    assert(seq![only].drop_last() =~= Seq::<&Expression>::empty());
}

proof fn lemma_total_size_of_two(first: &Expression, second: &Expression)
    ensures
        total_size(seq![first, second]) == first.size() + second.size(),
{
    assert(seq![first, second].drop_last() =~= seq![first]);
    lemma_total_size_of_one(first);
}

/// No expression of a sequence has more nodes than the whole sequence.
proof fn lemma_size_within_total(expressions: Seq<&Expression>, index: int)
    requires
        0 <= index < expressions.len(),
    ensures
        expressions[index].size() <= total_size(expressions),
    decreases expressions.len(),
{
    if index < expressions.len() - 1 {
        lemma_size_within_total(expressions.drop_last(), index);
    }
}

/// Prints a node with the given name over the given operands.
fn parenthesizes(name: &str, expressions: &[&Expression]) -> (output: String)
    ensures
        output@ == parenthesized(name@, renderings(expressions@)),
    decreases total_size(expressions@), 2nat,
{
    proof {
        reveal_strlit("(");
        reveal_strlit(" ");
        reveal_strlit(")");
    }
    let mut output = String::new();
    output.append("(");
    output.append(name);
    let mut index: usize = 0;
    while index < expressions.len()
        invariant
            index <= expressions@.len(),
            output@ == seq!['('] + name@ + spaced(renderings(expressions@).take(index as int)),
            " "@ == seq![' '],
        decreases expressions@.len() - index,
    {
        proof {
            lemma_size_within_total(expressions@, index as int);
        }
        let operand = AbstractSyntaxTreePrinter.print(expressions[index]);
        output.append(" ");
        output.append(operand.as_str());
        proof {
            let all = renderings(expressions@);
            assert(all.take(index + 1).drop_last() =~= all.take(index as int));
            assert(all.take(index + 1).last() == expressions@[index as int].rendering());
        }
        index += 1;
    }
    proof {
        let all = renderings(expressions@);
        assert(all.take(index as int) =~= all);
    }
    output.append(")");
    output
}

} // verus!
