//! Expression trees, and the parenthesised form in which they are printed.

use crate::token::Token;
use vstd::prelude::*;
use vstd::string::StringExecFns;

verus! {

/// An expression: a tree whose leaves are literal tokens.
#[derive(Debug, PartialEq)]
pub enum Expression<'a> {
    Binary { left_operand: Box<Expression<'a>>, operator: Token<'a>, right_operand: Box<Expression<'a>> },
    Unary { operator: Token<'a>, right_operand: Box<Expression<'a>> },
    Grouping(Box<Expression<'a>>),
    Literal(Token<'a>),
}

/// The operands of a printed node, each with a space before it.
pub open spec fn spaced(operands: Seq<Seq<char>>) -> Seq<char>
    decreases operands.len(),
{
    if operands.len() == 0 {
        Seq::empty()
    } else {
        spaced(operands.drop_last()) + seq![' '] + operands.last()
    }
}

/// A printed node: an opening parenthesis, the node's name, its operands
/// with a space before each, and a closing parenthesis.
pub open spec fn parenthesized(name: Seq<char>, operands: Seq<Seq<char>>) -> Seq<char> {
    seq!['('] + name + spaced(operands) + seq![')']
}

/// The printed forms of a sequence of expressions.
pub open spec fn renderings(expressions: Seq<&Expression>) -> Seq<Seq<char>> {
    Seq::new(expressions.len(), |index: int| expressions[index].rendering())
}

/// The number of nodes of a sequence of expressions.
pub open spec fn total_size(expressions: Seq<&Expression>) -> nat
    decreases expressions.len(),
{
    if expressions.len() == 0 {
        0
    } else {
        total_size(expressions.drop_last()) + expressions.last().size()
    }
}

impl<'a> Expression<'a> {
    /// The number of nodes of the tree.
    pub open spec fn size(self) -> nat
        decreases self,
    {
        match self {
            Expression::Binary { left_operand, operator, right_operand } => 1 + left_operand.size()
                + right_operand.size(),
            Expression::Unary { operator, right_operand } => 1 + right_operand.size(),
            Expression::Grouping(inner) => 1 + inner.size(),
            Expression::Literal(token) => 1,
        }
    }

    /// The canonical printed form: a literal is its lexeme, a grouping is
    /// `(group inner)`, and an operation is `(operator operands)`.
    pub open spec fn rendering(self) -> Seq<char>
        decreases self,
    {
        match self {
            Expression::Binary { left_operand, operator, right_operand } => parenthesized(
                operator.lexeme@,
                seq![left_operand.rendering(), right_operand.rendering()],
            ),
            Expression::Unary { operator, right_operand } => parenthesized(
                operator.lexeme@,
                seq![right_operand.rendering()],
            ),
            Expression::Grouping(inner) => parenthesized(
                seq!['g', 'r', 'o', 'u', 'p'],
                seq![inner.rendering()],
            ),
            Expression::Literal(token) => token.lexeme@,
        }
    }

    /// Prints the expression in its canonical form.
    pub fn to_string(&self) -> (output: String)
        ensures
            output@ == self.rendering(),
        decreases self.size(), 0nat,
    {
        match self {
            Expression::Binary { left_operand, operator, right_operand } => {
                let operands: [&Expression; 2] = [&**left_operand, &**right_operand];
                proof {
                    lemma_total_size_of_two(&**left_operand, &**right_operand);
                    assert(operands@ =~= seq![&**left_operand, &**right_operand]);
                    assert(renderings(operands@) =~= seq![
                        left_operand.rendering(),
                        right_operand.rendering(),
                    ]);
                }
                parenthesizes(operator.lexeme(), operands.as_slice())
            },
            Expression::Unary { operator, right_operand } => {
                let operands: [&Expression; 1] = [&**right_operand];
                proof {
                    lemma_total_size_of_one(&**right_operand);
                    assert(operands@ =~= seq![&**right_operand]);
                    assert(renderings(operands@) =~= seq![right_operand.rendering()]);
                }
                parenthesizes(operator.lexeme(), operands.as_slice())
            },
            Expression::Grouping(inner) => {
                let operands: [&Expression; 1] = [&**inner];
                proof {
                    lemma_total_size_of_one(&**inner);
                    assert(operands@ =~= seq![&**inner]);
                    assert(renderings(operands@) =~= seq![inner.rendering()]);
                    reveal_strlit("group");
                    assert("group"@ =~= seq!['g', 'r', 'o', 'u', 'p']);
                }
                parenthesizes("group", operands.as_slice())
            },
            Expression::Literal(token) => token.lexeme().to_owned(),
        }
    }
}

impl<'a> Clone for Expression<'a> {
    fn clone(&self) -> (copy: Self)
        ensures
            copy == *self,
        decreases *self,
    {
        match self {
            Expression::Binary { left_operand, operator, right_operand } => Expression::Binary {
                left_operand: Box::new((**left_operand).clone()),
                operator: *operator,
                right_operand: Box::new((**right_operand).clone()),
            },
            Expression::Unary { operator, right_operand } => Expression::Unary {
                operator: *operator,
                right_operand: Box::new((**right_operand).clone()),
            },
            Expression::Grouping(inner) => Expression::Grouping(Box::new((**inner).clone())),
            Expression::Literal(token) => Expression::Literal(*token),
        }
    }
}

proof fn lemma_total_size_of_one(only: &Expression)
    ensures
        total_size(seq![only]) == only.size(),
{
    reveal_with_fuel(total_size, 2);
    assert(seq![only].drop_last() =~= Seq::<&Expression>::empty());
}

proof fn lemma_total_size_of_two(first: &Expression, second: &Expression)
    ensures
        total_size(seq![first, second]) == first.size() + second.size(),
{
    assert(seq![first, second].drop_last() =~= seq![first]);
    lemma_total_size_of_one(first);
}

/// No expression of a sequence has more nodes than the whole sequence.
proof fn lemma_size_within_total(expressions: Seq<&Expression>, index: int)
    requires
        0 <= index < expressions.len(),
    ensures
        expressions[index].size() <= total_size(expressions),
    decreases expressions.len(),
{
    if index < expressions.len() - 1 {
        lemma_size_within_total(expressions.drop_last(), index);
    }
}

/// Prints a node with the given name over the given operands.
fn parenthesizes(name: &str, expressions: &[&Expression]) -> (output: String)
    ensures
        output@ == parenthesized(name@, renderings(expressions@)),
    decreases total_size(expressions@), 1nat,
{
    proof {
        reveal_strlit("(");
        reveal_strlit(" ");
        reveal_strlit(")");
    }
    let mut output = String::new();
    output.append("(");
    output.append(name);
    let mut index: usize = 0;
    while index < expressions.len()
        invariant
            index <= expressions@.len(),
            output@ == seq!['('] + name@ + spaced(renderings(expressions@).take(index as int)),
            " "@ == seq![' '],
        decreases expressions@.len() - index,
    {
        proof {
            lemma_size_within_total(expressions@, index as int);
        }
        let operand = expressions[index].to_string();
        output.append(" ");
        output.append(operand.as_str());
        proof {
            let all = renderings(expressions@);
            assert(all.take(index + 1).drop_last() =~= all.take(index as int));
            assert(all.take(index + 1).last() == expressions@[index as int].rendering());
        }
        index += 1;
    }
    proof {
        let all = renderings(expressions@);
        assert(all.take(index as int) =~= all);
    }
    output.append(")");
    output
}

} // verus!
