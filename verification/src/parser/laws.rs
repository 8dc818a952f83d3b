//! What holds of every tree that the parser builds, proved from the grammar.

use crate::abstract_syntax_tree::Expression;
use crate::parser::grammar::{
    at_one_of, literal_kinds, parse_binary, parse_expression, parse_operand,
    parse_operations, parse_primary, parse_unary, tokens_left, unary_operators, Precedence,
};
use crate::token::{Token, TokenKind};
use vstd::prelude::*;

verus! {

impl Precedence {
    /// How tightly the operators of the level bind: a higher number binds
    /// tighter.
    pub open spec fn strength(self) -> nat {
        match self {
            Precedence::Equality => 0,
            Precedence::Comparison => 1,
            Precedence::Term => 2,
            Precedence::Factor => 3,
        }
    }
}

/// The strength of everything that is no operation of a binary level: prefix
/// operations, groupings and literals.
pub open spec fn atomic_strength() -> nat {
    4
}

/// The level at which a token of the given kind is a binary operator.
pub open spec fn level_of(kind: TokenKind) -> Option<Precedence> {
    if Precedence::Equality.operators().contains(kind) {
        Some(Precedence::Equality)
    } else if Precedence::Comparison.operators().contains(kind) {
        Some(Precedence::Comparison)
    } else if Precedence::Term.operators().contains(kind) {
        Some(Precedence::Term)
    } else if Precedence::Factor.operators().contains(kind) {
        Some(Precedence::Factor)
    } else {
        None
    }
}

/// How tightly the root of a tree holds its operands together.
pub open spec fn strength_of(expression: Expression) -> nat {
    match expression {
        Expression::Binary { left_operand, operator, right_operand } => match level_of(
            operator.kind,
        ) {
            Some(level) => level.strength(),
            None => atomic_strength(),
        },
        _ => atomic_strength(),
    }
}

/// Whether a tree is one that the grammar can give. Every operator and
/// literal is of a fitting kind. The left operand of a binary operation binds
/// at least as tightly as the operation, and the right operand binds
/// tighter: operations of one level lean to the left, and an operation of a
/// looser level stands below one of a tighter level only inside a grouping.
/// The operand of a prefix operator is a prefix operation, a grouping or a
/// literal.
pub open spec fn follows_grammar(expression: Expression) -> bool
    decreases expression,
{
    match expression {
        Expression::Binary { left_operand, operator, right_operand } => {
            &&& level_of(operator.kind) matches Some(level)
            &&& strength_of(*left_operand) >= level.strength()
            &&& strength_of(*right_operand) > level.strength()
            &&& follows_grammar(*left_operand)
            &&& follows_grammar(*right_operand)
        },
        Expression::Unary { operator, right_operand } => {
            &&& unary_operators().contains(operator.kind)
            &&& strength_of(*right_operand) == atomic_strength()
            &&& follows_grammar(*right_operand)
        },
        Expression::Grouping(inner) => follows_grammar(*inner),
        Expression::Literal(token) => literal_kinds().contains(token.kind),
    }
}

/// An operator of a level is known as one of that level.
proof fn lemma_level_of_operator(kind: TokenKind, level: Precedence)
    requires
        level.operators().contains(kind),
    ensures
        level_of(kind) == Some(level),
{
    let index = choose|index: int|
        0 <= index < level.operators().len() && level.operators()[index] == kind;
    assert(level.operators()[index] == kind);
    assert forall|other: Precedence| other != level implies !other.operators().contains(kind) by {
        if other.operators().contains(kind) {
            let at = choose|at: int|
                0 <= at < other.operators().len() && other.operators()[at] == kind;
            assert(other.operators()[at] == kind);
        }
    }
}

/// What `primary` gives follows the grammar and is atomic.
pub proof fn lemma_primary_follows_grammar(tokens: Seq<Token>, position: int)
    ensures
        parse_primary(tokens, position).result matches Ok(expression) ==> follows_grammar(
            *expression,
        ) && strength_of(*expression) == atomic_strength(),
    decreases tokens_left(tokens, position), 0nat,
{
    if at_one_of(tokens, position, literal_kinds()) {
    } else if at_one_of(tokens, position, seq![TokenKind::LeftParentheses]) {
        assert(seq![TokenKind::LeftParentheses][0] == TokenKind::LeftParentheses);
        lemma_binary_follows_grammar(tokens, position + 1, Precedence::Equality);
    }
}

/// What `unary` gives follows the grammar and is atomic.
pub proof fn lemma_unary_follows_grammar(tokens: Seq<Token>, position: int)
    ensures
        parse_unary(tokens, position).result matches Ok(expression) ==> follows_grammar(
            *expression,
        ) && strength_of(*expression) == atomic_strength(),
    decreases tokens_left(tokens, position), 1nat,
{
    if at_one_of(tokens, position, unary_operators()) {
        lemma_unary_follows_grammar(tokens, position + 1);
    } else {
        lemma_primary_follows_grammar(tokens, position);
    }
}

/// What stands as an operand of a level follows the grammar and binds tighter
/// than the level.
pub proof fn lemma_operand_follows_grammar(tokens: Seq<Token>, position: int, level: Precedence)
    ensures
        parse_operand(tokens, position, level).result matches Ok(expression) ==> follows_grammar(
            *expression,
        ) && strength_of(*expression) > level.strength(),
    decreases tokens_left(tokens, position), level.rank(),
{
    match level {
        Precedence::Equality => lemma_binary_follows_grammar(
            tokens,
            position,
            Precedence::Comparison,
        ),
        Precedence::Comparison => lemma_binary_follows_grammar(tokens, position, Precedence::Term),
        Precedence::Term => lemma_binary_follows_grammar(tokens, position, Precedence::Factor),
        Precedence::Factor => lemma_unary_follows_grammar(tokens, position),
    }
}

/// Folding operations of a level onto a tree that follows the grammar and
/// binds at least as tightly as the level gives such a tree again.
pub proof fn lemma_operations_follow_grammar(
    tokens: Seq<Token>,
    position: int,
    level: Precedence,
    left_operand: Box<Expression>,
)
    requires
        follows_grammar(*left_operand),
        strength_of(*left_operand) >= level.strength(),
    ensures
        parse_operations(tokens, position, level, left_operand).result matches Ok(expression)
            ==> follows_grammar(*expression) && strength_of(*expression) >= level.strength(),
    decreases tokens_left(tokens, position), level.rank(),
{
    if at_one_of(tokens, position, level.operators()) {
        lemma_level_of_operator(tokens[position].kind, level);
        lemma_operand_follows_grammar(tokens, position + 1, level);
        let right = parse_operand(tokens, position + 1, level);
        if let Ok(right_operand) = right.result {
            lemma_operations_follow_grammar(
                tokens,
                position + 1 + right.length,
                level,
                Box::new(
                    Expression::Binary { left_operand, operator: tokens[position], right_operand },
                ),
            );
        }
    }
}

/// What a binary level gives follows the grammar and binds at least as
/// tightly as the level.
pub proof fn lemma_binary_follows_grammar(tokens: Seq<Token>, position: int, level: Precedence)
    ensures
        parse_binary(tokens, position, level).result matches Ok(expression) ==> follows_grammar(
            *expression,
        ) && strength_of(*expression) >= level.strength(),
    decreases tokens_left(tokens, position), level.rank() + 1,
{
    lemma_operand_follows_grammar(tokens, position, level);
    let first = parse_operand(tokens, position, level);
    if let Ok(left_operand) = first.result {
        lemma_operations_follow_grammar(tokens, position + first.length, level, left_operand);
    }
}

/// Precedence and associativity: every tree that parsing gives follows the
/// grammar. In it no operation has an operation of a looser level as an
/// operand, nor one of its own level as its right operand, but inside a
/// grouping.
pub proof fn lemma_parse_follows_grammar(tokens: Seq<Token>, position: int)
    ensures
        parse_expression(tokens, position).result matches Ok(expression) ==> follows_grammar(
            *expression,
        ),
{
    lemma_binary_follows_grammar(tokens, position, Precedence::Equality);
}

/// The kinds of the tokens of a tree, read from left to right, a grouping
/// with its parentheses.
pub open spec fn kinds_of(expression: Expression) -> Seq<TokenKind>
    decreases expression,
{
    match expression {
        Expression::Binary { left_operand, operator, right_operand } => kinds_of(*left_operand)
            + seq![operator.kind] + kinds_of(*right_operand),
        Expression::Unary { operator, right_operand } => seq![operator.kind] + kinds_of(
            *right_operand,
        ),
        Expression::Grouping(inner) => seq![TokenKind::LeftParentheses] + kinds_of(*inner)
            + seq![TokenKind::RightParentheses],
        Expression::Literal(token) => seq![token.kind],
    }
}

/// The kinds of the tokens from `from` up to `to`.
pub open spec fn kinds_between(tokens: Seq<Token>, from: int, to: int) -> Seq<TokenKind> {
    Seq::new((to - from) as nat, |index: int| tokens[from + index].kind)
}

/// Whether `expression`, read from left to right, is the tokens from `from`
/// up to `to`, all of which exist.
pub open spec fn spells(expression: Expression, tokens: Seq<Token>, from: int, to: int) -> bool {
    &&& 0 <= from <= to <= tokens.len()
    &&& kinds_of(expression) == kinds_between(tokens, from, to)
}

/// What `primary` gives spells the tokens that it took.
pub proof fn lemma_primary_spells_its_tokens(tokens: Seq<Token>, position: int)
    requires
        0 <= position,
    ensures
        parse_primary(tokens, position).result matches Ok(expression) ==> spells(
            *expression,
            tokens,
            position,
            position + parse_primary(tokens, position).length,
        ),
    decreases tokens_left(tokens, position), 0nat,
{
    if at_one_of(tokens, position, literal_kinds()) {
        assert(kinds_between(tokens, position, position + 1) =~= seq![tokens[position].kind]);
    } else if at_one_of(tokens, position, seq![TokenKind::LeftParentheses]) {
        assert(seq![TokenKind::LeftParentheses][0] == TokenKind::LeftParentheses);
        assert(seq![TokenKind::RightParentheses][0] == TokenKind::RightParentheses);
        lemma_binary_spells_its_tokens(tokens, position + 1, Precedence::Equality);
        let inner = parse_expression(tokens, position + 1);
        let close = position + 1 + inner.length;
        if let Ok(expression) = inner.result {
            if at_one_of(tokens, close, seq![TokenKind::RightParentheses]) {
                assert(kinds_between(tokens, position, close + 1) =~= seq![
                    TokenKind::LeftParentheses,
                ] + kinds_between(tokens, position + 1, close) + seq![
                    TokenKind::RightParentheses,
                ]);
            }
        }
    }
}

/// What `unary` gives spells the tokens that it took.
pub proof fn lemma_unary_spells_its_tokens(tokens: Seq<Token>, position: int)
    requires
        0 <= position,
    ensures
        parse_unary(tokens, position).result matches Ok(expression) ==> spells(
            *expression,
            tokens,
            position,
            position + parse_unary(tokens, position).length,
        ),
    decreases tokens_left(tokens, position), 1nat,
{
    if at_one_of(tokens, position, unary_operators()) {
        lemma_unary_spells_its_tokens(tokens, position + 1);
        let operand = parse_unary(tokens, position + 1);
        assert(kinds_between(tokens, position, position + 1 + operand.length) =~= seq![
            tokens[position].kind,
        ] + kinds_between(tokens, position + 1, position + 1 + operand.length));
    } else {
        lemma_primary_spells_its_tokens(tokens, position);
    }
}

/// What stands as an operand of a level spells the tokens that it took.
pub proof fn lemma_operand_spells_its_tokens(tokens: Seq<Token>, position: int, level: Precedence)
    requires
        0 <= position,
    ensures
        parse_operand(tokens, position, level).result matches Ok(expression) ==> spells(
            *expression,
            tokens,
            position,
            position + parse_operand(tokens, position, level).length,
        ),
    decreases tokens_left(tokens, position), level.rank(),
{
    match level {
        Precedence::Equality => lemma_binary_spells_its_tokens(
            tokens,
            position,
            Precedence::Comparison,
        ),
        Precedence::Comparison => lemma_binary_spells_its_tokens(tokens, position, Precedence::Term),
        Precedence::Term => lemma_binary_spells_its_tokens(tokens, position, Precedence::Factor),
        Precedence::Factor => lemma_unary_spells_its_tokens(tokens, position),
    }
}

/// Folding operations onto a tree that spells the tokens from `from` up to
/// `position` gives a tree that spells the tokens from `from` up to where the
/// operations end.
pub proof fn lemma_operations_spell_their_tokens(
    tokens: Seq<Token>,
    from: int,
    position: int,
    level: Precedence,
    left_operand: Box<Expression>,
)
    requires
        spells(*left_operand, tokens, from, position),
    ensures
        parse_operations(tokens, position, level, left_operand).result matches Ok(expression)
            ==> spells(
            *expression,
            tokens,
            from,
            position + parse_operations(tokens, position, level, left_operand).length,
        ),
    decreases tokens_left(tokens, position), level.rank(),
{
    if at_one_of(tokens, position, level.operators()) {
        lemma_operand_spells_its_tokens(tokens, position + 1, level);
        let right = parse_operand(tokens, position + 1, level);
        if let Ok(right_operand) = right.result {
            let next = position + 1 + right.length;
            let folded = Box::new(
                Expression::Binary { left_operand, operator: tokens[position], right_operand },
            );
            assert(kinds_between(tokens, from, next) =~= kinds_between(tokens, from, position)
                + seq![tokens[position].kind] + kinds_between(tokens, position + 1, next));
            lemma_operations_spell_their_tokens(tokens, from, next, level, folded);
        }
    }
}

/// What a binary level gives spells the tokens that it took.
pub proof fn lemma_binary_spells_its_tokens(tokens: Seq<Token>, position: int, level: Precedence)
    requires
        0 <= position,
    ensures
        parse_binary(tokens, position, level).result matches Ok(expression) ==> spells(
            *expression,
            tokens,
            position,
            position + parse_binary(tokens, position, level).length,
        ),
    decreases tokens_left(tokens, position), level.rank() + 1,
{
    lemma_operand_spells_its_tokens(tokens, position, level);
    let first = parse_operand(tokens, position, level);
    if let Ok(left_operand) = first.result {
        lemma_operations_spell_their_tokens(
            tokens,
            position,
            position + first.length,
            level,
            left_operand,
        );
    }
}

/// Nothing is lost and nothing is made up: a tree that parsing gives, read
/// from left to right, is the tokens that the parser took, kind for kind.
pub proof fn lemma_parse_spells_its_tokens(tokens: Seq<Token>, position: int)
    requires
        0 <= position,
    ensures
        parse_expression(tokens, position).result matches Ok(expression) ==> spells(
            *expression,
            tokens,
            position,
            position + parse_expression(tokens, position).length,
        ),
{
    lemma_binary_spells_its_tokens(tokens, position, Precedence::Equality);
}

} // verus!
