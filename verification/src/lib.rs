//! Front end of a tree-walking interpreter for the Lox language: a lexer that
//! turns source text into tokens and a recursive-descent parser that turns
//! tokens into expression trees.

pub mod abstract_syntax_tree;
pub mod abstract_syntax_tree_visitor_pattern;
pub mod lexer;
pub mod nfa;
pub mod parser;
pub mod token;
