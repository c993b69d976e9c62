//! The expression tree that the parser builds.

use vstd::prelude::*;
use crate::token::Token;

verus! {

/// The value of a literal. Numbers and strings are kept as the span of their
/// lexeme in the source: turning the text into a value is left to whoever
/// evaluates the tree.
#[derive(Debug, PartialEq, Eq, Clone, Copy, Structural)]
pub enum LiteralObject {
    StringLiteral { start: usize, end: usize },
    NumberLiteral { start: usize, end: usize },
    BooleanLiteral { value: bool },
    NilLiteral,
}

/// An expression. Every node owns its operands, so a tree is finite and
/// nothing in it is shared.
#[derive(Debug, PartialEq, Eq)]
pub enum Expr {
    Binary { left: Box<Expr>, operator: Token, right: Box<Expr> },
    Grouping { expression: Box<Expr> },
    Literal { value: LiteralObject },
    Unary { operator: Token, right: Box<Expr> },
    /// Stands where a primary expression was expected and none was found.
    Unknown,
}

} // verus!
