//! The grammar of expressions, stated over the token stream.
//!
//! ```text
//! expression → equality
//! equality   → comparison (("!="|"==") comparison)*
//! comparison → term ((">"|">="|"<"|"<=") term)*
//! term       → factor (("-"|"+") factor)*
//! factor     → unary (("/"|"*") unary)*
//! unary      → ("!"|"-") unary | primary
//! primary    → NUMBER | STRING | "true" | "false" | "nil" | "(" expression ")"
//! ```
//!
//! Each rule is a function from a stream and a position in it to the tree that
//! the rule builds there, the number of tokens it takes, and the errors it
//! meets on the way. The four binary rules differ in their operators and their
//! operand only, so they are one function of the [`Level`].
//!
//! The functions say what the parser does, errors included. What the trees
//! they build are is said in [`crate::parse_laws`].

use vstd::prelude::*;
use crate::errors::{Diagnostic, LoxError, ParserError};
use crate::expr::{Expr, LiteralObject};
use crate::token::{Token, TokenType};

verus! {

/// The result of applying a rule at a position.
pub struct Parsed {
    /// The tree.
    pub expr: Expr,
    /// How many tokens the rule took.
    pub used: nat,
    /// The errors reported on the way, in order.
    pub errors: Seq<Diagnostic>,
}

/// The four rules for binary operators, from the loosest to the tightest.
#[derive(Debug, PartialEq, Eq, Clone, Copy, Structural)]
pub enum Level {
    Equality,
    Comparison,
    Term,
    Factor,
}

impl Level {
    /// Whether `kind` is an operator of this level.
    pub open spec fn has_operator(self, kind: TokenType) -> bool {
        match self {
            Level::Equality => kind == TokenType::BangEqual || kind == TokenType::EqualEqual,
            Level::Comparison => kind == TokenType::Greater || kind == TokenType::GreaterEqual
                || kind == TokenType::Less || kind == TokenType::LessEqual,
            Level::Term => kind == TokenType::Minus || kind == TokenType::Plus,
            Level::Factor => kind == TokenType::Slash || kind == TokenType::Star,
        }
    }

    /// How tightly the operators of this level bind.
    pub open spec fn rank(self) -> nat {
        match self {
            Level::Equality => 1,
            Level::Comparison => 2,
            Level::Term => 3,
            Level::Factor => 4,
        }
    }
}

/// Whether the token at `pos` is `Eof`.
pub open spec fn at_end(tokens: Seq<Token>, pos: int) -> bool {
    tokens[pos].token_type == TokenType::Eof
}

/// Whether the token at `pos` is of kind `kind`. Nothing holds at `Eof`, nor
/// outside the stream.
pub open spec fn holds(tokens: Seq<Token>, pos: int, kind: TokenType) -> bool {
    &&& 0 <= pos < tokens.len()
    &&& tokens[pos].token_type != TokenType::Eof
    &&& tokens[pos].token_type == kind
}

/// Whether the token at `pos` is of one of `kinds`.
pub open spec fn holds_any(tokens: Seq<Token>, pos: int, kinds: Seq<TokenType>) -> bool {
    exists|i: int| 0 <= i < kinds.len() && holds(tokens, pos, #[trigger] kinds[i])
}

/// Whether the token at `pos` is an operator of `level`.
pub open spec fn operator_at(tokens: Seq<Token>, pos: int, level: Level) -> bool {
    0 <= pos < tokens.len() && level.has_operator(tokens[pos].token_type)
}

/// The line that an error met at `pos` is reported on: that of the token
/// before `pos`, the last one taken, or of the token at `pos` where nothing
/// has been taken yet.
pub open spec fn error_line(tokens: Seq<Token>, pos: int) -> usize {
    if pos > 0 {
        tokens[pos - 1].line
    } else {
        tokens[pos].line
    }
}

/// The report of `error` met at `pos`.
pub open spec fn error_at(tokens: Seq<Token>, pos: int, error: ParserError) -> Diagnostic {
    Diagnostic { line: error_line(tokens, pos), error: LoxError::ParserErr(error) }
}

/// How many tokens are left from `pos` on.
pub open spec fn remaining(tokens: Seq<Token>, pos: int) -> nat {
    if pos < tokens.len() {
        (tokens.len() - pos) as nat
    } else {
        0
    }
}

/// `expression → equality`
pub open spec fn parse_expression(tokens: Seq<Token>, pos: int) -> Parsed
    decreases remaining(tokens, pos), 5nat, 0nat,
{
    parse_binary(tokens, pos, Level::Equality)
}

/// `level → operand (operator operand)*`, folded to the left.
pub open spec fn parse_binary(tokens: Seq<Token>, pos: int, level: Level) -> Parsed
    decreases remaining(tokens, pos), 5 - level.rank(), 2nat,
{
    let first = parse_operand(tokens, pos, level);
    let tail = fold_binary(tokens, pos + first.used, level, first.expr);
    Parsed { expr: tail.expr, used: first.used + tail.used, errors: first.errors + tail.errors }
}

/// The operand of `level`: the next tighter rule.
pub open spec fn parse_operand(tokens: Seq<Token>, pos: int, level: Level) -> Parsed
    decreases remaining(tokens, pos), 5 - level.rank(), 1nat,
{
    match level {
        Level::Equality => parse_binary(tokens, pos, Level::Comparison),
        Level::Comparison => parse_binary(tokens, pos, Level::Term),
        Level::Term => parse_binary(tokens, pos, Level::Factor),
        Level::Factor => parse_unary(tokens, pos),
    }
}

/// `(operator operand)*` of `level` from `pos` on, with `left` as what has
/// been built so far: each operator found makes the tree so far the left
/// operand of a new `Binary` node.
pub open spec fn fold_binary(tokens: Seq<Token>, pos: int, level: Level, left: Expr) -> Parsed
    decreases remaining(tokens, pos), 5 - level.rank(), 0nat,
{
    if operator_at(tokens, pos, level) {
        let right = parse_operand(tokens, pos + 1, level);
        let tail = fold_binary(
            tokens,
            pos + 1 + right.used,
            level,
            Expr::Binary {
                left: Box::new(left),
                operator: tokens[pos],
                right: Box::new(right.expr),
            },
        );
        Parsed {
            expr: tail.expr,
            used: 1 + right.used + tail.used,
            errors: right.errors + tail.errors,
        }
    } else {
        Parsed { expr: left, used: 0, errors: seq![] }
    }
}

/// `unary → ("!"|"-") unary | primary`
pub open spec fn parse_unary(tokens: Seq<Token>, pos: int) -> Parsed
    decreases remaining(tokens, pos), 0nat, 1nat,
{
    if holds(tokens, pos, TokenType::Bang) || holds(tokens, pos, TokenType::Minus) {
        let right = parse_unary(tokens, pos + 1);
        Parsed {
            expr: Expr::Unary { operator: tokens[pos], right: Box::new(right.expr) },
            used: 1 + right.used,
            errors: right.errors,
        }
    } else {
        parse_primary(tokens, pos)
    }
}

/// A literal as the whole tree, made of one token.
pub open spec fn literal(value: LiteralObject) -> Parsed {
    Parsed { expr: Expr::Literal { value }, used: 1, errors: seq![] }
}

/// `primary → NUMBER | STRING | "true" | "false" | "nil" | "(" expression ")"`
///
/// A missing `)` is reported and the group kept. Where no primary expression
/// starts, that is reported, no token is taken, and `Unknown` stands for the
/// expression.
pub open spec fn parse_primary(tokens: Seq<Token>, pos: int) -> Parsed
    decreases remaining(tokens, pos), 0nat, 0nat,
{
    if holds(tokens, pos, TokenType::False) {
        literal(LiteralObject::BooleanLiteral { value: false })
    } else if holds(tokens, pos, TokenType::True) {
        literal(LiteralObject::BooleanLiteral { value: true })
    } else if holds(tokens, pos, TokenType::Nil) {
        literal(LiteralObject::NilLiteral)
    } else if holds(tokens, pos, TokenType::Number) {
        literal(LiteralObject::NumberLiteral { start: tokens[pos].start, end: tokens[pos].end })
    } else if holds(tokens, pos, TokenType::Str) {
        literal(LiteralObject::StringLiteral { start: tokens[pos].start, end: tokens[pos].end })
    } else if holds(tokens, pos, TokenType::LeftParen) {
        let inner = parse_expression(tokens, pos + 1);
        let close = pos + 1 + inner.used;
        let group = Expr::Grouping { expression: Box::new(inner.expr) };
        if holds(tokens, close, TokenType::RightParen) {
            Parsed { expr: group, used: 1 + inner.used + 1, errors: inner.errors }
        } else {
            Parsed {
                expr: group,
                used: 1 + inner.used,
                errors: inner.errors.push(error_at(tokens, close, ParserError::UnclosedParen)),
            }
        }
    } else {
        Parsed {
            expr: Expr::Unknown,
            used: 0,
            errors: seq![error_at(tokens, pos, ParserError::PrimaryExprExpected)],
        }
    }
}

} // verus!
