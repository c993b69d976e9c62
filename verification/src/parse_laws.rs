//! What holds of every tree that the grammar describes.
//!
//! The grammar is stated in [`crate::grammar`] as what the parser does. Here
//! the same is stated as what a tree is: it respects precedence
//! ([`respects_precedence`]) and is written with the tokens of the stream
//! ([`written_at`]). The two agree: what the parser builds without an error is
//! such a tree ([`lemma_parse_is_faithful`]), and every such tree is what the
//! parser builds where the tree's tokens stand ([`lemma_parse_finds`]).

use vstd::prelude::*;
use crate::errors::Diagnostic;
use crate::expr::{Expr, LiteralObject};
use crate::grammar::{
    fold_binary, holds, operator_at, parse_binary, parse_expression, parse_operand,
    parse_primary, parse_unary, remaining, Level, Parsed,
};
use crate::token::{terminated, Token, TokenType};

verus! {

/// The rank of the level that `kind` is an operator of, or 0 if it is no
/// binary operator.
pub open spec fn operator_rank(kind: TokenType) -> nat {
    if Level::Equality.has_operator(kind) {
        Level::Equality.rank()
    } else if Level::Comparison.has_operator(kind) {
        Level::Comparison.rank()
    } else if Level::Term.has_operator(kind) {
        Level::Term.rank()
    } else if Level::Factor.has_operator(kind) {
        Level::Factor.rank()
    } else {
        0
    }
}

/// The rank of the binary operator at `pos`, or 0 if none stands there.
pub open spec fn rank_at(tokens: Seq<Token>, pos: int) -> nat {
    if 0 <= pos < tokens.len() {
        operator_rank(tokens[pos].token_type)
    } else {
        0
    }
}

/// How tightly the root of a tree binds: the rank of its operator for a
/// `Binary` node, above all of them for a `Unary` node, and above that for
/// what needs no operand outside itself.
pub open spec fn strength(e: Expr) -> nat {
    match e {
        Expr::Binary { left, operator, right } => operator_rank(operator.token_type),
        Expr::Unary { operator, right } => 5,
        Expr::Grouping { expression } => 6,
        Expr::Literal { value } => 6,
        Expr::Unknown => 6,
    }
}

/// A tree in which no operand binds more loosely than its operator, and no
/// right operand of a binary operator as loosely as the operator: looser
/// operators are nearer the root, and operators of one rank nest to the left.
/// Inside a group the count starts anew.
pub open spec fn respects_precedence(e: Expr) -> bool
    decreases e,
{
    match e {
        Expr::Binary { left, operator, right } => {
            &&& 1 <= strength(e) <= strength(*left)
            &&& strength(e) < strength(*right)
            &&& respects_precedence(*left)
            &&& respects_precedence(*right)
        },
        Expr::Unary { operator, right } => {
            &&& operator.token_type == TokenType::Bang || operator.token_type == TokenType::Minus
            &&& strength(e) <= strength(*right)
            &&& respects_precedence(*right)
        },
        Expr::Grouping { expression } => respects_precedence(*expression),
        Expr::Literal { value } => true,
        Expr::Unknown => true,
    }
}

/// How many tokens a tree is written with.
pub open spec fn width(e: Expr) -> nat
    decreases e,
{
    match e {
        Expr::Binary { left, operator, right } => width(*left) + 1 + width(*right),
        Expr::Unary { operator, right } => 1 + width(*right),
        Expr::Grouping { expression } => 1 + width(*expression) + 1,
        Expr::Literal { value } => 1,
        Expr::Unknown => 0,
    }
}

/// Whether `token` is a token that the literal `value` is read from: one of
/// its kind and, for a number or a string, with its span.
pub open spec fn reads_literal(value: LiteralObject, token: Token) -> bool {
    match value {
        LiteralObject::StringLiteral { start, end } => token.token_type == TokenType::Str
            && token.start == start && token.end == end,
        LiteralObject::NumberLiteral { start, end } => token.token_type == TokenType::Number
            && token.start == start && token.end == end,
        LiteralObject::BooleanLiteral { value } => token.token_type == if value {
            TokenType::True
        } else {
            TokenType::False
        },
        LiteralObject::NilLiteral => token.token_type == TokenType::Nil,
    }
}

/// Whether the tree `e` is written with the tokens of the stream from `pos`
/// on, one after the other: the operators of the tree are the tokens between
/// its operands, each literal is read from its token, and every group stands
/// between a `(` and a `)`.
pub open spec fn written_at(e: Expr, tokens: Seq<Token>, pos: int) -> bool
    decreases e,
{
    match e {
        Expr::Binary { left, operator, right } => {
            &&& written_at(*left, tokens, pos)
            &&& tokens[pos + width(*left)] == operator
            &&& written_at(*right, tokens, pos + width(*left) + 1)
        },
        Expr::Unary { operator, right } => {
            &&& tokens[pos] == operator
            &&& written_at(*right, tokens, pos + 1)
        },
        Expr::Grouping { expression } => {
            &&& tokens[pos].token_type == TokenType::LeftParen
            &&& written_at(*expression, tokens, pos + 1)
            &&& tokens[pos + 1 + width(*expression)].token_type == TokenType::RightParen
        },
        Expr::Literal { value } => reads_literal(value, tokens[pos]),
        Expr::Unknown => true,
    }
}

/// A tree without a placeholder in it.
pub open spec fn complete(e: Expr) -> bool
    decreases e,
{
    match e {
        Expr::Binary { left, operator, right } => complete(*left) && complete(*right),
        Expr::Unary { operator, right } => complete(*right),
        Expr::Grouping { expression } => complete(*expression),
        Expr::Literal { value } => true,
        Expr::Unknown => false,
    }
}

/// Whether `e` is an expression of the grammar that stands at `pos`: a
/// complete tree that respects precedence and is written with tokens of the
/// stream from `pos` on.
pub open spec fn stands_at(e: Expr, tokens: Seq<Token>, pos: int) -> bool {
    &&& 0 <= pos
    &&& pos + width(e) <= tokens.len()
    &&& complete(e)
    &&& respects_precedence(e)
    &&& written_at(e, tokens, pos)
}

/// Every token in `from..to` is inside the stream and is no `Eof`.
pub open spec fn all_taken(tokens: Seq<Token>, from: int, to: int) -> bool {
    forall|i: int|
        from <= i < to ==> 0 <= i < tokens.len() && (#[trigger] tokens[i]).token_type
            != TokenType::Eof
}

/// What the laws below say of one application of a rule, with `floor` for
/// the least strength of the tree: the tokens taken are tokens of the stream
/// and none is `Eof`; the tree respects precedence and is at least that
/// strong; no operator that the rule would have taken follows; and a tree
/// built without an error is complete and written with the tokens taken.
spec fn lawful(tokens: Seq<Token>, pos: int, parsed: Parsed, floor: nat) -> bool {
    &&& all_taken(tokens, pos, pos + parsed.used)
    &&& respects_precedence(parsed.expr)
    &&& floor <= strength(parsed.expr)
    &&& rank_at(tokens, pos + parsed.used) < floor
    &&& parsed.errors.len() == 0 ==> {
        &&& complete(parsed.expr)
        &&& written_at(parsed.expr, tokens, pos)
        &&& width(parsed.expr) == parsed.used
    }
}

/// The rule of `level` is lawful, and its tree is no looser than the level.
proof fn lemma_binary(tokens: Seq<Token>, pos: int, level: Level)
    requires
        0 <= pos,
    ensures
        lawful(tokens, pos, parse_binary(tokens, pos, level), level.rank()),
    decreases remaining(tokens, pos), 5 - level.rank(), 2nat,
{
    let first = parse_operand(tokens, pos, level);
    lemma_operand(tokens, pos, level);
    lemma_fold(tokens, pos + first.used, level, first.expr, pos);
}

/// The operand of `level` is lawful, and its tree is tighter than the level.
proof fn lemma_operand(tokens: Seq<Token>, pos: int, level: Level)
    requires
        0 <= pos,
    ensures
        lawful(tokens, pos, parse_operand(tokens, pos, level), level.rank() + 1),
    decreases remaining(tokens, pos), 5 - level.rank(), 1nat,
{
    match level {
        Level::Equality => lemma_binary(tokens, pos, Level::Comparison),
        Level::Comparison => lemma_binary(tokens, pos, Level::Term),
        Level::Term => lemma_binary(tokens, pos, Level::Factor),
        Level::Factor => lemma_unary(tokens, pos),
    }
}

/// The tail of a binary rule from `pos` on, where `left` was built from the
/// tokens in `start..pos`.
proof fn lemma_fold(tokens: Seq<Token>, pos: int, level: Level, left: Expr, start: int)
    requires
        0 <= start <= pos,
        respects_precedence(left),
        level.rank() <= strength(left),
        rank_at(tokens, pos) <= level.rank(),
    ensures
        ({
            let tail = fold_binary(tokens, pos, level, left);
            &&& all_taken(tokens, pos, pos + tail.used)
            &&& respects_precedence(tail.expr)
            &&& level.rank() <= strength(tail.expr)
            &&& rank_at(tokens, pos + tail.used) < level.rank()
            &&& tail.errors.len() == 0 && complete(left) && written_at(left, tokens, start)
                && width(left) == pos - start ==> {
                &&& complete(tail.expr)
                &&& written_at(tail.expr, tokens, start)
                &&& width(tail.expr) == pos - start + tail.used
            }
        }),
    decreases remaining(tokens, pos), 5 - level.rank(), 0nat,
{
    if operator_at(tokens, pos, level) {
        // The new node is of this level's rank: its left operand, the tree so
        // far, is no looser, and its right operand, from the next rule, tighter.
        let right = parse_operand(tokens, pos + 1, level);
        let node = Expr::Binary {
            left: Box::new(left),
            operator: tokens[pos],
            right: Box::new(right.expr),
        };
        lemma_operand(tokens, pos + 1, level);
        lemma_fold(tokens, pos + 1 + right.used, level, node, start);
    }
}

/// The rule for `unary` is lawful, and its tree is no `Binary` node.
proof fn lemma_unary(tokens: Seq<Token>, pos: int)
    requires
        0 <= pos,
    ensures
        lawful(tokens, pos, parse_unary(tokens, pos), 5),
    decreases remaining(tokens, pos), 0nat, 1nat,
{
    if holds(tokens, pos, TokenType::Bang) || holds(tokens, pos, TokenType::Minus) {
        lemma_unary(tokens, pos + 1);
    } else {
        lemma_primary(tokens, pos);
    }
}

/// The rule for `primary` is lawful, and its tree needs no operand outside
/// itself.
proof fn lemma_primary(tokens: Seq<Token>, pos: int)
    requires
        0 <= pos,
    ensures
        lawful(tokens, pos, parse_primary(tokens, pos), 6),
    decreases remaining(tokens, pos), 0nat, 0nat,
{
    if holds(tokens, pos, TokenType::False) || holds(tokens, pos, TokenType::True) || holds(
        tokens,
        pos,
        TokenType::Nil,
    ) || holds(tokens, pos, TokenType::Number) || holds(tokens, pos, TokenType::Str) {
    } else if holds(tokens, pos, TokenType::LeftParen) {
        lemma_binary(tokens, pos + 1, Level::Equality);
    }
}

/// The root of a tree that respects precedence has a strength.
proof fn lemma_strength_is_positive(e: Expr)
    requires
        respects_precedence(e),
    ensures
        1 <= strength(e),
{
}

/// A `Unary` node, a group or a literal that stands at `pos` is what the
/// rule for `unary` builds there.
proof fn lemma_finds_unary(tokens: Seq<Token>, pos: int, e: Expr)
    requires
        stands_at(e, tokens, pos),
        5 <= strength(e),
    ensures
        parse_unary(tokens, pos).expr == e,
        parse_unary(tokens, pos).used == width(e),
        parse_unary(tokens, pos).errors == Seq::<Diagnostic>::empty(),
    decreases e, 0nat,
{
    match e {
        Expr::Unary { operator, right } => {
            lemma_finds_unary(tokens, pos + 1, *right);
        },
        Expr::Grouping { expression } => {
            // The `)` after the group's expression is no operator, so the
            // expression is all that the rule for `expression` builds.
            lemma_strength_is_positive(*expression);
            lemma_finds_binary(tokens, pos + 1, *expression, Level::Equality);
        },
        Expr::Literal { value } => {
            assert(parse_unary(tokens, pos) == parse_primary(tokens, pos));
        },
        // A `Binary` node is not so strong, and a placeholder is not complete.
        _ => {},
    }
}

/// A tree that stands at `pos` and binds more tightly than `level` is the
/// operand that the rule of `level` finds there, unless a still tighter
/// operator follows it.
proof fn lemma_finds_operand(tokens: Seq<Token>, pos: int, e: Expr, level: Level)
    requires
        stands_at(e, tokens, pos),
        level.rank() < strength(e),
        rank_at(tokens, pos + width(e)) <= level.rank(),
    ensures
        parse_operand(tokens, pos, level).expr == e,
        parse_operand(tokens, pos, level).used == width(e),
        parse_operand(tokens, pos, level).errors == Seq::<Diagnostic>::empty(),
    decreases e, 2 * (5 - level.rank()),
{
    // The next tighter rule builds `e` first, and has nothing to go on with:
    // what follows `e` is no operator of that rule.
    match level {
        Level::Equality => lemma_finds_binary(tokens, pos, e, Level::Comparison),
        Level::Comparison => lemma_finds_binary(tokens, pos, e, Level::Term),
        Level::Term => lemma_finds_binary(tokens, pos, e, Level::Factor),
        Level::Factor => lemma_finds_unary(tokens, pos, e),
    }
}

/// Where a tree that binds no more loosely than `level` stands at `pos`, and
/// no operator tighter than the level follows it, the rule of `level` builds
/// that tree first and goes on from there.
proof fn lemma_finds_binary(tokens: Seq<Token>, pos: int, e: Expr, level: Level)
    requires
        stands_at(e, tokens, pos),
        level.rank() <= strength(e),
        rank_at(tokens, pos + width(e)) <= level.rank(),
    ensures
        ({
            let whole = parse_binary(tokens, pos, level);
            let tail = fold_binary(tokens, pos + width(e), level, e);
            &&& whole.expr == tail.expr
            &&& whole.used == width(e) + tail.used
            &&& whole.errors == tail.errors
        }),
    decreases e, 2 * (5 - level.rank()) + 1,
{
    if level.rank() < strength(e) {
        // `e` is the first operand.
        lemma_finds_operand(tokens, pos, e, level);
    } else {
        // `e` is a `Binary` node of this level. The rule builds its left
        // operand first and goes on from there: with the operator of `e`,
        // which follows, and the right operand of `e`, which makes `e`.
        match e {
            Expr::Binary { left, operator, right } => {
                lemma_finds_binary(tokens, pos, *left, level);
                lemma_finds_operand(tokens, pos + width(*left) + 1, *right, level);
            },
            _ => {},
        }
    }
}

/// The parser takes no `Eof` and nothing outside the stream: every token that
/// an expression is made of is a token of the stream before its first `Eof`.
pub proof fn lemma_parse_takes_no_eof(tokens: Seq<Token>, pos: int)
    requires
        0 <= pos,
    ensures
        all_taken(tokens, pos, pos + parse_expression(tokens, pos).used),
{
    lemma_binary(tokens, pos, Level::Equality);
}

/// In a stream that ends with `Eof`, the cursor stays on a token of the
/// stream: it never passes the last one.
pub proof fn lemma_parse_stays_inside(tokens: Seq<Token>, pos: int)
    requires
        terminated(tokens),
        0 <= pos < tokens.len(),
    ensures
        pos + parse_expression(tokens, pos).used < tokens.len(),
{
    // The last token is `Eof`, which is never taken.
    lemma_parse_takes_no_eof(tokens, pos);
}

/// Every tree that the parser builds respects precedence: a looser operator
/// is never an operand of a tighter one, and operators of one rank nest to the
/// left, so that `a - b - c` is `(a - b) - c`.
pub proof fn lemma_parse_respects_precedence(tokens: Seq<Token>, pos: int)
    requires
        0 <= pos,
    ensures
        respects_precedence(parse_expression(tokens, pos).expr),
{
    lemma_binary(tokens, pos, Level::Equality);
}

/// The parser takes operands as long as binary operators come: where it
/// stops, none follows.
pub proof fn lemma_parse_leaves_no_operator(tokens: Seq<Token>, pos: int)
    requires
        0 <= pos,
    ensures
        rank_at(tokens, pos + parse_expression(tokens, pos).used) == 0,
{
    lemma_binary(tokens, pos, Level::Equality);
}

/// What the parser builds without an error is an expression of the grammar
/// that stands at the cursor: it has no placeholder in it and is written with
/// exactly the tokens that were taken for it, in their order.
pub proof fn lemma_parse_is_faithful(tokens: Seq<Token>, pos: int)
    requires
        0 <= pos,
        parse_expression(tokens, pos).errors.len() == 0,
    ensures
        stands_at(parse_expression(tokens, pos).expr, tokens, pos),
        width(parse_expression(tokens, pos).expr) == parse_expression(tokens, pos).used,
{
    lemma_binary(tokens, pos, Level::Equality);
    let used = parse_expression(tokens, pos).used;
    if pos + used > tokens.len() {
        assert(tokens[pos + used - 1].token_type != TokenType::Eof);
    }
}

/// Every expression of the grammar is found: where one stands at the cursor
/// and no binary operator follows it, the parser builds that very tree, takes
/// exactly its tokens and reports nothing.
pub proof fn lemma_parse_finds(tokens: Seq<Token>, pos: int, e: Expr)
    requires
        stands_at(e, tokens, pos),
        rank_at(tokens, pos + width(e)) == 0,
    ensures
        parse_expression(tokens, pos).expr == e,
        parse_expression(tokens, pos).used == width(e),
        parse_expression(tokens, pos).errors == Seq::<Diagnostic>::empty(),
{
    lemma_finds_binary(tokens, pos, e, Level::Equality);
}

} // verus!
