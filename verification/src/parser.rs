//! The parser: recursive descent over a finished token stream, with one token
//! of lookahead and no backtracking.

use vstd::prelude::*;
use crate::errors::{Diagnostic, LoxError, ParserError};
use crate::expr::{Expr, LiteralObject};
use crate::grammar::{
    at_end, error_at, fold_binary, holds, holds_any, operator_at, parse_binary, parse_expression,
    parse_operand, parse_primary, parse_unary, Level, Parsed,
};
use crate::token::{terminated, Token, TokenType};

verus! {

/// A cursor into one token stream, and the diagnostics met so far.
pub struct Parser {
    tokens: Vec<Token>,
    current: usize,
    diagnostics: Vec<Diagnostic>,
}

impl Parser {
    /// The token stream.
    pub closed spec fn stream(&self) -> Seq<Token> {
        self.tokens@
    }

    /// The cursor: the index of the current token.
    pub closed spec fn position(&self) -> int {
        self.current as int
    }

    /// The diagnostics collected so far.
    pub closed spec fn reported(&self) -> Seq<Diagnostic> {
        self.diagnostics@
    }

    /// The stream ends with `Eof` and the cursor is on one of its tokens.
    pub closed spec fn wf(&self) -> bool {
        &&& terminated(self.tokens@)
        &&& self.current < self.tokens@.len()
    }

    /// The state of `old` after a rule was applied at its cursor and gave
    /// `parsed`: the cursor is past the tokens taken and the errors are added
    /// to the diagnostics.
    pub open spec fn applied(&self, old: &Self, parsed: Parsed) -> bool {
        &&& self.wf()
        &&& self.stream() == old.stream()
        &&& self.position() == old.position() + parsed.used
        &&& self.reported() == old.reported() + parsed.errors
    }

    /// A parser at the start of `tokens`.
    pub fn new(tokens: Vec<Token>) -> (parser: Self)
        requires
            terminated(tokens@),
        ensures
            parser.wf(),
            parser.stream() == tokens@,
            parser.position() == 0,
            parser.reported() == Seq::<Diagnostic>::empty(),
    {
        Parser { tokens, current: 0, diagnostics: Vec::new() }
    }

    /// Parses one expression from the cursor on.
    pub fn parse(&mut self) -> (expr: Expr)
        requires
            old(self).wf(),
        ensures
            final(self).wf(),
            final(self).stream() == old(self).stream(),
            expr == parse_expression(old(self).stream(), old(self).position()).expr,
            final(self).position() == old(self).position() + parse_expression(
                old(self).stream(),
                old(self).position(),
            ).used,
            final(self).reported() == old(self).reported() + parse_expression(
                old(self).stream(),
                old(self).position(),
            ).errors,
    {
        *self.expression()
    }

    /// The diagnostics collected so far.
    pub fn diagnostics(&self) -> (diagnostics: &Vec<Diagnostic>)
        ensures
            diagnostics@ == self.reported(),
    {
        &self.diagnostics
    }

    /// Gives up the parser for its stream and its diagnostics.
    pub fn into_parts(self) -> (parts: (Vec<Token>, Vec<Diagnostic>))
        ensures
            parts.0@ == self.stream(),
            parts.1@ == self.reported(),
    {
        (self.tokens, self.diagnostics)
    }

    /// `expression → equality`
    pub fn expression(&mut self) -> (expr: Box<Expr>)
        requires
            old(self).wf(),
        ensures
            final(self).applied(old(self), parse_expression(old(self).stream(), old(self).position())),
            *expr == parse_expression(old(self).stream(), old(self).position()).expr,
        decreases old(self).stream().len() - old(self).position(), 5nat, 0nat,
    {
        self.equality()
    }

    /// `equality → comparison (("!="|"==") comparison)*`
    pub fn equality(&mut self) -> (expr: Box<Expr>)
        requires
            old(self).wf(),
        ensures
            final(self).applied(
                old(self),
                parse_binary(old(self).stream(), old(self).position(), Level::Equality),
            ),
            *expr == parse_binary(old(self).stream(), old(self).position(), Level::Equality).expr,
        decreases old(self).stream().len() - old(self).position(), 4nat, 3nat,
    {
        self.binary(Level::Equality)
    }

    /// `comparison → term ((">"|">="|"<"|"<=") term)*`
    pub fn comparison(&mut self) -> (expr: Box<Expr>)
        requires
            old(self).wf(),
        ensures
            final(self).applied(
                old(self),
                parse_binary(old(self).stream(), old(self).position(), Level::Comparison),
            ),
            *expr == parse_binary(
                old(self).stream(),
                old(self).position(),
                Level::Comparison,
            ).expr,
        decreases old(self).stream().len() - old(self).position(), 3nat, 3nat,
    {
        self.binary(Level::Comparison)
    }

    /// `term → factor (("-"|"+") factor)*`
    pub fn term(&mut self) -> (expr: Box<Expr>)
        requires
            old(self).wf(),
        ensures
            final(self).applied(
                old(self),
                parse_binary(old(self).stream(), old(self).position(), Level::Term),
            ),
            *expr == parse_binary(old(self).stream(), old(self).position(), Level::Term).expr,
        decreases old(self).stream().len() - old(self).position(), 2nat, 3nat,
    {
        self.binary(Level::Term)
    }

    /// `factor → unary (("/"|"*") unary)*`
    pub fn factor(&mut self) -> (expr: Box<Expr>)
        requires
            old(self).wf(),
        ensures
            final(self).applied(
                old(self),
                parse_binary(old(self).stream(), old(self).position(), Level::Factor),
            ),
            *expr == parse_binary(old(self).stream(), old(self).position(), Level::Factor).expr,
        decreases old(self).stream().len() - old(self).position(), 1nat, 3nat,
    {
        self.binary(Level::Factor)
    }

    /// The rule of `level`: one operand, then operators of the level with an
    /// operand each, as long as they come. Each operator makes the tree built
    /// so far its left operand.
    fn binary(&mut self, level: Level) -> (expr: Box<Expr>)
        requires
            old(self).wf(),
        ensures
            final(self).applied(old(self), parse_binary(old(self).stream(), old(self).position(), level)),
            *expr == parse_binary(old(self).stream(), old(self).position(), level).expr,
        decreases old(self).stream().len() - old(self).position(), 5 - level.rank(), 2nat,
    {
        let mut expr: Box<Expr> = self.operand(level);
        let ghost whole = parse_binary(old(self).stream(), old(self).position(), level);
        let ghost mut errors = parse_operand(old(self).stream(), old(self).position(), level).errors;
        loop
            invariant_except_break
                whole.expr == fold_binary(self.stream(), self.position(), level, *expr).expr,
                whole.used == self.position() - old(self).position() + fold_binary(
                    self.stream(),
                    self.position(),
                    level,
                    *expr,
                ).used,
                whole.errors == errors + fold_binary(
                    self.stream(),
                    self.position(),
                    level,
                    *expr,
                ).errors,
            invariant
                whole == parse_binary(old(self).stream(), old(self).position(), level),
                self.wf(),
                self.stream() == old(self).stream(),
                old(self).position() <= self.position(),
                self.reported() == old(self).reported() + errors,
            ensures
                self.applied(old(self), whole),
                *expr == whole.expr,
            decreases self.stream().len() - self.position(),
        {
            let ghost at = self.position();
            if !self.match_operator(level) {
                break ;
            }
            let op: Token = self.tokens[self.current - 1];
            let rhs: Box<Expr> = self.operand(level);
            proof {
                errors = errors + parse_operand(self.stream(), at + 1, level).errors;
            }
            expr = Box::new(Expr::Binary { left: expr, operator: op, right: rhs });
        }
        expr
    }

    /// The operand of `level`: the next tighter rule.
    fn operand(&mut self, level: Level) -> (expr: Box<Expr>)
        requires
            old(self).wf(),
        ensures
            final(self).applied(
                old(self),
                parse_operand(old(self).stream(), old(self).position(), level),
            ),
            *expr == parse_operand(old(self).stream(), old(self).position(), level).expr,
        decreases old(self).stream().len() - old(self).position(), 5 - level.rank(), 1nat,
    {
        match level {
            Level::Equality => self.comparison(),
            Level::Comparison => self.term(),
            Level::Term => self.factor(),
            Level::Factor => self.unary(),
        }
    }

    /// Takes the current token if it is an operator of `level`.
    fn match_operator(&mut self, level: Level) -> (matched: bool)
        requires
            old(self).wf(),
        ensures
            final(self).wf(),
            final(self).stream() == old(self).stream(),
            final(self).reported() == old(self).reported(),
            matched == operator_at(old(self).stream(), old(self).position(), level),
            final(self).position() == old(self).position() + if matched {
                1int
            } else {
                0int
            },
    {
        match level {
            Level::Equality => {
                let kinds = [TokenType::BangEqual, TokenType::EqualEqual];
                self.match_token(&kinds)
            },
            Level::Comparison => {
                let kinds = [
                    TokenType::Greater,
                    TokenType::GreaterEqual,
                    TokenType::Less,
                    TokenType::LessEqual,
                ];
                self.match_token(&kinds)
            },
            Level::Term => {
                let kinds = [TokenType::Minus, TokenType::Plus];
                self.match_token(&kinds)
            },
            Level::Factor => {
                let kinds = [TokenType::Slash, TokenType::Star];
                self.match_token(&kinds)
            },
        }
    }

    /// `unary → ("!"|"-") unary | primary`
    pub fn unary(&mut self) -> (expr: Box<Expr>)
        requires
            old(self).wf(),
        ensures
            final(self).applied(old(self), parse_unary(old(self).stream(), old(self).position())),
            *expr == parse_unary(old(self).stream(), old(self).position()).expr,
        decreases old(self).stream().len() - old(self).position(), 0nat, 1nat,
    {
        let kinds = [TokenType::Bang, TokenType::Minus];
        if self.match_token(&kinds) {
            let op: Token = self.tokens[self.current - 1];
            let rhs: Box<Expr> = self.unary();
            return Box::new(Expr::Unary { operator: op, right: rhs });
        }
        self.primary()
    }

    /// `primary → NUMBER | STRING | "true" | "false" | "nil" | "(" expression ")"`
    ///
    /// A missing `)` is reported and the group kept. Where no primary
    /// expression starts, that is reported, the token stays, and `Unknown`
    /// stands for the expression.
    pub fn primary(&mut self) -> (expr: Box<Expr>)
        requires
            old(self).wf(),
        ensures
            final(self).applied(old(self), parse_primary(old(self).stream(), old(self).position())),
            *expr == parse_primary(old(self).stream(), old(self).position()).expr,
        decreases old(self).stream().len() - old(self).position(), 0nat, 0nat,
    {
        let ghost at = self.position();
        if self.match_one(TokenType::False) {
            return Box::new(Expr::Literal { value: LiteralObject::BooleanLiteral { value: false } });
        } else if self.match_one(TokenType::True) {
            return Box::new(Expr::Literal { value: LiteralObject::BooleanLiteral { value: true } });
        } else if self.match_one(TokenType::Nil) {
            return Box::new(Expr::Literal { value: LiteralObject::NilLiteral });
        }
        if self.match_one(TokenType::Number) {
            let tok: Token = self.tokens[self.current - 1];
            return Box::new(
                Expr::Literal {
                    value: LiteralObject::NumberLiteral { start: tok.start, end: tok.end },
                },
            );
        } else if self.match_one(TokenType::Str) {
            let tok: Token = self.tokens[self.current - 1];
            return Box::new(
                Expr::Literal {
                    value: LiteralObject::StringLiteral { start: tok.start, end: tok.end },
                },
            );
        }
        if self.match_one(TokenType::LeftParen) {
            let expr: Box<Expr> = self.expression();
            self.consume(TokenType::RightParen, ParserError::UnclosedParen);
            return Box::new(Expr::Grouping { expression: expr });
        }
        self.report(ParserError::PrimaryExprExpected);
        assert(old(self).diagnostics@ + seq![
            error_at(self.stream(), at, ParserError::PrimaryExprExpected),
        ] == old(self).diagnostics@.push(
            error_at(self.stream(), at, ParserError::PrimaryExprExpected),
        ));
        Box::new(Expr::Unknown)
    }

    /// Takes the current token if it is of kind `token_type`.
    fn match_one(&mut self, token_type: TokenType) -> (matched: bool)
        requires
            old(self).wf(),
        ensures
            final(self).wf(),
            final(self).stream() == old(self).stream(),
            final(self).reported() == old(self).reported(),
            matched == holds(old(self).stream(), old(self).position(), token_type),
            final(self).current == old(self).current + if matched {
                1int
            } else {
                0int
            },
    {
        if self.check(&token_type) {
            self.advance();
            true
        } else {
            false
        }
    }

    /// Takes the current token if it is of one of the kinds `tokens`.
    pub fn match_token(&mut self, tokens: &[TokenType]) -> (matched: bool)
        requires
            old(self).wf(),
        ensures
            final(self).wf(),
            final(self).stream() == old(self).stream(),
            final(self).reported() == old(self).reported(),
            matched == holds_any(old(self).stream(), old(self).position(), tokens@),
            final(self).position() == old(self).position() + if matched {
                1int
            } else {
                0int
            },
    {
        let mut i: usize = 0;
        while i < tokens.len()
            invariant
                i <= tokens.len(),
                self.wf(),
                *self == *old(self),
                forall|j: int| 0 <= j < i ==> !holds(self.stream(), self.position(), tokens@[j]),
            decreases tokens.len() - i,
        {
            if self.check(&tokens[i]) {
                self.advance();
                return true;
            }
            i += 1;
        }
        false
    }

    /// Whether the current token is of kind `token_type`; never so at `Eof`.
    pub fn check(&self, token_type: &TokenType) -> (same: bool)
        requires
            self.wf(),
        ensures
            same == holds(self.stream(), self.position(), *token_type),
    {
        if self.is_at_end() {
            return false;
        }
        self.peek().token_type == *token_type
    }

    /// Moves past the current token, unless it is `Eof`. Returns the token
    /// before the cursor, if there is one.
    pub fn advance(&mut self) -> (taken: Option<Token>)
        requires
            old(self).wf(),
        ensures
            final(self).wf(),
            final(self).stream() == old(self).stream(),
            final(self).reported() == old(self).reported(),
            final(self).position() == if at_end(old(self).stream(), old(self).position()) {
                old(self).position()
            } else {
                old(self).position() + 1
            },
            taken == if final(self).position() > 0 {
                Some(old(self).stream()[final(self).position() - 1])
            } else {
                None
            },
    {
        if !self.is_at_end() {
            assert(self.current + 1 < self.tokens.len());
            self.current += 1
        }
        self.previous()
    }

    /// Whether the current token is `Eof`.
    pub fn is_at_end(&self) -> (done: bool)
        requires
            self.wf(),
        ensures
            done == at_end(self.stream(), self.position()),
    {
        self.peek().token_type == TokenType::Eof
    }

    /// The current token.
    pub fn peek(&self) -> (token: &Token)
        requires
            self.wf(),
        ensures
            *token == self.stream()[self.position()],
    {
        &self.tokens[self.current]
    }

    /// The token before the cursor: the last one taken, if any was.
    pub fn previous(&self) -> (token: Option<Token>)
        requires
            self.wf(),
        ensures
            token == if self.position() > 0 {
                Some(self.stream()[self.position() - 1])
            } else {
                None
            },
    {
        if self.current > 0 {
            Some(self.tokens[self.current - 1])
        } else {
            None
        }
    }

    /// Takes the current token if it is of kind `token_type`; reports `err`
    /// if it is not.
    pub fn consume(&mut self, token_type: TokenType, err: ParserError)
        requires
            old(self).wf(),
        ensures
            final(self).wf(),
            final(self).stream() == old(self).stream(),
            if holds(old(self).stream(), old(self).position(), token_type) {
                &&& final(self).position() == old(self).position() + 1
                &&& final(self).reported() == old(self).reported()
            } else {
                &&& final(self).position() == old(self).position()
                &&& final(self).reported() == old(self).reported().push(
                    error_at(old(self).stream(), old(self).position(), err),
                )
            },
    {
        if self.check(&token_type) {
            self.advance();
        } else {
            self.report(err);
        }
    }

    /// Records `err` on the line of the last token taken, or of the current
    /// one where none was.
    fn report(&mut self, err: ParserError)
        requires
            old(self).wf(),
        ensures
            *final(self) == (Parser { diagnostics: final(self).diagnostics, ..*old(self) }),
            final(self).diagnostics@ == old(self).diagnostics@.push(
                error_at(old(self).stream(), old(self).position(), err),
            ),
    {
        let line: usize = match self.previous() {
            Some(token) => token.line,
            None => self.peek().line,
        };
        self.diagnostics.push(Diagnostic::new(line, LoxError::from(err)));
    }
}

} // verus!
