//! The token model: a classified lexeme with its span and line.

use vstd::prelude::*;

verus! {

/// The closed set of token kinds.
#[derive(Debug, PartialEq, Eq, Clone, Copy, Structural)]
pub enum TokenType {
    // Single-character tokens
    LeftParen,
    RightParen,
    LeftBrace,
    RightBrace,
    Comma,
    Dot,
    Minus,
    Plus,
    Semicolon,
    Slash,
    Star,
    // One or two character tokens
    Bang,
    BangEqual,
    Equal,
    EqualEqual,
    Greater,
    GreaterEqual,
    Less,
    LessEqual,
    // Literals
    Identifier,
    Str,
    Number,
    // Keywords
    And,
    Class,
    Else,
    False,
    Fun,
    For,
    If,
    Nil,
    Or,
    Print,
    Return,
    Super,
    This,
    True,
    Var,
    While,
    Eof,
}

/// One token: its kind, the byte span `start..end` of its lexeme in the source
/// (for a string literal, of the text between the quotes), and the line on
/// which it ends.
#[derive(Debug, PartialEq, Eq, Clone, Copy, Structural)]
pub struct Token {
    pub token_type: TokenType,
    pub start: usize,
    pub end: usize,
    pub line: usize,
}

impl Token {
    pub fn new(token_type: TokenType, start: usize, end: usize, line: usize) -> (token: Self)
        ensures
            token == (Token { token_type, start, end, line }),
    {
        Token { token_type, start, end, line }
    }
}

/// A finished stream: one that ends with `Eof`. The lexer yields such streams
/// and the parser takes no other.
pub open spec fn terminated(tokens: Seq<Token>) -> bool {
    tokens.len() > 0 && tokens.last().token_type == TokenType::Eof
}

} // verus!
