//! Diagnostics: the two error families and the line-tagged record that the
//! lexer and the parser collect instead of aborting.

use vstd::prelude::*;

verus! {

/// Taken on trust of `String::push` of the standard library, which Verus
/// does not read: after the call the string holds the characters it held
/// before, in their order, and then `ch`.
pub assume_specification[ String::push ](s: &mut String, ch: char)
    ensures
        final(s)@ == old(s)@.push(ch),
;

/// What the lexer can object to.
#[derive(Debug, PartialEq, Eq, Clone, Copy, Structural)]
pub enum LexerError {
    /// A character that starts no lexeme.
    InvalidChar(char),
    /// A string literal still open at the end of the input.
    UnterminatedString,
}

/// What the parser can object to.
#[derive(Debug, PartialEq, Eq, Clone, Copy, Structural)]
pub enum ParserError {
    /// A `(` and its expression were not followed by `)`.
    UnclosedParen,
    /// The current token cannot start a primary expression.
    PrimaryExprExpected,
}

/// Either family, as carried by a [`Diagnostic`].
#[derive(Debug, PartialEq, Eq, Clone, Copy, Structural)]
pub enum LoxError {
    LexerErr(LexerError),
    ParserErr(ParserError),
}

/// One reported error, tagged with the line it was found on.
#[derive(Debug, PartialEq, Eq, Clone, Copy, Structural)]
pub struct Diagnostic {
    pub line: usize,
    pub error: LoxError,
}

impl LexerError {
    /// The text of the message for this error.
    pub open spec fn message_text(&self) -> Seq<char> {
        match self {
            LexerError::InvalidChar(c) => "Unexpected character '"@.push(*c) + "'."@,
            LexerError::UnterminatedString => "Unterminated string."@,
        }
    }

    pub fn message(&self) -> (text: String)
        ensures
            text@ == self.message_text(),
    {
        match self {
            LexerError::InvalidChar(c) => {
                let mut text = String::from_str("Unexpected character '");
                text.push(*c);
                text.append("'.");
                text
            },
            LexerError::UnterminatedString => String::from_str("Unterminated string."),
        }
    }
}

impl ParserError {
    /// The text of the message for this error.
    pub open spec fn message_text(&self) -> Seq<char> {
        match self {
            ParserError::UnclosedParen => "Expected ')' after expression."@,
            ParserError::PrimaryExprExpected => "Expected primary expression."@,
        }
    }

    pub fn message(&self) -> (text: String)
        ensures
            text@ == self.message_text(),
    {
        match self {
            ParserError::UnclosedParen => String::from_str("Expected ')' after expression."),
            ParserError::PrimaryExprExpected => String::from_str("Expected primary expression."),
        }
    }
}

impl LoxError {
    /// The text of the message for this error: that of the error it carries.
    pub open spec fn message_text(&self) -> Seq<char> {
        match self {
            LoxError::LexerErr(l) => l.message_text(),
            LoxError::ParserErr(p) => p.message_text(),
        }
    }

    pub fn message(&self) -> (text: String)
        ensures
            text@ == self.message_text(),
    {
        match self {
            LoxError::LexerErr(l) => l.message(),
            LoxError::ParserErr(p) => p.message(),
        }
    }
}

impl From<LexerError> for LoxError {
    fn from(err: LexerError) -> (wrapped: Self) {
        LoxError::LexerErr(err)
    }
}

impl vstd::std_specs::convert::FromSpecImpl<LexerError> for LoxError {
    open spec fn obeys_from_spec() -> bool {
        true
    }

    open spec fn from_spec(err: LexerError) -> Self {
        LoxError::LexerErr(err)
    }
}

impl From<ParserError> for LoxError {
    fn from(err: ParserError) -> (wrapped: Self) {
        LoxError::ParserErr(err)
    }
}

impl vstd::std_specs::convert::FromSpecImpl<ParserError> for LoxError {
    open spec fn obeys_from_spec() -> bool {
        true
    }

    open spec fn from_spec(err: ParserError) -> Self {
        LoxError::ParserErr(err)
    }
}

impl Diagnostic {
    pub fn new(line: usize, error: LoxError) -> (diagnostic: Self)
        ensures
            diagnostic == (Diagnostic { line, error }),
    {
        Diagnostic { line, error }
    }
}

} // verus!
