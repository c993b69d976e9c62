//! The lexical rules, stated over the bytes of the source.
//!
//! The scanner reads the source one byte at a time and takes each byte for a
//! character. [`scan_one`] says what the lexeme that starts at a position is,
//! and [`scan`] strings the lexemes together into the token stream and the
//! list of diagnostics that the lexer must produce.
//!
//! Where the language leaves a choice, the rules make these:
//! - A byte above `0x7f` is the character with that code. Outside strings and
//!   comments it starts no lexeme, so each byte of a character that takes
//!   several bytes is reported by itself.
//! - A string has no escapes: it ends at the first `"` after the one that
//!   opens it.
//! - A block comment that is never closed runs to the end of the source and
//!   is no error.
//! - Newlines in a block comment do not move the line counter; those in a
//!   string do, and the string's token is on the line where it ends.
//! - `Eof` has the span `0..0`.

use vstd::prelude::*;
use crate::errors::{Diagnostic, LexerError, LoxError};
use crate::token::{Token, TokenType};

verus! {

/// The character that the scanner sees at `pos`: the byte there, or NUL past
/// the end of the source.
pub open spec fn char_at(src: Seq<u8>, pos: int) -> char {
    if 0 <= pos < src.len() {
        src[pos] as char
    } else {
        '\0'
    }
}

/// The ten decimal digits.
pub open spec fn is_digit(c: char) -> bool {
    '0' <= c <= '9'
}

/// What may start a word: a letter of the Latin alphabet or an underscore.
pub open spec fn is_alpha(c: char) -> bool {
    ('a' <= c <= 'z') || ('A' <= c <= 'Z') || c == '_'
}

/// What a word may go on with.
pub open spec fn is_alpha_numeric(c: char) -> bool {
    is_alpha(c) || is_digit(c)
}

/// Blank characters produce no token; of these, only `\n` moves the line counter.
pub open spec fn is_blank(c: char) -> bool {
    c == ' ' || c == '\r' || c == '\t' || c == '\n'
}

/// The class of the digits. The scanner takes a run of a class of characters
/// as far as it goes; this and the next two are the classes it does so with.
pub open spec fn digits() -> spec_fn(char) -> bool {
    |c: char| is_digit(c)
}

/// The class of the characters of a word.
pub open spec fn word_characters() -> spec_fn(char) -> bool {
    |c: char| is_alpha_numeric(c)
}

/// The class of all characters but `stop`.
pub open spec fn all_but(stop: char) -> spec_fn(char) -> bool {
    |c: char| c != stop
}

/// Where the maximal run of characters of `class` that starts at `pos` ends:
/// the first position from `pos` on that holds no character of the class.
pub open spec fn run_end(src: Seq<u8>, pos: int, class: spec_fn(char) -> bool) -> int
    decreases src.len() - pos,
{
    if 0 <= pos < src.len() && class(src[pos] as char) {
        run_end(src, pos + 1, class)
    } else {
        pos
    }
}

/// How many of the bytes in `from..to` are newlines.
pub open spec fn newlines(src: Seq<u8>, from: int, to: int) -> nat
    decreases to - from,
{
    if from >= to {
        0
    } else {
        newlines(src, from, to - 1) + if char_at(src, to - 1) == '\n' {
            1nat
        } else {
            0nat
        }
    }
}

/// Whether a `*/` starts at `pos`.
pub open spec fn closes_at(src: Seq<u8>, pos: int) -> bool {
    char_at(src, pos) == '*' && char_at(src, pos + 1) == '/'
}

/// Where a block comment whose body starts at `pos` ends: just after the first
/// `*/` from `pos` on, or at the end of the source if there is none.
pub open spec fn block_comment_end(src: Seq<u8>, pos: int) -> int
    decreases src.len() - pos,
{
    if !(0 <= pos < src.len()) {
        src.len() as int
    } else if closes_at(src, pos) {
        pos + 2
    } else {
        block_comment_end(src, pos + 1)
    }
}

/// Where the numeral that starts at `pos` ends: after its digits, and after a
/// fraction if a dot and at least one more digit follow them.
pub open spec fn number_end(src: Seq<u8>, pos: int) -> int {
    let whole = run_end(src, pos, digits());
    if char_at(src, whole) == '.' && is_digit(char_at(src, whole + 1)) {
        run_end(src, whole + 1, digits())
    } else {
        whole
    }
}

/// The bytes of a lexeme as characters.
pub open spec fn text_of(bytes: Seq<u8>) -> Seq<char> {
    Seq::new(bytes.len(), |i: int| bytes[i] as char)
}

/// The kind of a word: that of the keyword it spells, or `Identifier`.
pub open spec fn keyword(word: Seq<char>) -> TokenType {
    if word == "and"@ {
        TokenType::And
    } else if word == "class"@ {
        TokenType::Class
    } else if word == "else"@ {
        TokenType::Else
    } else if word == "false"@ {
        TokenType::False
    } else if word == "for"@ {
        TokenType::For
    } else if word == "fun"@ {
        TokenType::Fun
    } else if word == "if"@ {
        TokenType::If
    } else if word == "nil"@ {
        TokenType::Nil
    } else if word == "or"@ {
        TokenType::Or
    } else if word == "print"@ {
        TokenType::Print
    } else if word == "return"@ {
        TokenType::Return
    } else if word == "super"@ {
        TokenType::Super
    } else if word == "this"@ {
        TokenType::This
    } else if word == "true"@ {
        TokenType::True
    } else if word == "var"@ {
        TokenType::Var
    } else if word == "while"@ {
        TokenType::While
    } else {
        TokenType::Identifier
    }
}

/// The token kind of a character that is a token by itself.
pub open spec fn punctuation(c: char) -> Option<TokenType> {
    match c {
        '(' => Some(TokenType::LeftParen),
        ')' => Some(TokenType::RightParen),
        '{' => Some(TokenType::LeftBrace),
        '}' => Some(TokenType::RightBrace),
        ',' => Some(TokenType::Comma),
        '.' => Some(TokenType::Dot),
        '-' => Some(TokenType::Minus),
        '+' => Some(TokenType::Plus),
        ';' => Some(TokenType::Semicolon),
        '*' => Some(TokenType::Star),
        _ => None,
    }
}

/// The token kind of an operator character, alone or followed by `=`.
pub open spec fn operator(c: char, with_equal: bool) -> Option<TokenType> {
    match c {
        '!' => Some(if with_equal { TokenType::BangEqual } else { TokenType::Bang }),
        '=' => Some(if with_equal { TokenType::EqualEqual } else { TokenType::Equal }),
        '<' => Some(if with_equal { TokenType::LessEqual } else { TokenType::Less }),
        '>' => Some(if with_equal { TokenType::GreaterEqual } else { TokenType::Greater }),
        _ => None,
    }
}

/// The token of kind `kind` with span `start..end` on line `line`.
pub open spec fn token_at(kind: TokenType, start: int, end: int, line: int) -> Token
    recommends
        0 <= start <= end <= usize::MAX,
        0 <= line <= usize::MAX,
{
    Token { token_type: kind, start: start as usize, end: end as usize, line: line as usize }
}

/// The token that closes every stream: `Eof`, of length zero, on the last line.
pub open spec fn eof_token(line: int) -> Token {
    token_at(TokenType::Eof, 0, 0, line)
}

/// What the scanner makes of one lexeme.
pub struct Step {
    /// The position just after the lexeme.
    pub next: int,
    /// The line counter after the lexeme.
    pub line: int,
    /// The token, if the lexeme is one.
    pub token: Option<Token>,
    /// The error, if the lexeme is refused.
    pub error: Option<LexerError>,
}

impl Step {
    /// The lexeme `start..end` is a token of kind `kind`.
    pub open spec fn emit(kind: TokenType, start: int, end: int, line: int) -> Step {
        Step { next: end, line, token: Some(token_at(kind, start, end, line)), error: None }
    }

    /// The lexeme, which ends at `next`, is passed over.
    pub open spec fn skip(next: int, line: int) -> Step {
        Step { next, line, token: None, error: None }
    }

    /// The lexeme, which ends at `next`, is refused with `error`.
    pub open spec fn fail(next: int, line: int, error: LexerError) -> Step {
        Step { next, line, token: None, error: Some(error) }
    }

    /// The tokens that this step adds to the stream: one or none.
    pub open spec fn tokens(self) -> Seq<Token> {
        match self.token {
            Some(token) => seq![token],
            None => seq![],
        }
    }

    /// The diagnostics that this step reports: one or none, on the line that
    /// the scanner has reached.
    pub open spec fn diagnostics(self) -> Seq<Diagnostic> {
        match self.error {
            Some(error) => seq![
                Diagnostic { line: self.line as usize, error: LoxError::LexerErr(error) },
            ],
            None => seq![],
        }
    }
}

/// The lexeme that starts at `pos`, a position inside the source, with the
/// line counter at `line`.
pub open spec fn scan_one(src: Seq<u8>, pos: int, line: int) -> Step {
    let c = char_at(src, pos);
    let followed_by_equal = char_at(src, pos + 1) == '=';
    if punctuation(c) is Some {
        Step::emit(punctuation(c)->0, pos, pos + 1, line)
    } else if operator(c, followed_by_equal) is Some {
        Step::emit(
            operator(c, followed_by_equal)->0,
            pos,
            if followed_by_equal { pos + 2 } else { pos + 1 },
            line,
        )
    } else if c == '/' {
        if char_at(src, pos + 1) == '/' {
            Step::skip(run_end(src, pos + 2, all_but('\n')), line)
        } else if char_at(src, pos + 1) == '*' {
            Step::skip(block_comment_end(src, pos + 2), line)
        } else {
            Step::emit(TokenType::Slash, pos, pos + 1, line)
        }
    } else if c == ' ' || c == '\r' || c == '\t' {
        Step::skip(pos + 1, line)
    } else if c == '\n' {
        Step::skip(pos + 1, line + 1)
    } else if c == '"' {
        let close = run_end(src, pos + 1, all_but('"'));
        let last_line = line + newlines(src, pos + 1, close);
        if close < src.len() {
            Step {
                next: close + 1,
                line: last_line,
                token: Some(token_at(TokenType::Str, pos + 1, close, last_line)),
                error: None,
            }
        } else {
            Step::fail(close, last_line, LexerError::UnterminatedString)
        }
    } else if is_digit(c) {
        Step::emit(TokenType::Number, pos, number_end(src, pos), line)
    } else if is_alpha(c) {
        let end = run_end(src, pos, word_characters());
        Step::emit(keyword(text_of(src.subrange(pos, end))), pos, end, line)
    } else {
        Step::fail(pos + 1, line, LexerError::InvalidChar(c))
    }
}

/// What scanning yields: the token stream and the diagnostics, each in the
/// order of the source.
pub struct Scan {
    pub tokens: Seq<Token>,
    pub diagnostics: Seq<Diagnostic>,
}

/// What scanning the source from `pos` on yields, with the line counter at `line`.
pub open spec fn scan_from(src: Seq<u8>, pos: int, line: int) -> Scan
    decreases src.len() - pos,
{
    if 0 <= pos < src.len() {
        let step = scan_one(src, pos, line);
        proof {
            lemma_scan_one_advances(src, pos, line);
        }
        let rest = scan_from(src, step.next, step.line);
        Scan {
            tokens: step.tokens() + rest.tokens,
            diagnostics: step.diagnostics() + rest.diagnostics,
        }
    } else {
        Scan { tokens: seq![eof_token(line)], diagnostics: seq![] }
    }
}

/// What scanning a whole source yields: lines are counted from 1.
pub open spec fn scan(src: Seq<u8>) -> Scan {
    scan_from(src, 0, 1)
}

/// A run ends inside the source and not before its start; all of it is of the
/// class, and what follows it is not: the run cannot be extended.
pub proof fn lemma_run_end(src: Seq<u8>, pos: int, class: spec_fn(char) -> bool)
    requires
        0 <= pos <= src.len(),
    ensures
        pos <= run_end(src, pos, class) <= src.len(),
        forall|i: int| pos <= i < run_end(src, pos, class) ==> class(#[trigger] src[i] as char),
        run_end(src, pos, class) < src.len() ==> !class(
            src[run_end(src, pos, class)] as char,
        ),
    decreases src.len() - pos,
{
    if pos < src.len() && class(src[pos] as char) {
        lemma_run_end(src, pos + 1, class);
    }
}

/// A block comment ends inside the source, with the first `*/` in its body:
/// none starts before the one it ends with. Where it ends with none, it ends
/// with the source, and no `*/` is in it.
pub proof fn lemma_block_comment_end(src: Seq<u8>, pos: int)
    requires
        0 <= pos <= src.len(),
    ensures
        pos <= block_comment_end(src, pos) <= src.len(),
        forall|i: int| pos <= i < block_comment_end(src, pos) - 2 ==> !closes_at(src, i),
        closes_at(src, block_comment_end(src, pos) - 2) && pos + 2 <= block_comment_end(src, pos)
            || block_comment_end(src, pos) == src.len() && forall|i: int|
            pos <= i ==> !closes_at(src, i),
    decreases src.len() - pos,
{
    if pos < src.len() && !closes_at(src, pos) {
        lemma_block_comment_end(src, pos + 1);
    }
}

/// A numeral ends inside the source, after its first digit. It is made of
/// digits and dots, ends with a digit, never with a dot, and no digit follows
/// it.
pub proof fn lemma_number_end(src: Seq<u8>, pos: int)
    requires
        0 <= pos < src.len(),
        is_digit(char_at(src, pos)),
    ensures
        pos < number_end(src, pos) <= src.len(),
        forall|i: int|
            pos <= i < number_end(src, pos) ==> is_digit(#[trigger] char_at(src, i)) || char_at(
                src,
                i,
            ) == '.',
        is_digit(char_at(src, number_end(src, pos) - 1)),
        !is_digit(char_at(src, number_end(src, pos))),
{
    let whole = run_end(src, pos, digits());
    lemma_run_end(src, pos, digits());
    assert(is_digit(char_at(src, whole - 1)));
    if char_at(src, whole) == '.' && is_digit(char_at(src, whole + 1)) {
        let end = run_end(src, whole + 1, digits());
        lemma_run_end(src, whole + 1, digits());
        assert(is_digit(char_at(src, end - 1)));
    }
}

/// Every lexeme is at least one byte long and ends inside the source.
pub proof fn lemma_scan_one_advances(src: Seq<u8>, pos: int, line: int)
    requires
        0 <= pos < src.len(),
    ensures
        pos < scan_one(src, pos, line).next <= src.len(),
{
    let c = char_at(src, pos);
    if c == '/' {
        if pos + 1 < src.len() {
            lemma_run_end(src, pos + 2, all_but('\n'));
            lemma_block_comment_end(src, pos + 2);
        }
    } else if c == '"' {
        lemma_run_end(src, pos + 1, all_but('"'));
    } else if is_digit(c) {
        lemma_number_end(src, pos);
    } else if is_alpha(c) {
        lemma_run_end(src, pos + 1, word_characters());
    }
}

} // verus!
