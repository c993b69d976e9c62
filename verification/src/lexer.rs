//! The lexer: one pass over the source, left to right, with at most one
//! character of lookahead.

use vstd::prelude::*;
use vstd::string::StringSliceAdditionalSpecFns;
use vstd::string::is_ascii_spec_bytes;
use crate::errors::{Diagnostic, LexerError, LoxError};
use crate::scanning::{
    all_but, block_comment_end, char_at, digits, is_alpha, is_alpha_numeric, is_digit, keyword,
    lemma_scan_one_advances, newlines, number_end, run_end, scan_from, scan_one, text_of,
    token_at, word_characters,
};
use crate::token::{terminated, Token, TokenType};

verus! {

/// A scanner over one source text. It collects the tokens and the diagnostics
/// and hands them out when the scan is done.
pub struct Lexer<'a> {
    source: &'a str,
    tokens: Vec<Token>,
    diagnostics: Vec<Diagnostic>,
    start: usize,
    current: usize,
    line: usize,
    had_error: bool,
}

impl<'a> Lexer<'a> {
    /// The bytes of the source.
    pub closed spec fn bytes(&self) -> Seq<u8> {
        self.source.spec_bytes()
    }

    /// The position of the next byte to read.
    pub closed spec fn position(&self) -> int {
        self.current as int
    }

    /// The line of the next byte to read.
    pub closed spec fn line(&self) -> int {
        self.line as int
    }

    /// The tokens collected so far.
    pub closed spec fn emitted(&self) -> Seq<Token> {
        self.tokens@
    }

    /// The diagnostics collected so far.
    pub closed spec fn reported(&self) -> Seq<Diagnostic> {
        self.diagnostics@
    }

    /// The error flag: set as soon as anything has been reported.
    pub closed spec fn failed(&self) -> bool {
        self.had_error
    }

    /// The scanner is inside its source, the line counter has not run ahead of
    /// the position, and the error flag says whether anything was reported.
    pub closed spec fn wf(&self) -> bool {
        &&& self.bytes().len() < usize::MAX
        &&& self.current <= self.bytes().len()
        &&& self.line <= self.current + 1
        &&& self.had_error == (self.diagnostics@.len() > 0)
    }

    /// The same scanner further on in the same source: only the position may differ.
    spec fn moved_on(&self, old: &Self) -> bool {
        *self == (Lexer { current: self.current, ..*old })
    }

    /// A scanner at the start of `source`, on line 1, with nothing collected.
    ///
    /// The source must be shorter than `usize::MAX` bytes, so that its lines
    /// can be counted in a `usize`. No string in memory is longer than
    /// `isize::MAX` bytes, so every caller can meet this.
    pub fn new(source: &'a str) -> (lexer: Self)
        requires
            source.spec_bytes().len() < usize::MAX,
        ensures
            lexer.wf(),
            lexer.bytes() == source.spec_bytes(),
            lexer.position() == 0,
            lexer.line() == 1,
            lexer.emitted() == Seq::<Token>::empty(),
            lexer.reported() == Seq::<Diagnostic>::empty(),
            !lexer.failed(),
    {
        Lexer {
            source,
            tokens: Vec::new(),
            diagnostics: Vec::new(),
            start: 0,
            current: 0,
            line: 1,
            had_error: false,
        }
    }

    /// Scans the rest of the source, then closes the stream with `Eof`.
    /// Errors do not stop the scan: each is added to the diagnostics, and the
    /// error flag, which is returned, says whether there is any.
    pub fn scan_tokens(&mut self) -> (had_error: bool)
        requires
            old(self).wf(),
        ensures
            final(self).wf(),
            final(self).bytes() == old(self).bytes(),
            final(self).position() == old(self).bytes().len(),
            terminated(final(self).emitted()),
            final(self).emitted() == old(self).emitted() + scan_from(
                old(self).bytes(),
                old(self).position(),
                old(self).line(),
            ).tokens,
            final(self).reported() == old(self).reported() + scan_from(
                old(self).bytes(),
                old(self).position(),
                old(self).line(),
            ).diagnostics,
            final(self).failed() == had_error,
            had_error == (final(self).reported().len() > 0),
    {
        while !self.is_at_end()
            invariant
                self.wf(),
                self.source == old(self).source,
                old(self).tokens@ + scan_from(
                    self.bytes(),
                    old(self).current as int,
                    old(self).line as int,
                ).tokens == self.tokens@ + scan_from(
                    self.bytes(),
                    self.current as int,
                    self.line as int,
                ).tokens,
                old(self).diagnostics@ + scan_from(
                    self.bytes(),
                    old(self).current as int,
                    old(self).line as int,
                ).diagnostics == self.diagnostics@ + scan_from(
                    self.bytes(),
                    self.current as int,
                    self.line as int,
                ).diagnostics,
            decreases self.bytes().len() - self.current,
        {
            self.start = self.current;
            self.scan_token();
        }
        self.tokens.push(Token::new(TokenType::Eof, 0, 0, self.line));
        self.had_error
    }

    /// The tokens collected so far.
    pub fn tokens(&self) -> (tokens: &Vec<Token>)
        ensures
            tokens@ == self.emitted(),
    {
        &self.tokens
    }

    /// The diagnostics collected so far.
    pub fn diagnostics(&self) -> (diagnostics: &Vec<Diagnostic>)
        ensures
            diagnostics@ == self.reported(),
    {
        &self.diagnostics
    }

    /// Gives up the scanner for its tokens and its diagnostics.
    pub fn into_parts(self) -> (parts: (Vec<Token>, Vec<Diagnostic>))
        ensures
            parts.0@ == self.emitted(),
            parts.1@ == self.reported(),
    {
        (self.tokens, self.diagnostics)
    }

    fn is_at_end(&self) -> (at_end: bool)
        ensures
            at_end == (self.current >= self.bytes().len()),
    {
        self.current >= self.source.as_bytes().len()
    }

    /// Scans the lexeme that starts at the current position.
    fn scan_token(&mut self)
        requires
            old(self).wf(),
            old(self).current < old(self).bytes().len(),
            old(self).start == old(self).current,
        ensures
            final(self).wf(),
            final(self).source == old(self).source,
            old(self).current < final(self).current,
            ({
                let step = scan_one(
                    old(self).bytes(),
                    old(self).current as int,
                    old(self).line as int,
                );
                &&& final(self).current == step.next
                &&& final(self).line == step.line
                &&& final(self).tokens@ == old(self).tokens@ + step.tokens()
                &&& final(self).diagnostics@ == old(self).diagnostics@ + step.diagnostics()
            }),
    {
        proof {
            lemma_scan_one_advances(self.bytes(), self.current as int, self.line as int);
        }
        let chr: char = self.advance();
        match chr {
            // Single-character tokens
            '(' => self.add_token(TokenType::LeftParen),
            ')' => self.add_token(TokenType::RightParen),
            '{' => self.add_token(TokenType::LeftBrace),
            '}' => self.add_token(TokenType::RightBrace),
            ',' => self.add_token(TokenType::Comma),
            '.' => self.add_token(TokenType::Dot),
            '-' => self.add_token(TokenType::Minus),
            '+' => self.add_token(TokenType::Plus),
            ';' => self.add_token(TokenType::Semicolon),
            '*' => self.add_token(TokenType::Star),
            // Ambiguous single-character tokens
            '!' => {
                let is_bang_equal = self.advance_on_match('=');
                self.add_token(
                    if is_bang_equal {
                        TokenType::BangEqual
                    } else {
                        TokenType::Bang
                    },
                );
            },
            '=' => {
                let is_equal_equal = self.advance_on_match('=');
                self.add_token(
                    if is_equal_equal {
                        TokenType::EqualEqual
                    } else {
                        TokenType::Equal
                    },
                );
            },
            '<' => {
                let is_less_equal = self.advance_on_match('=');
                self.add_token(
                    if is_less_equal {
                        TokenType::LessEqual
                    } else {
                        TokenType::Less
                    },
                );
            },
            '>' => {
                let is_greater_equal = self.advance_on_match('=');
                self.add_token(
                    if is_greater_equal {
                        TokenType::GreaterEqual
                    } else {
                        TokenType::Greater
                    },
                );
            },
            '/' => {
                if self.advance_on_match('/') {
                    self.line_comment();
                } else if self.advance_on_match('*') {
                    self.block_comment();
                } else {
                    self.add_token(TokenType::Slash);
                }
            },
            // Whitespace
            ' ' | '\r' | '\t' => (),
            '\n' => self.line += 1,
            // String literals
            '"' => self.string(),
            // Number literals
            c if self.is_digit(c) => self.number(),
            // Identifiers and keywords
            c if self.is_alpha(c) => self.identifier(),
            // Invalid characters
            c => self.report(LexerError::InvalidChar(c)),
        }
    }

    /// Skips the rest of a line comment: up to the newline, which stays.
    fn line_comment(&mut self)
        requires
            old(self).wf(),
        ensures
            final(self).moved_on(old(self)),
            final(self).wf(),
            final(self).current == run_end(
                old(self).bytes(),
                old(self).current as int,
                all_but('\n'),
            ),
    {
        while !self.is_at_end() && self.peek() != '\n'
            invariant
                self.wf(),
                self.moved_on(old(self)),
                old(self).current <= self.current,
                run_end(self.bytes(), self.current as int, all_but('\n')) == run_end(
                    self.bytes(),
                    old(self).current as int,
                    all_but('\n'),
                ),
            decreases self.bytes().len() - self.current,
        {
            self.advance();
        }
    }

    /// Skips the rest of a block comment: through the first `*/`, or to the
    /// end of the source where the comment is never closed. Newlines in the
    /// comment do not move the line counter.
    fn block_comment(&mut self)
        requires
            old(self).wf(),
        ensures
            final(self).moved_on(old(self)),
            final(self).wf(),
            final(self).current == block_comment_end(old(self).bytes(), old(self).current as int),
    {
        loop
            invariant_except_break
                block_comment_end(self.bytes(), self.current as int) == block_comment_end(
                    self.bytes(),
                    old(self).current as int,
                ),
            invariant
                self.wf(),
                self.moved_on(old(self)),
                old(self).current <= self.current,
            ensures
                self.wf(),
                self.moved_on(old(self)),
                self.current == block_comment_end(self.bytes(), old(self).current as int),
            decreases self.bytes().len() - self.current,
        {
            if self.is_at_end() {
                break ;
            }
            let c: char = self.advance();
            if c == '*' && self.advance_on_match('/') {
                break ;
            }
        }
    }

    /// Scans a string literal whose opening quote has just been read.
    fn string(&mut self)
        requires
            old(self).wf(),
            old(self).start + 1 == old(self).current,
        ensures
            final(self).wf(),
            final(self).source == old(self).source,
            ({
                let open = old(self).current as int;
                let close = run_end(old(self).bytes(), open, all_but('"'));
                let line = old(self).line + newlines(old(self).bytes(), open, close);
                &&& final(self).line == line
                &&& if close < old(self).bytes().len() {
                    &&& final(self).current == close + 1
                    &&& final(self).tokens@ == old(self).tokens@.push(
                        token_at(TokenType::Str, open, close, line),
                    )
                    &&& final(self).diagnostics@ == old(self).diagnostics@
                } else {
                    &&& final(self).current == close
                    &&& final(self).tokens@ == old(self).tokens@
                    &&& final(self).diagnostics@ == old(self).diagnostics@.push(
                        Diagnostic {
                            line: line as usize,
                            error: LoxError::LexerErr(LexerError::UnterminatedString),
                        },
                    )
                }
            }),
    {
        while !self.is_at_end() && self.peek() != '"'
            invariant
                self.wf(),
                *self == (Lexer { current: self.current, line: self.line, ..*old(self) }),
                old(self).current <= self.current,
                run_end(self.bytes(), self.current as int, all_but('"')) == run_end(
                    self.bytes(),
                    old(self).current as int,
                    all_but('"'),
                ),
                self.line == old(self).line + newlines(
                    self.bytes(),
                    old(self).current as int,
                    self.current as int,
                ),
            decreases self.bytes().len() - self.current,
        {
            let c: char = self.advance();
            if c == '\n' {
                self.line += 1;
            }
        }

        if self.is_at_end() {
            self.report(LexerError::UnterminatedString);
            return ;
        }
        self.advance();  // the closing quote
        self.add_token(TokenType::Str);
    }

    /// Scans a numeral whose first digit has just been read.
    fn number(&mut self)
        requires
            old(self).wf(),
            old(self).start + 1 == old(self).current,
            is_digit(char_at(old(self).bytes(), old(self).start as int)),
        ensures
            final(self).wf(),
            final(self).current == number_end(old(self).bytes(), old(self).start as int),
            *final(self) == (Lexer {
                current: final(self).current,
                tokens: final(self).tokens,
                ..*old(self)
            }),
            final(self).tokens@ == old(self).tokens@.push(
                token_at(
                    TokenType::Number,
                    old(self).start as int,
                    final(self).current as int,
                    old(self).line as int,
                ),
            ),
    {
        self.digits();
        let c: char = self.peek();
        let d: char = self.peek_next();
        if c == '.' && self.is_digit(d) {
            self.advance();
            self.digits();
        }
        self.add_token(TokenType::Number);
    }

    /// Reads on to the end of a run of digits.
    fn digits(&mut self)
        requires
            old(self).wf(),
        ensures
            final(self).moved_on(old(self)),
            final(self).wf(),
            final(self).current == run_end(old(self).bytes(), old(self).current as int, digits()),
            old(self).current <= final(self).current,
    {
        loop
            invariant
                self.wf(),
                self.moved_on(old(self)),
                old(self).current <= self.current,
                run_end(self.bytes(), self.current as int, digits()) == run_end(
                    self.bytes(),
                    old(self).current as int,
                    digits(),
                ),
            ensures
                self.wf(),
                self.moved_on(old(self)),
                old(self).current <= self.current,
                self.current == run_end(self.bytes(), old(self).current as int, digits()),
            decreases self.bytes().len() - self.current,
        {
            let c: char = self.peek();
            if !self.is_digit(c) {
                break ;
            }
            self.advance();
        }
    }

    /// Scans a word whose first character has just been read: a keyword or an
    /// identifier.
    fn identifier(&mut self)
        requires
            old(self).wf(),
            old(self).start + 1 == old(self).current,
            is_alpha(char_at(old(self).bytes(), old(self).start as int)),
        ensures
            final(self).wf(),
            final(self).current == run_end(
                old(self).bytes(),
                old(self).start as int,
                word_characters(),
            ),
            *final(self) == (Lexer {
                current: final(self).current,
                tokens: final(self).tokens,
                ..*old(self)
            }),
            final(self).tokens@ == old(self).tokens@.push(
                token_at(
                    keyword(
                        text_of(
                            old(self).bytes().subrange(
                                old(self).start as int,
                                final(self).current as int,
                            ),
                        ),
                    ),
                    old(self).start as int,
                    final(self).current as int,
                    old(self).line as int,
                ),
            ),
    {
        loop
            invariant
                self.wf(),
                self.moved_on(old(self)),
                old(self).current <= self.current,
                run_end(self.bytes(), self.current as int, word_characters()) == run_end(
                    self.bytes(),
                    old(self).current as int,
                    word_characters(),
                ),
            ensures
                self.wf(),
                self.moved_on(old(self)),
                old(self).current <= self.current,
                self.current == run_end(
                    self.bytes(),
                    old(self).current as int,
                    word_characters(),
                ),
            decreases self.bytes().len() - self.current,
        {
            let c: char = self.peek();
            if !self.is_alpha_numeric(c) {
                break ;
            }
            self.advance();
        }

        proof {
            reveal_strlit("and");
            reveal_strlit("class");
            reveal_strlit("else");
            reveal_strlit("false");
            reveal_strlit("for");
            reveal_strlit("fun");
            reveal_strlit("if");
            reveal_strlit("nil");
            reveal_strlit("or");
            reveal_strlit("print");
            reveal_strlit("return");
            reveal_strlit("super");
            reveal_strlit("this");
            reveal_strlit("true");
            reveal_strlit("var");
            reveal_strlit("while");
        }
        let token_type: TokenType = if self.spells("and") {
            TokenType::And
        } else if self.spells("class") {
            TokenType::Class
        } else if self.spells("else") {
            TokenType::Else
        } else if self.spells("false") {
            TokenType::False
        } else if self.spells("for") {
            TokenType::For
        } else if self.spells("fun") {
            TokenType::Fun
        } else if self.spells("if") {
            TokenType::If
        } else if self.spells("nil") {
            TokenType::Nil
        } else if self.spells("or") {
            TokenType::Or
        } else if self.spells("print") {
            TokenType::Print
        } else if self.spells("return") {
            TokenType::Return
        } else if self.spells("super") {
            TokenType::Super
        } else if self.spells("this") {
            TokenType::This
        } else if self.spells("true") {
            TokenType::True
        } else if self.spells("var") {
            TokenType::Var
        } else if self.spells("while") {
            TokenType::While
        } else {
            TokenType::Identifier
        };

        self.add_token(token_type);
    }

    /// Whether the lexeme read so far is exactly `word`.
    fn spells(&self, word: &str) -> (same: bool)
        requires
            self.wf(),
            self.start <= self.current,
            word.is_ascii(),
        ensures
            same == (text_of(self.bytes().subrange(self.start as int, self.current as int))
                == word@),
    {
        broadcast use is_ascii_spec_bytes;

        let lexeme = self.source.as_bytes();
        let letters = word.as_bytes();
        let ghost text = text_of(self.bytes().subrange(self.start as int, self.current as int));
        if self.current - self.start != letters.len() {
            return false;
        }
        let mut i: usize = 0;
        while i < letters.len()
            invariant
                self.wf(),
                self.start <= self.current,
                word.is_ascii(),
                lexeme@ == self.bytes(),
                letters@ == word.spec_bytes(),
                self.current - self.start == letters.len(),
                text == text_of(self.bytes().subrange(self.start as int, self.current as int)),
                i <= letters.len(),
                forall|j: int| 0 <= j < i ==> text[j] == word@[j],
            decreases letters.len() - i,
        {
            if lexeme[self.start + i] != letters[i] {
                return false;
            }
            i += 1;
        }
        assert(text =~= word@);
        true
    }

    fn peek(&self) -> (c: char)
        requires
            self.wf(),
        ensures
            c == char_at(self.bytes(), self.current as int),
    {
        if self.is_at_end() {
            '\0'
        } else {
            self.source.as_bytes()[self.current] as char
        }
    }

    fn peek_next(&self) -> (c: char)
        requires
            self.wf(),
        ensures
            c == char_at(self.bytes(), self.current + 1),
    {
        if self.current + 1 >= self.source.as_bytes().len() {
            '\0'
        } else {
            self.source.as_bytes()[self.current + 1] as char
        }
    }

    fn is_digit(&self, c: char) -> (b: bool)
        ensures
            b == is_digit(c),
    {
        c >= '0' && c <= '9'
    }

    fn is_alpha(&self, c: char) -> (b: bool)
        ensures
            b == is_alpha(c),
    {
        (c >= 'a' && c <= 'z') || (c >= 'A' && c <= 'Z') || (c == '_')
    }

    fn is_alpha_numeric(&self, c: char) -> (b: bool)
        ensures
            b == is_alpha_numeric(c),
    {
        self.is_alpha(c) || self.is_digit(c)
    }

    /// Reads the current character and moves past it.
    fn advance(&mut self) -> (c: char)
        requires
            old(self).wf(),
            old(self).current < old(self).bytes().len(),
        ensures
            final(self).moved_on(old(self)),
            final(self).wf(),
            final(self).current == old(self).current + 1,
            c == char_at(old(self).bytes(), old(self).current as int),
    {
        let c: char = self.source.as_bytes()[self.current] as char;
        self.current += 1;
        c
    }

    /// Moves past the current character if it is `expected`.
    fn advance_on_match(&mut self, expected: char) -> (matched: bool)
        requires
            old(self).wf(),
        ensures
            final(self).moved_on(old(self)),
            final(self).wf(),
            matched == (old(self).current < old(self).bytes().len() && char_at(
                old(self).bytes(),
                old(self).current as int,
            ) == expected),
            final(self).current == old(self).current + if matched {
                1int
            } else {
                0int
            },
    {
        if self.is_at_end() {
            return false;
        }
        if self.source.as_bytes()[self.current] as char != expected {
            return false;
        }
        self.current += 1;
        true
    }

    /// Adds the token of the lexeme just read. The span of a string literal
    /// leaves out its two quotes.
    fn add_token(&mut self, token_type: TokenType)
        requires
            old(self).start <= old(self).current,
            token_type == TokenType::Str ==> old(self).start + 2 <= old(self).current,
        ensures
            *final(self) == (Lexer { tokens: final(self).tokens, ..*old(self) }),
            final(self).tokens@ == old(self).tokens@.push(
                if token_type == TokenType::Str {
                    token_at(
                        token_type,
                        old(self).start + 1,
                        old(self).current - 1,
                        old(self).line as int,
                    )
                } else {
                    token_at(
                        token_type,
                        old(self).start as int,
                        old(self).current as int,
                        old(self).line as int,
                    )
                },
            ),
    {
        match token_type {
            TokenType::Str => self.tokens.push(
                Token::new(token_type, self.start + 1, self.current - 1, self.line),
            ),
            _ => self.tokens.push(Token::new(token_type, self.start, self.current, self.line)),
        }
    }

    /// Records `error` on the current line and sets the error flag.
    fn report(&mut self, error: LexerError)
        ensures
            *final(self) == (Lexer {
                diagnostics: final(self).diagnostics,
                had_error: true,
                ..*old(self)
            }),
            final(self).diagnostics@ == old(self).diagnostics@.push(
                Diagnostic { line: old(self).line, error: LoxError::LexerErr(error) },
            ),
    {
        self.diagnostics.push(Diagnostic::new(self.line, LoxError::from(error)));
        self.had_error = true;
    }
}

} // verus!
