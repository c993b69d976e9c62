//! Front end of a small expression language: a single-pass lexer and a
//! recursive-descent expression parser, with every function verified against a
//! mathematical description of the token stream and of the grammar.
//!
//! - [`token`], [`expr`], [`errors`]: tokens, expression trees, diagnostics.
//! - [`scanning`]: the lexical rules, as functions of the bytes of a source;
//!   [`scan_laws`]: what holds of every stream they describe.
//! - [`lexer`]: the scanner, which yields exactly that stream.
//! - [`grammar`]: the grammar, as functions of a token stream;
//!   [`parse_laws`]: what holds of every tree they describe.
//! - [`parser`]: the parser, which builds exactly that tree.
//! - [`analysis`]: the two together.
//!
//! Neither the lexer nor the parser stops at an error or prints anything:
//! what they object to is collected as [`errors::Diagnostic`]s, each with its
//! line, for the caller to show.

pub mod analysis;
pub mod errors;
pub mod expr;
pub mod grammar;
pub mod lexer;
pub mod parse_laws;
pub mod parser;
pub mod scan_laws;
pub mod scanning;
pub mod token;
