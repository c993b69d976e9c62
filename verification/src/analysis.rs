//! The front end as a whole: scan a source, then parse the stream if the scan
//! met no error.

use vstd::prelude::*;
use vstd::string::StringSliceAdditionalSpecFns;
use crate::errors::Diagnostic;
use crate::expr::Expr;
use crate::grammar::parse_expression;
use crate::lexer::Lexer;
use crate::parser::Parser;
use crate::scanning::scan;
use crate::token::Token;

verus! {

/// What the front end makes of one source.
#[derive(Debug)]
pub struct Analysis {
    /// The token stream.
    pub tokens: Vec<Token>,
    /// What the lexer reported or, if that is nothing, what the parser reported.
    pub diagnostics: Vec<Diagnostic>,
    /// The tree, if the stream was parsed.
    pub expr: Option<Expr>,
}

/// Whether `result` is what the front end makes of a source with the bytes
/// `src`: the stream that the lexical rules describe and, if the lexer has
/// nothing to report, the tree that the grammar describes at the start of the
/// stream, with what the parser reports.
pub open spec fn analysis_of(src: Seq<u8>, result: Analysis) -> bool {
    &&& result.tokens@ == scan(src).tokens
    &&& if scan(src).diagnostics.len() > 0 {
        &&& result.diagnostics@ == scan(src).diagnostics
        &&& result.expr is None
    } else {
        &&& result.diagnostics@ == parse_expression(scan(src).tokens, 0).errors
        &&& result.expr == Some(parse_expression(scan(src).tokens, 0).expr)
    }
}

/// Scans `source` and, unless the lexer reports an error, parses one
/// expression from the start of the stream. A stream with an error in it is
/// not parsed. A tree that comes with diagnostics is not fit to evaluate.
///
/// Returns `None` for a source of `usize::MAX` bytes, whose lines cannot be
/// counted in a `usize`, and for no other.
pub fn analyze(source: &str) -> (analysis: Option<Analysis>)
    ensures
        analysis is None <==> source.spec_bytes().len() >= usize::MAX,
        analysis matches Some(result) ==> analysis_of(source.spec_bytes(), result),
{
    if source.as_bytes().len() == usize::MAX {
        return None;
    }
    let mut lexer = Lexer::new(source);
    let had_error = lexer.scan_tokens();
    let (tokens, diagnostics) = lexer.into_parts();
    if had_error {
        return Some(Analysis { tokens, diagnostics, expr: None });
    }
    let mut parser = Parser::new(tokens);
    let expr = parser.parse();
    let (tokens, diagnostics) = parser.into_parts();
    Some(Analysis { tokens, diagnostics, expr: Some(expr) })
}

} // verus!
