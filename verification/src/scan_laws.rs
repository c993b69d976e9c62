//! What holds of every token stream that the lexical rules describe.

use vstd::prelude::*;
use crate::errors::Diagnostic;
use crate::scanning::{
    all_but, char_at, eof_token, is_alpha, is_blank, is_digit, lemma_number_end, lemma_run_end,
    lemma_scan_one_advances, newlines, run_end, scan, scan_from, scan_one, word_characters, Scan,
};
use crate::token::{terminated, TokenType};

verus! {

/// Counting newlines over two adjoining ranges is counting them over both.
pub proof fn lemma_newlines_split(src: Seq<u8>, from: int, mid: int, to: int)
    requires
        from <= mid <= to,
    ensures
        newlines(src, from, to) == newlines(src, from, mid) + newlines(src, mid, to),
    decreases to - mid,
{
    if mid < to {
        lemma_newlines_split(src, from, mid, to - 1);
    }
}

/// A range holds no more newlines than bytes.
pub proof fn lemma_newlines_bound(src: Seq<u8>, from: int, to: int)
    requires
        from <= to,
    ensures
        newlines(src, from, to) <= to - from,
    decreases to - from,
{
    if from < to {
        lemma_newlines_bound(src, from, to - 1);
    }
}

/// No lexeme is an `Eof` token, and none is both a token and an error.
pub proof fn lemma_scan_one_kind(src: Seq<u8>, pos: int, line: int)
    ensures
        scan_one(src, pos, line).token matches Some(token) ==> token.token_type
            != TokenType::Eof,
        scan_one(src, pos, line).error is Some ==> scan_one(src, pos, line).token is None,
{
}

/// The span of a token lies inside its lexeme.
pub proof fn lemma_scan_one_span(src: Seq<u8>, pos: int, line: int)
    requires
        0 <= pos < src.len() <= usize::MAX,
    ensures
        pos < scan_one(src, pos, line).next <= src.len(),
        scan_one(src, pos, line).token matches Some(token) ==> pos <= token.start <= token.end
            <= scan_one(src, pos, line).next,
{
    let c = char_at(src, pos);
    lemma_scan_one_advances(src, pos, line);
    if c == '"' {
        lemma_run_end(src, pos + 1, all_but('"'));
    } else if is_digit(c) {
        lemma_number_end(src, pos);
    } else if is_alpha(c) {
        lemma_run_end(src, pos + 1, word_characters());
    }
}

/// One lexeme moves the line counter forward by no more than the newlines it
/// holds, and its token is on a line between the two values of the counter.
pub proof fn lemma_scan_one_line(src: Seq<u8>, pos: int, line: int)
    requires
        0 <= pos < src.len(),
        0 <= line,
        line + newlines(src, pos, src.len() as int) <= usize::MAX,
    ensures
        ({
            let step = scan_one(src, pos, line);
            &&& line <= step.line <= line + newlines(src, pos, step.next)
            &&& step.token matches Some(token) ==> line <= token.line <= step.line
        }),
{
    let step = scan_one(src, pos, line);
    let c = char_at(src, pos);
    lemma_scan_one_advances(src, pos, line);
    lemma_newlines_split(src, pos, step.next, src.len() as int);
    if c == '\n' {
        assert(newlines(src, pos, pos + 1) == 1) by {
            reveal_with_fuel(newlines, 2);
        }
    } else if c == '"' {
        let close = run_end(src, pos + 1, all_but('"'));
        lemma_run_end(src, pos + 1, all_but('"'));
        lemma_newlines_split(src, pos, pos + 1, close);
        lemma_newlines_split(src, pos, close, step.next);
    }
}

/// The stream that scanning yields ends with `Eof`, which occurs nowhere else
/// in it: it is a stream that the parser accepts.
pub proof fn lemma_scan_from_ends_with_eof(src: Seq<u8>, pos: int, line: int)
    ensures
        terminated(scan_from(src, pos, line).tokens),
        forall|i: int|
            0 <= i < scan_from(src, pos, line).tokens.len() - 1 ==> (#[trigger] scan_from(
                src,
                pos,
                line,
            ).tokens[i]).token_type != TokenType::Eof,
    decreases src.len() - pos,
{
    if 0 <= pos < src.len() {
        let step = scan_one(src, pos, line);
        let rest = scan_from(src, step.next, step.line).tokens;
        let tokens = scan_from(src, pos, line).tokens;
        lemma_scan_one_advances(src, pos, line);
        lemma_scan_one_kind(src, pos, line);
        lemma_scan_from_ends_with_eof(src, step.next, step.line);
        // The stream is the token of the first lexeme, if it is one, then the rest.
        if step.token is Some {
            assert forall|i: int| 1 <= i < tokens.len() implies tokens[i] == rest[i - 1] by {}
        }
    }
}

/// In the stream that scanning from `pos` yields, every span lies inside the
/// source, and the spans of the tokens before `Eof` start at `pos` or later
/// and follow one another in the order of the stream, without overlap.
pub proof fn lemma_scan_from_spans(src: Seq<u8>, pos: int, line: int)
    requires
        0 <= pos <= src.len() <= usize::MAX,
    ensures
        ({
            let tokens = scan_from(src, pos, line).tokens;
            &&& forall|i: int|
                0 <= i < tokens.len() ==> (#[trigger] tokens[i]).start <= tokens[i].end
                    <= src.len()
            &&& forall|i: int| 0 <= i < tokens.len() - 1 ==> pos <= (#[trigger] tokens[i]).start
            &&& forall|i: int, j: int|
                0 <= i < j < tokens.len() - 1 ==> (#[trigger] tokens[i]).end <= (
                #[trigger] tokens[j]).start
        }),
    decreases src.len() - pos,
{
    if pos < src.len() {
        let step = scan_one(src, pos, line);
        let rest = scan_from(src, step.next, step.line).tokens;
        let tokens = scan_from(src, pos, line).tokens;
        lemma_scan_one_span(src, pos, line);
        lemma_scan_from_spans(src, step.next, step.line);
        // The stream is the token of the first lexeme, if it is one, then the rest.
        if step.token is Some {
            assert forall|i: int| 1 <= i < tokens.len() implies tokens[i] == rest[i - 1] by {}
        }
    }
}

/// In what scanning from `pos` yields, the lines of the tokens and of the
/// diagnostics run from `line` upward, no further than there are newlines
/// left, and the lines of the tokens never run back.
pub proof fn lemma_scan_from_lines(src: Seq<u8>, pos: int, line: int)
    requires
        0 <= pos <= src.len(),
        0 <= line,
        line + newlines(src, pos, src.len() as int) <= usize::MAX,
    ensures
        ({
            let tokens = scan_from(src, pos, line).tokens;
            let diagnostics = scan_from(src, pos, line).diagnostics;
            let last_line = line + newlines(src, pos, src.len() as int);
            &&& forall|i: int|
                0 <= i < tokens.len() ==> line <= (#[trigger] tokens[i]).line <= last_line
            &&& forall|i: int, j: int|
                0 <= i <= j < tokens.len() ==> (#[trigger] tokens[i]).line <= (
                #[trigger] tokens[j]).line
            &&& forall|i: int|
                0 <= i < diagnostics.len() ==> line <= (#[trigger] diagnostics[i]).line
                    <= last_line
        }),
    decreases src.len() - pos,
{
    if pos < src.len() {
        let step = scan_one(src, pos, line);
        let rest = scan_from(src, step.next, step.line);
        let whole = scan_from(src, pos, line);
        lemma_scan_one_advances(src, pos, line);
        lemma_scan_one_line(src, pos, line);
        lemma_newlines_split(src, pos, step.next, src.len() as int);
        lemma_scan_from_lines(src, step.next, step.line);
        // Each list is what the first lexeme adds to it, if anything, then the rest.
        if step.token is Some {
            assert forall|i: int| 1 <= i < whole.tokens.len() implies whole.tokens[i]
                == rest.tokens[i - 1] by {}
        }
        if step.error is Some {
            assert forall|i: int| 1 <= i < whole.diagnostics.len() implies whole.diagnostics[i]
                == rest.diagnostics[i - 1] by {}
        }
    }
}

/// Scanning from `pos` a source that holds only blanks from there on yields
/// `Eof` alone, on the line that the newlines lead to, and reports nothing.
pub proof fn lemma_scan_from_blank(src: Seq<u8>, pos: int, line: int)
    requires
        0 <= pos <= src.len(),
        forall|i: int| pos <= i < src.len() ==> is_blank(#[trigger] src[i] as char),
    ensures
        scan_from(src, pos, line) == (Scan {
            tokens: seq![eof_token(line + newlines(src, pos, src.len() as int))],
            diagnostics: seq![],
        }),
    decreases src.len() - pos,
{
    if pos < src.len() {
        let step = scan_one(src, pos, line);
        assert(newlines(src, pos, pos + 1) == if src[pos] as char == '\n' {
            1nat
        } else {
            0nat
        }) by {
            reveal_with_fuel(newlines, 2);
        }
        lemma_newlines_split(src, pos, pos + 1, src.len() as int);
        lemma_scan_from_blank(src, pos + 1, step.line);
    }
}

/// A source of blanks alone scans to `Eof` alone, with no error.
pub proof fn lemma_blank_source(src: Seq<u8>)
    requires
        forall|i: int| 0 <= i < src.len() ==> is_blank(#[trigger] src[i] as char),
    ensures
        scan(src).tokens == seq![eof_token(1int + newlines(src, 0, src.len() as int))],
        scan(src).diagnostics == Seq::<Diagnostic>::empty(),
{
    lemma_scan_from_blank(src, 0, 1);
}

/// The last token of every stream is `Eof` and no other token is. No token
/// and no diagnostic is on a line beyond the number of newlines in the source
/// plus one, and the lines of the tokens never run back. Every span lies
/// inside the source.
pub proof fn lemma_scan_shape(src: Seq<u8>)
    requires
        src.len() < usize::MAX,
    ensures
        ({
            let tokens = scan(src).tokens;
            let diagnostics = scan(src).diagnostics;
            let lines = 1int + newlines(src, 0, src.len() as int);
            &&& tokens.len() >= 1
            &&& tokens.last().token_type == TokenType::Eof
            &&& forall|i: int|
                0 <= i < tokens.len() - 1 ==> (#[trigger] tokens[i]).token_type != TokenType::Eof
            &&& forall|i: int|
                0 <= i < tokens.len() ==> (#[trigger] tokens[i]).start <= tokens[i].end
                    <= src.len()
            &&& forall|i: int| 0 <= i < tokens.len() ==> 1 <= (#[trigger] tokens[i]).line <= lines
            &&& forall|i: int, j: int|
                0 <= i <= j < tokens.len() ==> (#[trigger] tokens[i]).line <= (
                #[trigger] tokens[j]).line
            &&& forall|i: int|
                0 <= i < diagnostics.len() ==> 1 <= (#[trigger] diagnostics[i]).line <= lines
        }),
{
    lemma_newlines_bound(src, 0, src.len() as int);
    lemma_scan_from_ends_with_eof(src, 0, 1);
    lemma_scan_from_spans(src, 0, 1);
    lemma_scan_from_lines(src, 0, 1);
}

} // verus!
