use rlox::analysis::{analyze, Analysis};
use rlox::errors::{Diagnostic, LexerError, LoxError, ParserError};
use rlox::expr::{Expr, LiteralObject};
use rlox::token::{Token, TokenType};

fn analysis(source: &str) -> Analysis {
    analyze(source).expect("the source is short enough")
}

fn num(start: usize, end: usize) -> Expr {
    Expr::Literal { value: LiteralObject::NumberLiteral { start, end } }
}

#[test]
fn sound_source_gives_tokens_and_tree() {
    let analysis = analysis("1+2");
    assert_eq!(
        analysis.tokens,
        vec![
            Token::new(TokenType::Number, 0, 1, 1),
            Token::new(TokenType::Plus, 1, 2, 1),
            Token::new(TokenType::Number, 2, 3, 1),
            Token::new(TokenType::Eof, 0, 0, 1),
        ]
    );
    assert!(analysis.diagnostics.is_empty());
    assert_eq!(
        analysis.expr,
        Some(Expr::Binary {
            left: Box::new(num(0, 1)),
            operator: Token::new(TokenType::Plus, 1, 2, 1),
            right: Box::new(num(2, 3)),
        })
    );
}

#[test]
fn stream_with_a_lexical_error_is_not_parsed() {
    let analysis = analysis("1 + @");
    assert_eq!(
        analysis.tokens,
        vec![
            Token::new(TokenType::Number, 0, 1, 1),
            Token::new(TokenType::Plus, 2, 3, 1),
            Token::new(TokenType::Eof, 0, 0, 1),
        ]
    );
    assert_eq!(
        analysis.diagnostics,
        vec![Diagnostic { line: 1, error: LoxError::LexerErr(LexerError::InvalidChar('@')) }]
    );
    assert_eq!(analysis.expr, None);
}

#[test]
fn unterminated_string_stops_before_the_parser() {
    let analysis = analysis("(\"abc");
    assert_eq!(
        analysis.diagnostics,
        vec![Diagnostic { line: 1, error: LoxError::LexerErr(LexerError::UnterminatedString) }]
    );
    assert_eq!(analysis.expr, None);
}

#[test]
fn parser_errors_come_with_the_tree() {
    let analysis = analysis("(1+2");
    assert_eq!(
        analysis.diagnostics,
        vec![Diagnostic { line: 1, error: LoxError::ParserErr(ParserError::UnclosedParen) }]
    );
    assert_eq!(
        analysis.expr,
        Some(Expr::Grouping {
            expression: Box::new(Expr::Binary {
                left: Box::new(num(1, 2)),
                operator: Token::new(TokenType::Plus, 2, 3, 1),
                right: Box::new(num(3, 4)),
            }),
        })
    );
    assert_eq!(analysis.tokens.len(), 5);
}

#[test]
fn blank_source_has_no_expression_to_parse() {
    let analysis = analysis(" \n ");
    assert_eq!(analysis.tokens, vec![Token::new(TokenType::Eof, 0, 0, 2)]);
    assert_eq!(
        analysis.diagnostics,
        vec![Diagnostic { line: 2, error: LoxError::ParserErr(ParserError::PrimaryExprExpected) }]
    );
    assert_eq!(analysis.expr, Some(Expr::Unknown));
}

#[test]
fn each_analysis_stands_alone() {
    let first = analysis("1 @");
    let second = analysis("2");
    assert_eq!(first.diagnostics.len(), 1);
    assert!(second.diagnostics.is_empty());
    assert_eq!(second.expr, Some(num(0, 1)));
    let third = analysis("2");
    assert_eq!(second.tokens, third.tokens);
    assert_eq!(second.expr, third.expr);
}

#[test]
fn every_source_in_reach_is_analysed() {
    for source in ["", " ", "1", "@", "\"", "/*", "((((", "1 + 2 * 3 - 4 / 5"] {
        assert!(analyze(source).is_some());
    }
}
