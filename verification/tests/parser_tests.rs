use rlox::errors::{Diagnostic, LoxError, ParserError};
use rlox::expr::{Expr, LiteralObject};
use rlox::lexer::Lexer;
use rlox::parser::Parser;
use rlox::token::{Token, TokenType};

fn tokens_of(source: &str) -> Vec<Token> {
    assert!(source.len() < usize::MAX);
    let mut lexer = Lexer::new(source);
    let had_error = lexer.scan_tokens();
    assert!(!had_error);
    lexer.into_parts().0
}

fn parser_for(source: &str) -> Parser {
    let tokens = tokens_of(source);
    assert_eq!(tokens.last().map(|token| token.token_type), Some(TokenType::Eof));
    Parser::new(tokens)
}

fn parse(source: &str) -> (Expr, Vec<Diagnostic>) {
    let mut parser = parser_for(source);
    let expr = parser.parse();
    (expr, parser.diagnostics().clone())
}

fn tok(token_type: TokenType, start: usize, end: usize) -> Token {
    Token::new(token_type, start, end, 1)
}

fn num(start: usize, end: usize) -> Expr {
    Expr::Literal { value: LiteralObject::NumberLiteral { start, end } }
}

fn text(start: usize, end: usize) -> Expr {
    Expr::Literal { value: LiteralObject::StringLiteral { start, end } }
}

fn boolean(value: bool) -> Expr {
    Expr::Literal { value: LiteralObject::BooleanLiteral { value } }
}

fn nil() -> Expr {
    Expr::Literal { value: LiteralObject::NilLiteral }
}

fn binary(left: Expr, operator: Token, right: Expr) -> Expr {
    Expr::Binary { left: Box::new(left), operator, right: Box::new(right) }
}

fn unary(operator: Token, right: Expr) -> Expr {
    Expr::Unary { operator, right: Box::new(right) }
}

fn group(expression: Expr) -> Expr {
    Expr::Grouping { expression: Box::new(expression) }
}

fn parser_error(line: usize, error: ParserError) -> Diagnostic {
    Diagnostic { line, error: LoxError::ParserErr(error) }
}

#[test]
fn one_plus_two_is_a_binary_node() {
    let (expr, diagnostics) = parse("1+2");
    assert_eq!(expr, binary(num(0, 1), tok(TokenType::Plus, 1, 2), num(2, 3)));
    assert!(diagnostics.is_empty());
}

#[test]
fn missing_right_paren_is_reported() {
    let (expr, diagnostics) = parse("(1+2");
    assert_eq!(diagnostics, vec![parser_error(1, ParserError::UnclosedParen)]);
    assert_eq!(expr, group(binary(num(1, 2), tok(TokenType::Plus, 2, 3), num(3, 4))));
}

#[test]
fn subtraction_nests_to_the_left() {
    let (expr, diagnostics) = parse("1-2-3");
    assert!(diagnostics.is_empty());
    assert_eq!(
        expr,
        binary(
            binary(num(0, 1), tok(TokenType::Minus, 1, 2), num(2, 3)),
            tok(TokenType::Minus, 3, 4),
            num(4, 5),
        )
    );
    assert_ne!(
        expr,
        binary(
            num(0, 1),
            tok(TokenType::Minus, 1, 2),
            binary(num(2, 3), tok(TokenType::Minus, 3, 4), num(4, 5)),
        )
    );
}

#[test]
fn every_binary_level_nests_to_the_left() {
    let cases = [
        ("1==2!=3", TokenType::EqualEqual, 1, 3, 3, TokenType::BangEqual, 4, 6, 6),
        ("1< 2>=3", TokenType::Less, 1, 2, 3, TokenType::GreaterEqual, 4, 6, 6),
        ("1> 2<=3", TokenType::Greater, 1, 2, 3, TokenType::LessEqual, 4, 6, 6),
        ("1+ 2- 3", TokenType::Plus, 1, 2, 3, TokenType::Minus, 4, 5, 6),
        ("1* 2/ 3", TokenType::Star, 1, 2, 3, TokenType::Slash, 4, 5, 6),
    ];
    for (source, first, first_start, first_end, middle, second, second_start, second_end, last) in
        cases
    {
        let (expr, diagnostics) = parse(source);
        assert!(diagnostics.is_empty());
        assert_eq!(
            expr,
            binary(
                binary(num(0, 1), tok(first, first_start, first_end), num(middle, middle + 1)),
                tok(second, second_start, second_end),
                num(last, last + 1),
            )
        );
    }
}

#[test]
fn tighter_operators_are_nearer_the_leaves() {
    let (expr, _) = parse("1+2*3");
    assert_eq!(
        expr,
        binary(
            num(0, 1),
            tok(TokenType::Plus, 1, 2),
            binary(num(2, 3), tok(TokenType::Star, 3, 4), num(4, 5)),
        )
    );
    let (expr, _) = parse("1*2+3");
    assert_eq!(
        expr,
        binary(
            binary(num(0, 1), tok(TokenType::Star, 1, 2), num(2, 3)),
            tok(TokenType::Plus, 3, 4),
            num(4, 5),
        )
    );
}

#[test]
fn all_levels_in_one_expression() {
    let (expr, diagnostics) = parse("1 == 2 < 3 + 4 * -5");
    assert!(diagnostics.is_empty());
    assert_eq!(
        expr,
        binary(
            num(0, 1),
            tok(TokenType::EqualEqual, 2, 4),
            binary(
                num(5, 6),
                tok(TokenType::Less, 7, 8),
                binary(
                    num(9, 10),
                    tok(TokenType::Plus, 11, 12),
                    binary(
                        num(13, 14),
                        tok(TokenType::Star, 15, 16),
                        unary(tok(TokenType::Minus, 17, 18), num(18, 19)),
                    ),
                ),
            ),
        )
    );
}

#[test]
fn looser_operator_after_tighter_takes_the_whole_left() {
    let (expr, _) = parse("1 * 2 == 3");
    assert_eq!(
        expr,
        binary(
            binary(num(0, 1), tok(TokenType::Star, 2, 3), num(4, 5)),
            tok(TokenType::EqualEqual, 6, 8),
            num(9, 10),
        )
    );
}

#[test]
fn prefix_operators_stack() {
    let (expr, diagnostics) = parse("!!true");
    assert!(diagnostics.is_empty());
    assert_eq!(
        expr,
        unary(tok(TokenType::Bang, 0, 1), unary(tok(TokenType::Bang, 1, 2), boolean(true)))
    );
    let (expr, _) = parse("--1");
    assert_eq!(
        expr,
        unary(tok(TokenType::Minus, 0, 1), unary(tok(TokenType::Minus, 1, 2), num(2, 3)))
    );
    let (expr, _) = parse("-!nil");
    assert_eq!(expr, unary(tok(TokenType::Minus, 0, 1), unary(tok(TokenType::Bang, 1, 2), nil())));
}

#[test]
fn minus_is_prefix_first_and_infix_after() {
    let (expr, _) = parse("-1-2");
    assert_eq!(
        expr,
        binary(
            unary(tok(TokenType::Minus, 0, 1), num(1, 2)),
            tok(TokenType::Minus, 2, 3),
            num(3, 4),
        )
    );
    let (expr, _) = parse("1--2");
    assert_eq!(
        expr,
        binary(
            num(0, 1),
            tok(TokenType::Minus, 1, 2),
            unary(tok(TokenType::Minus, 2, 3), num(3, 4)),
        )
    );
}

#[test]
fn literals() {
    assert_eq!(parse("true"), (boolean(true), vec![]));
    assert_eq!(parse("false"), (boolean(false), vec![]));
    assert_eq!(parse("nil"), (nil(), vec![]));
    assert_eq!(parse("12.5"), (num(0, 4), vec![]));
    assert_eq!(parse("\"abc\""), (text(1, 4), vec![]));
    assert_eq!(parse("  7"), (num(2, 3), vec![]));
}

#[test]
fn groups_start_anew() {
    let (expr, diagnostics) = parse("(1+2)*3");
    assert!(diagnostics.is_empty());
    assert_eq!(
        expr,
        binary(
            group(binary(num(1, 2), tok(TokenType::Plus, 2, 3), num(3, 4))),
            tok(TokenType::Star, 5, 6),
            num(6, 7),
        )
    );
    assert_eq!(parse("((nil))"), (group(group(nil())), vec![]));
}

#[test]
fn empty_stream_has_no_primary_expression() {
    let (expr, diagnostics) = parse("");
    assert_eq!(expr, Expr::Unknown);
    assert_eq!(diagnostics, vec![parser_error(1, ParserError::PrimaryExprExpected)]);
}

#[test]
fn error_with_nothing_taken_is_on_the_line_of_the_current_token() {
    let (expr, diagnostics) = parse("\n\n");
    assert_eq!(expr, Expr::Unknown);
    assert_eq!(diagnostics, vec![parser_error(3, ParserError::PrimaryExprExpected)]);
    let (expr, diagnostics) = parse("\n )");
    assert_eq!(expr, Expr::Unknown);
    assert_eq!(diagnostics, vec![parser_error(2, ParserError::PrimaryExprExpected)]);
}

#[test]
fn error_is_on_the_line_of_the_last_token_taken() {
    let (expr, diagnostics) = parse("1 +\n\n");
    assert_eq!(
        expr,
        binary(num(0, 1), tok(TokenType::Plus, 2, 3), Expr::Unknown)
    );
    assert_eq!(diagnostics, vec![parser_error(1, ParserError::PrimaryExprExpected)]);

    let (expr, diagnostics) = parse("\n(1\n\n");
    assert_eq!(expr, group(num(2, 3)));
    assert_eq!(diagnostics, vec![parser_error(2, ParserError::UnclosedParen)]);
}

#[test]
fn token_that_starts_no_expression_is_left_in_place() {
    for source in [")", "var", "x", ";", "}", ", 1", "= 2", ". 3"] {
        let mut parser = parser_for(source);
        let first = *parser.peek();
        let expr = parser.parse();
        assert_eq!(expr, Expr::Unknown);
        assert_eq!(
            parser.diagnostics(),
            &vec![parser_error(1, ParserError::PrimaryExprExpected)]
        );
        assert_eq!(*parser.peek(), first);
        assert_eq!(parser.previous(), None);
    }
}

#[test]
fn operator_without_left_operand_gets_a_placeholder() {
    let (expr, diagnostics) = parse("+");
    assert_eq!(expr, binary(Expr::Unknown, tok(TokenType::Plus, 0, 1), Expr::Unknown));
    assert_eq!(
        diagnostics,
        vec![
            parser_error(1, ParserError::PrimaryExprExpected),
            parser_error(1, ParserError::PrimaryExprExpected),
        ]
    );
    let (expr, diagnostics) = parse("\n==\n2");
    assert_eq!(
        expr,
        binary(Expr::Unknown, Token::new(TokenType::EqualEqual, 1, 3, 2), num(4, 5))
    );
    assert_eq!(diagnostics, vec![parser_error(2, ParserError::PrimaryExprExpected)]);
}

#[test]
fn errors_come_in_the_order_they_are_met() {
    let (expr, diagnostics) = parse("(");
    assert_eq!(expr, group(Expr::Unknown));
    assert_eq!(
        diagnostics,
        vec![
            parser_error(1, ParserError::PrimaryExprExpected),
            parser_error(1, ParserError::UnclosedParen),
        ]
    );
    let (expr, diagnostics) = parse("((1");
    assert_eq!(expr, group(group(num(2, 3))));
    assert_eq!(
        diagnostics,
        vec![
            parser_error(1, ParserError::UnclosedParen),
            parser_error(1, ParserError::UnclosedParen),
        ]
    );
}

#[test]
fn group_with_nothing_inside_keeps_its_right_paren() {
    let mut parser = parser_for("()");
    let expr = parser.parse();
    assert_eq!(expr, group(Expr::Unknown));
    assert_eq!(
        parser.diagnostics(),
        &vec![parser_error(1, ParserError::PrimaryExprExpected)]
    );
    assert!(parser.is_at_end());
}

#[test]
fn parsing_stops_after_one_expression() {
    let mut parser = parser_for("1 2");
    assert_eq!(parser.parse(), num(0, 1));
    assert!(parser.diagnostics().is_empty());
    assert_eq!(*parser.peek(), tok(TokenType::Number, 2, 3));
    assert_eq!(parser.parse(), num(2, 3));
    assert!(parser.is_at_end());
}

#[test]
fn parsing_ends_on_eof() {
    for source in ["1", "1+2", "(1)", "!true == false", "1 +", "(1"] {
        let mut parser = parser_for(source);
        parser.parse();
        assert!(parser.is_at_end());
        assert_eq!(parser.peek().token_type, TokenType::Eof);
    }
}

#[test]
fn each_rule_can_be_applied_alone() {
    assert_eq!(*parser_for("1==2").equality(), binary(num(0, 1), tok(TokenType::EqualEqual, 1, 3), num(3, 4)));
    assert_eq!(*parser_for("1==2").comparison(), num(0, 1));
    assert_eq!(*parser_for("1<2").comparison(), binary(num(0, 1), tok(TokenType::Less, 1, 2), num(2, 3)));
    assert_eq!(*parser_for("1<2").term(), num(0, 1));
    assert_eq!(*parser_for("1+2").term(), binary(num(0, 1), tok(TokenType::Plus, 1, 2), num(2, 3)));
    assert_eq!(*parser_for("1+2").factor(), num(0, 1));
    assert_eq!(*parser_for("1*2").factor(), binary(num(0, 1), tok(TokenType::Star, 1, 2), num(2, 3)));
    assert_eq!(*parser_for("1*2").unary(), num(0, 1));
    assert_eq!(*parser_for("-1").unary(), unary(tok(TokenType::Minus, 0, 1), num(1, 2)));
    assert_eq!(*parser_for("1").primary(), num(0, 1));
    assert_eq!(*parser_for("1+2").expression(), binary(num(0, 1), tok(TokenType::Plus, 1, 2), num(2, 3)));
}

#[test]
fn primary_takes_no_prefix_operator() {
    let mut parser = parser_for("-1");
    assert_eq!(*parser.primary(), Expr::Unknown);
    assert_eq!(
        parser.diagnostics(),
        &vec![parser_error(1, ParserError::PrimaryExprExpected)]
    );
    assert_eq!(*parser.peek(), tok(TokenType::Minus, 0, 1));
}

#[test]
fn peek_does_not_move() {
    let parser = parser_for("1+2");
    assert_eq!(*parser.peek(), tok(TokenType::Number, 0, 1));
    assert_eq!(*parser.peek(), tok(TokenType::Number, 0, 1));
    assert!(parser.diagnostics().is_empty());
}

#[test]
fn previous_is_the_last_token_taken() {
    let mut parser = parser_for("1+2");
    assert_eq!(parser.previous(), None);
    parser.advance();
    assert_eq!(parser.previous(), Some(tok(TokenType::Number, 0, 1)));
    parser.advance();
    assert_eq!(parser.previous(), Some(tok(TokenType::Plus, 1, 2)));
}

#[test]
fn advance_returns_what_it_took_and_stops_at_eof() {
    let mut parser = parser_for("1+2");
    assert_eq!(parser.advance(), Some(tok(TokenType::Number, 0, 1)));
    assert_eq!(parser.advance(), Some(tok(TokenType::Plus, 1, 2)));
    assert_eq!(parser.advance(), Some(tok(TokenType::Number, 2, 3)));
    assert!(parser.is_at_end());
    assert_eq!(parser.advance(), Some(tok(TokenType::Number, 2, 3)));
    assert_eq!(parser.advance(), Some(tok(TokenType::Number, 2, 3)));
    assert!(parser.is_at_end());
    assert_eq!(parser.peek().token_type, TokenType::Eof);
}

#[test]
fn advance_on_eof_alone_has_nothing_to_return() {
    let mut parser = parser_for("");
    assert!(parser.is_at_end());
    assert_eq!(parser.advance(), None);
    assert_eq!(parser.previous(), None);
    assert!(parser.is_at_end());
}

#[test]
fn check_compares_the_kind_and_never_holds_at_eof() {
    let mut parser = parser_for("1");
    assert!(parser.check(&TokenType::Number));
    assert!(!parser.check(&TokenType::Plus));
    assert!(!parser.check(&TokenType::Eof));
    parser.advance();
    assert!(parser.is_at_end());
    assert!(!parser.check(&TokenType::Eof));
    assert!(!parser.check(&TokenType::Number));
}

#[test]
fn match_token_takes_a_token_of_any_listed_kind() {
    let mut parser = parser_for("1+2");
    assert!(!parser.match_token(&[TokenType::Minus, TokenType::Plus]));
    assert_eq!(*parser.peek(), tok(TokenType::Number, 0, 1));
    assert!(!parser.match_token(&[]));
    assert!(parser.match_token(&[TokenType::Str, TokenType::Number]));
    assert_eq!(*parser.peek(), tok(TokenType::Plus, 1, 2));
    assert!(parser.match_token(&[TokenType::Plus, TokenType::Plus]));
    assert_eq!(*parser.peek(), tok(TokenType::Number, 2, 3));
    assert!(parser.match_token(&[TokenType::Number]));
    assert!(parser.is_at_end());
    assert!(!parser.match_token(&[TokenType::Eof]));
    assert!(parser.is_at_end());
    assert!(parser.diagnostics().is_empty());
}

#[test]
fn is_at_end_is_true_on_eof_only() {
    let mut parser = parser_for("1");
    assert!(!parser.is_at_end());
    parser.advance();
    assert!(parser.is_at_end());
}

#[test]
fn consume_takes_the_token_or_reports() {
    let mut parser = parser_for("(\n)");
    parser.consume(TokenType::LeftParen, ParserError::PrimaryExprExpected);
    assert!(parser.diagnostics().is_empty());
    assert_eq!(parser.peek().token_type, TokenType::RightParen);

    parser.consume(TokenType::LeftParen, ParserError::PrimaryExprExpected);
    assert_eq!(
        parser.diagnostics(),
        &vec![parser_error(1, ParserError::PrimaryExprExpected)]
    );
    assert_eq!(parser.peek().token_type, TokenType::RightParen);

    parser.consume(TokenType::RightParen, ParserError::UnclosedParen);
    assert_eq!(parser.diagnostics().len(), 1);
    assert!(parser.is_at_end());

    parser.consume(TokenType::Eof, ParserError::UnclosedParen);
    assert_eq!(
        parser.diagnostics(),
        &vec![
            parser_error(1, ParserError::PrimaryExprExpected),
            parser_error(2, ParserError::UnclosedParen),
        ]
    );
    assert!(parser.is_at_end());
}

#[test]
fn consume_with_nothing_taken_reports_on_the_current_line() {
    let mut parser = parser_for("\n1");
    parser.consume(TokenType::RightParen, ParserError::UnclosedParen);
    assert_eq!(parser.diagnostics(), &vec![parser_error(2, ParserError::UnclosedParen)]);
    assert_eq!(parser.previous(), None);
}

#[test]
fn stream_may_be_written_by_hand() {
    let tokens = vec![
        Token::new(TokenType::Number, 10, 12, 4),
        Token::new(TokenType::Slash, 13, 14, 4),
        Token::new(TokenType::Str, 16, 20, 5),
        Token::new(TokenType::Eof, 0, 0, 5),
    ];
    let mut parser = Parser::new(tokens);
    assert_eq!(
        parser.parse(),
        binary(num(10, 12), Token::new(TokenType::Slash, 13, 14, 4), text(16, 20))
    );
    assert!(parser.diagnostics().is_empty());
}

#[test]
fn parser_stops_at_the_first_eof() {
    let tokens = vec![
        Token::new(TokenType::Number, 0, 1, 1),
        Token::new(TokenType::Eof, 0, 0, 1),
        Token::new(TokenType::Plus, 1, 2, 1),
        Token::new(TokenType::Number, 2, 3, 1),
        Token::new(TokenType::Eof, 0, 0, 1),
    ];
    let mut parser = Parser::new(tokens);
    assert_eq!(parser.parse(), num(0, 1));
    assert!(parser.is_at_end());
    assert_eq!(parser.advance(), Some(Token::new(TokenType::Number, 0, 1, 1)));
    assert!(parser.is_at_end());
}

#[test]
fn tokens_outside_the_expression_grammar_end_the_expression() {
    let mut parser = parser_for("1 + 2 ; 3");
    assert_eq!(
        parser.parse(),
        binary(num(0, 1), tok(TokenType::Plus, 2, 3), num(4, 5))
    );
    assert_eq!(parser.peek().token_type, TokenType::Semicolon);
    assert!(parser.diagnostics().is_empty());
}
