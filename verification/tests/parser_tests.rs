use rust_calc::ast::{Expression, Statement, UnaryOp};
use rust_calc::int64::Int64;
use rust_calc::lexer::LexerError;
use rust_calc::parser::{Parser, ParserError};
use rust_calc::token::{Operator, Punctuation, Token};

fn num(v: i64) -> Expression<Int64> {
    Expression::Number(Int64::new(v))
}

fn parse(input: &str) -> Vec<Statement<Int64>> {
    Parser::<Int64>::new(input).parse_program().unwrap()
}

#[test]
fn number_literal() {
    assert_eq!(parse("4;"), vec![Statement::Expression(num(4))]);
}

#[test]
fn variable_expression() {
    assert_eq!(
        parse("x;"),
        vec![Statement::Expression(Expression::Variable("x".to_string()))]
    );
}

#[test]
fn unary_negative() {
    assert_eq!(
        parse("-4;"),
        vec![Statement::Expression(Expression::Unary(
            UnaryOp::Negative,
            Box::new(num(4))
        ))]
    );
}

#[test]
fn unary_positive() {
    assert_eq!(
        parse("+5;"),
        vec![Statement::Expression(Expression::Unary(
            UnaryOp::Positive,
            Box::new(num(5))
        ))]
    );
}

#[test]
fn binary_addition() {
    assert_eq!(
        parse("2 + 3;"),
        vec![Statement::Expression(Expression::Binary(
            Box::new(num(2)),
            Operator::Plus,
            Box::new(num(3))
        ))]
    );
}

#[test]
fn binary_multiplication() {
    assert_eq!(
        parse("4 * 5;"),
        vec![Statement::Expression(Expression::Binary(
            Box::new(num(4)),
            Operator::Star,
            Box::new(num(5))
        ))]
    );
}

#[test]
fn precedence_test() {
    assert_eq!(
        parse("2 + 3 * 4;"),
        vec![Statement::Expression(Expression::Binary(
            Box::new(num(2)),
            Operator::Plus,
            Box::new(Expression::Binary(
                Box::new(num(3)),
                Operator::Star,
                Box::new(num(4))
            ))
        ))]
    );
}

#[test]
fn caret_right_associativity() {
    assert_eq!(
        parse("2 ^ 3 ^ 2;"),
        vec![Statement::Expression(Expression::Binary(
            Box::new(num(2)),
            Operator::Caret,
            Box::new(Expression::Binary(
                Box::new(num(3)),
                Operator::Caret,
                Box::new(num(2))
            ))
        ))]
    );
}

#[test]
fn left_associative_same_priority() {
    assert_eq!(
        parse("8 - 4 - 2;"),
        vec![Statement::Expression(Expression::Binary(
            Box::new(Expression::Binary(
                Box::new(num(8)),
                Operator::Minus,
                Box::new(num(4))
            )),
            Operator::Minus,
            Box::new(num(2))
        ))]
    );
}

#[test]
fn parenthesis_test() {
    assert_eq!(
        parse("(2 + 3) * 4;"),
        vec![Statement::Expression(Expression::Binary(
            Box::new(Expression::Binary(
                Box::new(num(2)),
                Operator::Plus,
                Box::new(num(3))
            )),
            Operator::Star,
            Box::new(num(4))
        ))]
    );
}

#[test]
fn assignment_statement() {
    assert_eq!(
        parse("x = 42;"),
        vec![Statement::Assignment("x".to_string(), num(42))]
    );
}

#[test]
fn chained_add_sub() {
    assert_eq!(
        parse("1 + 2 - 3;"),
        vec![Statement::Expression(Expression::Binary(
            Box::new(Expression::Binary(
                Box::new(num(1)),
                Operator::Plus,
                Box::new(num(2))
            )),
            Operator::Minus,
            Box::new(num(3))
        ))]
    );
}

#[test]
fn function_call_simple() {
    assert_eq!(
        parse("square(2);"),
        vec![Statement::Expression(Expression::Call(
            "square".to_string(),
            Box::new(num(2))
        ))]
    );
}

#[test]
fn nested_function_call() {
    assert_eq!(
        parse("f(g(1));"),
        vec![Statement::Expression(Expression::Call(
            "f".to_string(),
            Box::new(Expression::Call("g".to_string(), Box::new(num(1))))
        ))]
    );
}

#[test]
fn empty_statement() {
    assert_eq!(parse(";"), vec![Statement::Empty]);
}

#[test]
fn multiple_statements() {
    assert_eq!(
        parse("x = 1; y = x + 2;"),
        vec![
            Statement::Assignment("x".to_string(), num(1)),
            Statement::Assignment(
                "y".to_string(),
                Expression::Binary(
                    Box::new(Expression::Variable("x".to_string())),
                    Operator::Plus,
                    Box::new(num(2))
                )
            ),
        ]
    );
}

#[test]
fn function_call_with_expression() {
    assert_eq!(
        parse("sqrt(2 + 3);"),
        vec![Statement::Expression(Expression::Call(
            "sqrt".to_string(),
            Box::new(Expression::Binary(
                Box::new(num(2)),
                Operator::Plus,
                Box::new(num(3))
            ))
        ))]
    );
}

#[test]
fn statement_without_semicolon_is_rejected() {
    let r = Parser::<Int64>::new("1 + 2").parse_program();
    assert_eq!(r, Err(ParserError::UnexpectedEnd));
}

#[test]
fn unbalanced_parenthesis_is_rejected() {
    let r = Parser::<Int64>::new("(1 + 2;").parse_program();
    assert_eq!(
        r,
        Err(ParserError::UnexpectedToken(Token::Punctuation(
            Punctuation::Semicolon
        )))
    );
}

#[test]
fn lexer_error_carries_through() {
    let r = Parser::<Int64>::new("1 + &;").parse_program();
    assert_eq!(
        r,
        Err(ParserError::LexerError(LexerError::UnexpectedChar('&', 4)))
    );
}

#[test]
fn call_parses_across_whitespace() {
    assert_eq!(
        parse("f (2);"),
        vec![Statement::Expression(Expression::Call(
            "f".to_string(),
            Box::new(num(2))
        ))]
    );
}

#[test]
fn assignment_needs_an_expression() {
    let r = Parser::<Int64>::new("x = ;").parse_program();
    assert_eq!(
        r,
        Err(ParserError::UnexpectedToken(Token::Punctuation(
            Punctuation::Semicolon
        )))
    );
}

#[test]
fn operator_needs_a_right_operand() {
    let r = Parser::<Int64>::new("1 + ;").parse_program();
    assert_eq!(
        r,
        Err(ParserError::UnexpectedToken(Token::Punctuation(
            Punctuation::Semicolon
        )))
    );
}

#[test]
fn empty_input_parses_to_no_statements() {
    assert_eq!(parse(""), Vec::<Statement<Int64>>::new());
}
