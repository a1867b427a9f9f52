use rust_calc::evaluator::{Evaluator, EvaluatorError};
use rust_calc::int64::Int64;
use rust_calc::lexer::LexerError;
use rust_calc::numeric::{BuiltinFn, NumericValue};
use rust_calc::parser::ParserError;

/// Builtins for the integer backend: square root of perfect squares and a
/// doubling function.
struct TestBuiltins;

impl BuiltinFn<Int64> for TestBuiltins {
    fn call(&self, name: &str, arg: Int64) -> Option<Int64> {
        match name {
            "sqrt" => {
                if arg.value < 0 {
                    return None;
                }
                let mut r: i64 = 0;
                while r * r < arg.value {
                    r += 1;
                }
                Some(Int64::new(r))
            }
            "double" => Some(Int64::new(arg.value * 2)),
            _ => None,
        }
    }
}

fn eval(input: &str) -> Result<Option<Int64>, EvaluatorError<Int64>> {
    Evaluator::new(TestBuiltins).parse(input)
}

fn ok(v: i64) -> Result<Option<Int64>, EvaluatorError<Int64>> {
    Ok(Some(Int64::new(v)))
}

#[test]
fn number_evaluates_to_itself() {
    assert_eq!(eval("42;"), ok(42));
}

#[test]
fn parenthesized_expression() {
    assert_eq!(eval("(2 + 3) * 4;"), ok(20));
}

#[test]
fn precedence_in_evaluation() {
    assert_eq!(eval("2 + 3 * 4;"), ok(14));
}

#[test]
fn caret_evaluates_right_to_left() {
    assert_eq!(eval("2 ^ 3 ^ 2;"), ok(512));
}

#[test]
fn unary_signs() {
    assert_eq!(eval("-4 + +6;"), ok(2));
}

#[test]
fn division_truncates() {
    assert_eq!(eval("7 / 2;"), ok(3));
}

#[test]
fn assignment_then_use() {
    let mut evaluator = Evaluator::new(TestBuiltins);
    assert_eq!(evaluator.parse("x = 5; x + 1;"), ok(6));
    // The binding persists on the same instance for later inputs.
    assert_eq!(evaluator.parse("x;"), ok(5));
}

#[test]
fn assignment_produces_no_value() {
    assert_eq!(eval("x = 5;"), Ok(None));
}

#[test]
fn empty_statement_produces_no_value() {
    assert_eq!(eval(";"), Ok(None));
}

#[test]
fn last_statement_wins() {
    assert_eq!(eval("1; 2; 3;"), ok(3));
}

#[test]
fn undefined_variable() {
    assert_eq!(
        eval("y;"),
        Err(EvaluatorError::UndefinedVariable("y".to_string()))
    );
}

#[test]
fn builtin_call() {
    assert_eq!(eval("sqrt(4);"), ok(2));
}

#[test]
fn builtin_call_on_expression_argument() {
    assert_eq!(eval("sqrt(13 + 3) * double(3);"), ok(24));
}

#[test]
fn unknown_function() {
    assert_eq!(
        eval("foo(1);"),
        Err(EvaluatorError::UnknownFunction("foo".to_string()))
    );
}

#[test]
fn division_by_zero_fails() {
    assert_eq!(
        eval("1 / 0;"),
        Err(EvaluatorError::OperationFailed(
            "division by zero".to_string()
        ))
    );
}

#[test]
fn addition_overflow_fails() {
    assert_eq!(
        eval("9223372036854775807 + 1;"),
        Err(EvaluatorError::OperationFailed("overflow".to_string()))
    );
}

#[test]
fn negative_exponent_fails() {
    assert_eq!(
        eval("2 ^ (0 - 1);"),
        Err(EvaluatorError::OperationFailed(
            "negative exponent".to_string()
        ))
    );
}

#[test]
fn bindings_before_a_failure_stay() {
    let mut evaluator = Evaluator::new(TestBuiltins);
    let r = evaluator.parse("a = 7; 1 / 0; a = 9;");
    assert_eq!(
        r,
        Err(EvaluatorError::OperationFailed(
            "division by zero".to_string()
        ))
    );
    // The failing statement aborted the rest, but the first binding stays.
    assert_eq!(evaluator.parse("a;"), ok(7));
}

#[test]
fn empty_input_is_the_catch_all_error() {
    assert_eq!(eval(""), Err(EvaluatorError::UnexpectedError));
    assert_eq!(eval("   "), Err(EvaluatorError::UnexpectedError));
}

#[test]
fn parse_error_carries_through() {
    assert_eq!(
        eval("5.;"),
        Err(EvaluatorError::ParserError(ParserError::LexerError(
            LexerError::InvalidNumber("5.".to_string(), 2)
        )))
    );
}

#[test]
fn whole_numeral_with_zero_fraction() {
    assert_eq!(eval("5.0 + 1;"), ok(6));
}

#[test]
fn fractional_numeral_is_invalid_for_integers() {
    assert_eq!(
        eval("0.5;"),
        Err(EvaluatorError::ParserError(ParserError::LexerError(
            LexerError::InvalidNumber("0.5".to_string(), 3)
        )))
    );
}

#[test]
fn reevaluation_on_unchanged_environment_is_identical() {
    let mut evaluator = Evaluator::new(TestBuiltins);
    assert_eq!(evaluator.parse("v = 3;"), Ok(None));
    let first = evaluator.parse("v * v + 1;");
    let second = evaluator.parse("v * v + 1;");
    assert_eq!(first, ok(10));
    assert_eq!(first, second);
}

#[test]
fn whitespace_is_insignificant() {
    assert_eq!(eval("  1 +\n 2\t;"), ok(3));
}

#[test]
fn subtraction_overflow_on_negation() {
    // Negating the most negative value leaves the 64-bit range.
    assert_eq!(
        eval("0 - (0 - 9223372036854775807 - 1);"),
        Err(EvaluatorError::OperationFailed("overflow".to_string()))
    );
}

#[test]
fn backend_operations_directly() {
    assert_eq!(
        Int64::new(2).pow(Int64::new(10)),
        Ok(Int64::new(1024))
    );
    assert_eq!(Int64::new(5).neg(), Ok(Int64::new(-5)));
    assert_eq!(Int64::from_decimal("123"), Some(Int64::new(123)));
    assert_eq!(Int64::from_decimal("12.00"), Some(Int64::new(12)));
    assert_eq!(Int64::from_decimal("12.5"), None);
    assert_eq!(Int64::from_decimal(""), None);
    assert_eq!(Int64::from_decimal("99999999999999999999"), None);
    assert!(Int64::new(4).eq_value(&Int64::new(4)));
    assert!(!Int64::new(4).eq_value(&Int64::new(5)));
}
