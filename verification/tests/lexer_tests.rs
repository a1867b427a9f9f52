use rust_calc::lexer::{Lexer, LexerError};
use rust_calc::numeric::NumericValue;
use rust_calc::token::{Operator, Punctuation, Token};

/// A floating-point backend for exercising the generic pipeline from the
/// outside, the way an embedding program would.
#[derive(Clone, Copy, Debug, PartialEq)]
struct F64(f64);

impl NumericValue for F64 {
    fn add(self, rhs: Self) -> Result<Self, String> {
        Ok(F64(self.0 + rhs.0))
    }

    fn sub(self, rhs: Self) -> Result<Self, String> {
        Ok(F64(self.0 - rhs.0))
    }

    fn mul(self, rhs: Self) -> Result<Self, String> {
        Ok(F64(self.0 * rhs.0))
    }

    fn div(self, rhs: Self) -> Result<Self, String> {
        Ok(F64(self.0 / rhs.0))
    }

    fn pow(self, rhs: Self) -> Result<Self, String> {
        Ok(F64(self.0.powf(rhs.0)))
    }

    fn neg(self) -> Result<Self, String> {
        Ok(F64(-self.0))
    }

    fn from_decimal(s: &str) -> Option<Self> {
        s.parse::<f64>().ok().map(F64)
    }

    fn eq_value(&self, rhs: &Self) -> bool {
        self.0 == rhs.0
    }

    fn duplicate(&self) -> Self {
        *self
    }
}

/// All tokens up to the end of input or the first error, the way a
/// consumer drains the lazy sequence.
fn collect_tokens(input: &str) -> Vec<Result<Token<F64>, LexerError>> {
    let mut lexer = Lexer::<F64>::new(input);
    let mut out = Vec::new();
    loop {
        match lexer.next_token() {
            Ok(Token::Eof) => return out,
            Ok(t) => out.push(Ok(t)),
            Err(e) => {
                out.push(Err(e));
                return out;
            }
        }
    }
}

#[test]
fn numbers() {
    assert_eq!(
        collect_tokens("42 6.954 0.001"),
        vec![
            Ok(Token::Number(F64(42.0))),
            Ok(Token::Number(F64(6.954))),
            Ok(Token::Number(F64(0.001))),
        ]
    );
}

#[test]
fn operators() {
    assert_eq!(
        collect_tokens("+ - * /"),
        vec![
            Ok(Token::Operator(Operator::Plus)),
            Ok(Token::Operator(Operator::Minus)),
            Ok(Token::Operator(Operator::Star)),
            Ok(Token::Operator(Operator::Slash)),
        ]
    );
}

#[test]
fn caret_operator() {
    assert_eq!(
        collect_tokens("^"),
        vec![Ok(Token::Operator(Operator::Caret))]
    );
}

#[test]
fn punctuation() {
    assert_eq!(
        collect_tokens("( );  ="),
        vec![
            Ok(Token::Punctuation(Punctuation::LeftParenthesis)),
            Ok(Token::Punctuation(Punctuation::RightParenthesis)),
            Ok(Token::Punctuation(Punctuation::Semicolon)),
            Ok(Token::Punctuation(Punctuation::Assignment)),
        ]
    );
}

#[test]
fn identifiers() {
    assert_eq!(
        collect_tokens("x y1 variable_name"),
        vec![
            Ok(Token::Identifier("x".to_string())),
            Ok(Token::Identifier("y1".to_string())),
            Ok(Token::Identifier("variable_name".to_string())),
        ]
    );
}

#[test]
fn mixed_expression() {
    assert_eq!(
        collect_tokens("x = 3 + 4.5 * (y - 2);"),
        vec![
            Ok(Token::Identifier("x".to_string())),
            Ok(Token::Punctuation(Punctuation::Assignment)),
            Ok(Token::Number(F64(3.0))),
            Ok(Token::Operator(Operator::Plus)),
            Ok(Token::Number(F64(4.5))),
            Ok(Token::Operator(Operator::Star)),
            Ok(Token::Punctuation(Punctuation::LeftParenthesis)),
            Ok(Token::Identifier("y".to_string())),
            Ok(Token::Operator(Operator::Minus)),
            Ok(Token::Number(F64(2.0))),
            Ok(Token::Punctuation(Punctuation::RightParenthesis)),
            Ok(Token::Punctuation(Punctuation::Semicolon)),
        ]
    );
}

#[test]
fn invalid_character() {
    assert_eq!(
        collect_tokens("42 &"),
        vec![
            Ok(Token::Number(F64(42.0))),
            Err(LexerError::UnexpectedChar('&', 3)),
        ]
    );
}

#[test]
fn invalid_number_trailing_dot() {
    assert_eq!(
        collect_tokens("5."),
        vec![Err(LexerError::InvalidNumber("5.".to_string(), 2))]
    );
}

#[test]
fn dot_without_leading_digit_is_unexpected() {
    assert_eq!(
        collect_tokens(".5"),
        vec![Err(LexerError::UnexpectedChar('.', 0))]
    );
}

#[test]
fn offsets_count_bytes_not_characters() {
    // A two-byte no-break space precedes the offending character.
    assert_eq!(
        collect_tokens("\u{A0}&"),
        vec![Err(LexerError::UnexpectedChar('&', 2))]
    );
}

#[test]
fn unicode_whitespace_is_skipped() {
    assert_eq!(
        collect_tokens("\u{2003}7\u{3000}+\t8\r\n"),
        vec![
            Ok(Token::Number(F64(7.0))),
            Ok(Token::Operator(Operator::Plus)),
            Ok(Token::Number(F64(8.0))),
        ]
    );
}

#[test]
fn non_ascii_letter_starts_no_token() {
    assert_eq!(
        collect_tokens("\u{3C0}"),
        vec![Err(LexerError::UnexpectedChar('\u{3C0}', 0))]
    );
}

#[test]
fn underscore_cannot_start_an_identifier() {
    assert_eq!(
        collect_tokens("_x"),
        vec![Err(LexerError::UnexpectedChar('_', 0))]
    );
}

#[test]
fn error_is_sticky() {
    let mut lexer = Lexer::<F64>::new("&");
    assert_eq!(lexer.next_token(), Err(LexerError::UnexpectedChar('&', 0)));
    assert_eq!(lexer.next_token(), Err(LexerError::UnexpectedChar('&', 0)));
}
