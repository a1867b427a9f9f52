use vstd::prelude::*;

use crate::numeric::{arith_matches, NumericValue};

verus! {

/// Whether a binary operator groups to the left or to the right.
#[derive(Clone, Copy, Debug, PartialEq, Eq, Structural)]
pub enum Associativity {
    Left,
    Right,
}

/// The binary operator symbols of the language.
#[derive(Clone, Copy, Debug, PartialEq, Eq, Structural)]
pub enum Operator {
    Plus,
    Minus,
    Star,
    Slash,
    Caret,
}

impl Operator {
    /// The operator denoted by `c`, if any.
    pub open spec fn spec_of_char(c: char) -> Option<Operator> {
        if c == '+' {
            Some(Operator::Plus)
        } else if c == '-' {
            Some(Operator::Minus)
        } else if c == '*' {
            Some(Operator::Star)
        } else if c == '/' {
            Some(Operator::Slash)
        } else if c == '^' {
            Some(Operator::Caret)
        } else {
            None
        }
    }

    pub fn get(c: char) -> (r: Option<Operator>)
        ensures
            r == Operator::spec_of_char(c),
    {
        match c {
            '+' => Some(Operator::Plus),
            '-' => Some(Operator::Minus),
            '*' => Some(Operator::Star),
            '/' => Some(Operator::Slash),
            '^' => Some(Operator::Caret),
            _ => None,
        }
    }

    /// The precedence rank: `+`/`-` lowest, then `*`/`/`, then `^`.
    pub open spec fn spec_priority(self) -> u8 {
        match self {
            Operator::Plus => 1,
            Operator::Minus => 1,
            Operator::Star => 2,
            Operator::Slash => 2,
            Operator::Caret => 3,
        }
    }

    pub fn priority(&self) -> (r: u8)
        ensures
            r == self.spec_priority(),
    {
        match self {
            Operator::Plus => 1,
            Operator::Minus => 1,
            Operator::Star => 2,
            Operator::Slash => 2,
            Operator::Caret => 3,
        }
    }

    /// Every operator groups to the left except `^`, which groups to the right.
    pub open spec fn spec_associativity(self) -> Associativity {
        match self {
            Operator::Caret => Associativity::Right,
            _ => Associativity::Left,
        }
    }

    pub fn associativity(&self) -> (r: Associativity)
        ensures
            r == self.spec_associativity(),
    {
        match self {
            Operator::Caret => Associativity::Right,
            _ => Associativity::Left,
        }
    }

    /// What `apply` returns: the backend's arithmetic for this operator.
    pub open spec fn spec_apply<N: NumericValue>(self, a: N, b: N) -> Result<N, Seq<char>> {
        match self {
            Operator::Plus => a.spec_add(b),
            Operator::Minus => a.spec_sub(b),
            Operator::Star => a.spec_mul(b),
            Operator::Slash => a.spec_div(b),
            Operator::Caret => a.spec_pow(b),
        }
    }

    /// Apply the operator's arithmetic to two values.
    pub fn apply<N: NumericValue>(&self, a: N, b: N) -> (r: Result<N, String>)
        ensures
            arith_matches(r, self.spec_apply(a, b)),
    {
        match self {
            Operator::Plus => a.add(b),
            Operator::Minus => a.sub(b),
            Operator::Star => a.mul(b),
            Operator::Slash => a.div(b),
            Operator::Caret => a.pow(b),
        }
    }
}

/// The punctuation symbols of the language.
#[derive(Clone, Copy, Debug, PartialEq, Eq, Structural)]
pub enum Punctuation {
    LeftParenthesis,
    RightParenthesis,
    Semicolon,
    Assignment,
}

impl Punctuation {
    /// The punctuation denoted by `c`, if any.
    pub open spec fn spec_of_char(c: char) -> Option<Punctuation> {
        if c == '(' {
            Some(Punctuation::LeftParenthesis)
        } else if c == ')' {
            Some(Punctuation::RightParenthesis)
        } else if c == ';' {
            Some(Punctuation::Semicolon)
        } else if c == '=' {
            Some(Punctuation::Assignment)
        } else {
            None
        }
    }

    pub fn get(c: char) -> (r: Option<Punctuation>)
        ensures
            r == Punctuation::spec_of_char(c),
    {
        match c {
            '(' => Some(Punctuation::LeftParenthesis),
            ')' => Some(Punctuation::RightParenthesis),
            ';' => Some(Punctuation::Semicolon),
            '=' => Some(Punctuation::Assignment),
            _ => None,
        }
    }
}

/// One lexical token, generic over the numeric backend.
#[derive(Debug, PartialEq)]
pub enum Token<N: NumericValue> {
    Number(N),
    Identifier(String),
    Operator(Operator),
    Punctuation(Punctuation),
    Eof,
}

/// The mathematical shape of a token: identifier text as a character
/// sequence, everything else as itself.
pub enum TokenView<N> {
    Number(N),
    Identifier(Seq<char>),
    Operator(Operator),
    Punctuation(Punctuation),
    Eof,
}

impl<N: NumericValue> View for Token<N> {
    type V = TokenView<N>;

    open spec fn view(&self) -> TokenView<N> {
        match self {
            Token::Number(n) => TokenView::Number(*n),
            Token::Identifier(s) => TokenView::Identifier(s@),
            Token::Operator(op) => TokenView::Operator(*op),
            Token::Punctuation(p) => TokenView::Punctuation(*p),
            Token::Eof => TokenView::Eof,
        }
    }
}

} // verus!
