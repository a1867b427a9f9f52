use vstd::prelude::*;

use crate::numeric::{arith_matches, NumericValue};
use crate::token::Operator;

verus! {

/// A leading sign in front of a primary expression.
#[derive(Debug, Clone, Copy, PartialEq, Eq, Structural)]
pub enum UnaryOp {
    Negative,
    Positive,
}

impl UnaryOp {
    /// What `apply` returns: the operand itself for `+`, its negation
    /// (which the backend may refuse) for `-`.
    pub open spec fn spec_apply<N: NumericValue>(self, a: N) -> Result<N, Seq<char>> {
        match self {
            UnaryOp::Positive => Ok(a),
            UnaryOp::Negative => a.spec_neg(),
        }
    }

    /// Apply the sign to a value.
    pub fn apply<N: NumericValue>(&self, a: N) -> (r: Result<N, String>)
        ensures
            arith_matches(r, self.spec_apply(a)),
    {
        match self {
            UnaryOp::Positive => Ok(a),
            UnaryOp::Negative => a.neg(),
        }
    }
}

/// The sign denoted by a leading `+` or `-` operator; any other operator
/// denotes no sign.
pub open spec fn spec_unary_of(op: Operator) -> UnaryOp {
    if op == Operator::Minus {
        UnaryOp::Negative
    } else {
        UnaryOp::Positive
    }
}

pub fn unary_from_operator(op: Operator) -> (r: UnaryOp)
    ensures
        r == spec_unary_of(op),
{
    match op {
        Operator::Minus => UnaryOp::Negative,
        _ => UnaryOp::Positive,
    }
}

/// An expression tree: each node exclusively owns its children.
#[derive(Debug, PartialEq)]
pub enum Expression<N: NumericValue> {
    Number(N),
    Variable(String),
    Unary(UnaryOp, Box<Expression<N>>),
    Binary(Box<Expression<N>>, Operator, Box<Expression<N>>),
    Call(String, Box<Expression<N>>),
}

/// The mathematical shape of an expression tree.
pub enum ExpressionView<N> {
    Number(N),
    Variable(Seq<char>),
    Unary(UnaryOp, Box<ExpressionView<N>>),
    Binary(Box<ExpressionView<N>>, Operator, Box<ExpressionView<N>>),
    Call(Seq<char>, Box<ExpressionView<N>>),
}

/// The shape of an expression, node by node.
pub open spec fn expression_view<N: NumericValue>(e: Expression<N>) -> ExpressionView<N>
    decreases e,
{
    match e {
        Expression::Number(n) => ExpressionView::Number(n),
        Expression::Variable(x) => ExpressionView::Variable(x@),
        Expression::Unary(op, inner) => ExpressionView::Unary(
            op,
            Box::new(expression_view(*inner)),
        ),
        Expression::Binary(lhs, op, rhs) => ExpressionView::Binary(
            Box::new(expression_view(*lhs)),
            op,
            Box::new(expression_view(*rhs)),
        ),
        Expression::Call(f, arg) => ExpressionView::Call(f@, Box::new(expression_view(*arg))),
    }
}

impl<N: NumericValue> View for Expression<N> {
    type V = ExpressionView<N>;

    open spec fn view(&self) -> ExpressionView<N> {
        expression_view(*self)
    }
}

/// One statement of a program.
#[derive(Debug, PartialEq)]
pub enum Statement<N: NumericValue> {
    /// Bind the value of the expression to the variable name.
    Assignment(String, Expression<N>),
    /// Evaluate the expression for its value.
    Expression(Expression<N>),
    /// A bare semicolon.
    Empty,
}

/// The mathematical shape of a statement.
pub enum StatementView<N> {
    Assignment(Seq<char>, ExpressionView<N>),
    Expression(ExpressionView<N>),
    Empty,
}

impl<N: NumericValue> View for Statement<N> {
    type V = StatementView<N>;

    open spec fn view(&self) -> StatementView<N> {
        match self {
            Statement::Assignment(x, e) => StatementView::Assignment(x@, expression_view(*e)),
            Statement::Expression(e) => StatementView::Expression(expression_view(*e)),
            Statement::Empty => StatementView::Empty,
        }
    }
}

} // verus!
