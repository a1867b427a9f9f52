use vstd::prelude::*;

use crate::ast::{
    spec_unary_of, unary_from_operator, Expression, ExpressionView, Statement, StatementView,
};
use crate::lexer::{spec_lex, LexerError, LexerErrorView, Lexer, StreamView};
use crate::numeric::NumericValue;
use crate::token::{Associativity, Operator, Punctuation, Token, TokenView};

verus! {

/// A failure of the parser: a lexer error carried through, a token that fits
/// no grammar rule, or input that ends where a token is required.
#[derive(Debug, PartialEq)]
pub enum ParserError<N: NumericValue> {
    LexerError(LexerError),
    UnexpectedToken(Token<N>),
    UnexpectedEnd,
    InvalidAssignment,
}

/// The mathematical shape of a parser error.
pub enum ParserErrorView<N> {
    LexerError(LexerErrorView),
    UnexpectedToken(TokenView<N>),
    UnexpectedEnd,
    InvalidAssignment,
}

impl<N: NumericValue> View for ParserError<N> {
    type V = ParserErrorView<N>;

    open spec fn view(&self) -> ParserErrorView<N> {
        match self {
            ParserError::LexerError(e) => ParserErrorView::LexerError(e@),
            ParserError::UnexpectedToken(t) => ParserErrorView::UnexpectedToken(t@),
            ParserError::UnexpectedEnd => ParserErrorView::UnexpectedEnd,
            ParserError::InvalidAssignment => ParserErrorView::InvalidAssignment,
        }
    }
}

impl<N: NumericValue> vstd::std_specs::convert::FromSpecImpl<LexerError> for ParserError<N> {
    open spec fn obeys_from_spec() -> bool {
        true
    }

    open spec fn from_spec(e: LexerError) -> Self {
        ParserError::LexerError(e)
    }
}

impl<N: NumericValue> From<LexerError> for ParserError<N> {
    /// A lexer error wraps into a parser error.
    fn from(e: LexerError) -> Self {
        ParserError::LexerError(e)
    }
}

/// Consuming the first token of a stream: the token and the rest, or the
/// error that stands where a token was required.
pub open spec fn spec_advance<N: NumericValue>(st: StreamView<N>) -> Result<
    (TokenView<N>, StreamView<N>),
    ParserErrorView<N>,
> {
    if st.toks.len() > 0 {
        Ok((st.toks[0], st.tail()))
    } else {
        match st.err {
            Some(e) => Err(ParserErrorView::LexerError(e)),
            None => Err(ParserErrorView::UnexpectedEnd),
        }
    }
}

/// Consuming one token that must be the punctuation `p`.
pub open spec fn spec_expect<N: NumericValue>(st: StreamView<N>, p: Punctuation) -> Result<
    StreamView<N>,
    ParserErrorView<N>,
> {
    match spec_advance(st) {
        Err(e) => Err(e),
        Ok((t, st1)) => if t == TokenView::<N>::Punctuation(p) {
            Ok(st1)
        } else {
            Err(ParserErrorView::UnexpectedToken(t))
        },
    }
}

/// The precedence floor for the right operand of `op`: one above the
/// operator's own priority when it groups to the left, the priority itself
/// when it groups to the right.
pub open spec fn spec_next_min_prec(op: Operator) -> u8 {
    if op.spec_associativity() == Associativity::Left {
        (op.spec_priority() + 1) as u8
    } else {
        op.spec_priority()
    }
}

/// The grammar's recursion only ever continues on a stream no longer than
/// the one it entered with; bounding the continuation stream by the entry
/// stream makes the definitions below well-founded on stream length alone,
/// and the bound is invisible on every actual parse.
pub open spec fn clamp_stream<N>(st: StreamView<N>, bound: StreamView<N>) -> StreamView<N> {
    if st.toks.len() <= bound.toks.len() {
        st
    } else {
        bound
    }
}

/// Parsing one primary expression whose first, already consumed, token is
/// `first`: a number, a variable, a call of one parenthesized argument, a
/// parenthesized expression, or a sign in front of a primary.
pub open spec fn spec_parse_primary<N: NumericValue>(
    first: TokenView<N>,
    st: StreamView<N>,
) -> Result<(ExpressionView<N>, StreamView<N>), ParserErrorView<N>>
    decreases st.toks.len(), 0nat,
{
    match first {
        TokenView::Number(n) => Ok((ExpressionView::Number(n), st)),
        TokenView::Identifier(name) => {
            if st.toks.len() == 0 {
                match st.err {
                    Some(e) => Err(ParserErrorView::LexerError(e)),
                    None => Ok((ExpressionView::Variable(name), st)),
                }
            } else if st.toks[0] == TokenView::<N>::Punctuation(Punctuation::LeftParenthesis) {
                match spec_parse_primary(st.toks[0], st.tail()) {
                    Ok((arg, st2)) => Ok((ExpressionView::Call(name, Box::new(arg)), st2)),
                    Err(e) => Err(e),
                }
            } else {
                Ok((ExpressionView::Variable(name), st))
            }
        },
        TokenView::Punctuation(Punctuation::LeftParenthesis) => match spec_advance(st) {
            Err(e) => Err(e),
            Ok((t, st1)) => match spec_parse_expression(t, 0, st1) {
                Err(e) => Err(e),
                Ok((e1, st2)) => match spec_expect(st2, Punctuation::RightParenthesis) {
                    Err(e) => Err(e),
                    Ok(st3) => Ok((e1, st3)),
                },
            },
        },
        TokenView::Operator(op) => {
            if op == Operator::Plus || op == Operator::Minus {
                match spec_advance(st) {
                    Err(e) => Err(e),
                    Ok((t, st1)) => match spec_parse_primary(t, st1) {
                        Ok((operand, st2)) => Ok(
                            (ExpressionView::Unary(spec_unary_of(op), Box::new(operand)), st2),
                        ),
                        Err(e) => Err(e),
                    },
                }
            } else {
                Err(ParserErrorView::UnexpectedToken(first))
            }
        },
        _ => Err(ParserErrorView::UnexpectedToken(first)),
    }
}

/// Precedence climbing from an already consumed first token: a primary
/// expression, then operators folded in as long as their priority reaches
/// the floor `min_prec`.
pub open spec fn spec_parse_expression<N: NumericValue>(
    first: TokenView<N>,
    min_prec: u8,
    st: StreamView<N>,
) -> Result<(ExpressionView<N>, StreamView<N>), ParserErrorView<N>>
    decreases st.toks.len(), 2nat,
{
    match spec_parse_primary(first, st) {
        Err(e) => Err(e),
        Ok((e1, st1)) => spec_parse_expr_more(e1, min_prec, clamp_stream(st1, st)),
    }
}

/// The operator-folding loop of precedence climbing: with `acc` built so
/// far, fold in the next operator when its priority reaches `min_prec`,
/// stopping short of a semicolon, a closing parenthesis, the end of input,
/// or an operator below the floor.
pub open spec fn spec_parse_expr_more<N: NumericValue>(
    acc: ExpressionView<N>,
    min_prec: u8,
    st: StreamView<N>,
) -> Result<(ExpressionView<N>, StreamView<N>), ParserErrorView<N>>
    decreases st.toks.len(), 1nat,
{
    if st.toks.len() == 0 {
        match st.err {
            Some(e) => Err(ParserErrorView::LexerError(e)),
            None => Ok((acc, st)),
        }
    } else {
        match st.toks[0] {
            TokenView::Operator(op) => {
                if op.spec_priority() < min_prec {
                    Ok((acc, st))
                } else {
                    match spec_advance(st.tail()) {
                        Err(e) => Err(e),
                        Ok((t, st2)) => match spec_parse_expression(
                            t,
                            spec_next_min_prec(op),
                            st2,
                        ) {
                            Err(e) => Err(e),
                            Ok((rhs, st3)) => spec_parse_expr_more(
                                ExpressionView::Binary(Box::new(acc), op, Box::new(rhs)),
                                min_prec,
                                clamp_stream(st3, st2),
                            ),
                        },
                    }
                }
            },
            TokenView::Punctuation(Punctuation::Semicolon) => Ok((acc, st)),
            TokenView::Punctuation(Punctuation::RightParenthesis) => Ok((acc, st)),
            t => Err(ParserErrorView::UnexpectedToken(t)),
        }
    }
}

/// Parsing an assignment statement after its variable name: the `=`, then
/// the right-hand expression at minimum precedence zero.
pub open spec fn spec_parse_assignment<N: NumericValue>(
    name: Seq<char>,
    st: StreamView<N>,
) -> Result<(StatementView<N>, StreamView<N>), ParserErrorView<N>> {
    match spec_expect(st, Punctuation::Assignment) {
        Err(e) => Err(e),
        Ok(st1) => match spec_advance(st1) {
            Err(e) => Err(e),
            Ok((first, st2)) => match spec_parse_expression(first, 0, st2) {
                Ok((e1, st3)) => Ok((StatementView::Assignment(name, e1), st3)),
                Err(e) => Err(e),
            },
        },
    }
}

/// Parsing one statement: an identifier followed by `=` starts an
/// assignment, a bare semicolon is the empty statement, anything else is an
/// expression statement.
pub open spec fn spec_parse_statement<N: NumericValue>(st: StreamView<N>) -> Result<
    (StatementView<N>, StreamView<N>),
    ParserErrorView<N>,
> {
    match spec_advance(st) {
        Err(e) => Err(e),
        Ok((t, st1)) => match t {
            TokenView::Identifier(name) => {
                if st1.toks.len() == 0 && st1.err is Some {
                    match st1.err {
                        Some(e) => Err(ParserErrorView::LexerError(e)),
                        None => Err(ParserErrorView::UnexpectedEnd),
                    }
                } else if st1.toks.len() > 0 && st1.toks[0] == TokenView::<N>::Punctuation(
                    Punctuation::Assignment,
                ) {
                    spec_parse_assignment(name, st1)
                } else {
                    match spec_parse_expression(t, 0, st1) {
                        Ok((e1, st2)) => Ok((StatementView::Expression(e1), st2)),
                        Err(e) => Err(e),
                    }
                }
            },
            TokenView::Punctuation(Punctuation::Semicolon) => Ok((StatementView::Empty, st1)),
            _ => match spec_parse_expression(t, 0, st1) {
                Ok((e1, st2)) => Ok((StatementView::Expression(e1), st2)),
                Err(e) => Err(e),
            },
        },
    }
}

/// Parsing a whole program: statements while tokens remain, each non-empty
/// statement followed by a semicolon, collected in order.
pub open spec fn spec_parse_program<N: NumericValue>(st: StreamView<N>) -> Result<
    Seq<StatementView<N>>,
    ParserErrorView<N>,
>
    decreases st.toks.len(),
{
    if st.toks.len() == 0 {
        match st.err {
            Some(e) => Err(ParserErrorView::LexerError(e)),
            None => Ok(Seq::empty()),
        }
    } else {
        match spec_parse_statement(st) {
            Err(e) => Err(e),
            Ok((stmt, st1)) => {
                let after = if stmt is Empty {
                    Ok(st1)
                } else {
                    spec_expect(st1, Punctuation::Semicolon)
                };
                match after {
                    Err(e) => Err(e),
                    Ok(st2) => {
                        let st2c = if st2.toks.len() < st.toks.len() {
                            st2
                        } else {
                            st.tail()
                        };
                        match spec_parse_program(st2c) {
                            Err(e) => Err(e),
                            Ok(rest) => Ok(seq![stmt] + rest),
                        }
                    },
                }
            },
        }
    }
}

/// The shapes of a sequence of statements, element by element.
pub open spec fn statements_view<N: NumericValue>(s: Seq<Statement<N>>) -> Seq<StatementView<N>> {
    s.map_values(|st: Statement<N>| st@)
}

/// What the next token is, without consuming it.
#[derive(Clone, Copy, Debug, PartialEq, Eq, Structural)]
enum PeekKind {
    Num,
    Ident,
    Op(Operator),
    Punct(Punctuation),
    End,
}

/// The kind of a token.
spec fn spec_kind_of<N: NumericValue>(t: TokenView<N>) -> PeekKind {
    match t {
        TokenView::Number(_) => PeekKind::Num,
        TokenView::Identifier(_) => PeekKind::Ident,
        TokenView::Operator(op) => PeekKind::Op(op),
        TokenView::Punctuation(p) => PeekKind::Punct(p),
        TokenView::Eof => PeekKind::End,
    }
}

/// The recursive-descent parser: one token of lookahead over the lazy
/// tokenizer.
pub struct Parser<'a, N: NumericValue> {
    lexer: Lexer<'a, N>,
    peeked: Option<Result<Token<N>, LexerError>>,
}

impl<'a, N: NumericValue> Parser<'a, N> {
    /// The lookahead slot agrees with the scanner behind it: after a peeked
    /// end or error the scanner has nothing further to say.
    pub closed spec fn wf(self) -> bool {
        &&& self.lexer.wf()
        &&& match self.peeked {
            None => true,
            Some(Ok(t)) => (t@ is Eof) ==> self.lexer.remaining() == (StreamView::<N> {
                toks: Seq::empty(),
                err: None,
            }),
            Some(Err(e)) => self.lexer.remaining() == (StreamView::<N> {
                toks: Seq::empty(),
                err: Some(e@),
            }),
        }
    }

    /// The stream of tokens the parser has not consumed yet.
    pub closed spec fn stream(self) -> StreamView<N> {
        match self.peeked {
            None => self.lexer.remaining(),
            Some(Ok(t)) => if t@ is Eof {
                StreamView { toks: Seq::empty(), err: None }
            } else {
                StreamView {
                    toks: seq![t@] + self.lexer.remaining().toks,
                    err: self.lexer.remaining().err,
                }
            },
            Some(Err(e)) => StreamView { toks: Seq::empty(), err: Some(e@) },
        }
    }

    pub fn new(input: &'a str) -> (r: Self)
        ensures
            r.wf(),
            r.stream() == spec_lex::<N>(input@),
    {
        Parser { lexer: Lexer::new(input), peeked: None }
    }

    /// Pull one token into the lookahead slot if it is empty.
    fn fill_peek(&mut self)
        requires
            old(self).wf(),
        ensures
            final(self).wf(),
            final(self).peeked is Some,
            final(self).stream() == old(self).stream(),
    {
        if self.peeked.is_none() {
            let r = self.lexer.next_token();
            self.peeked = Some(r);
        }
    }

    /// What the next token is, without consuming it; a lexer error ahead is
    /// reported but stays ahead.
    fn peek_kind(&mut self) -> (r: Result<PeekKind, ParserError<N>>)
        requires
            old(self).wf(),
        ensures
            final(self).wf(),
            final(self).stream() == old(self).stream(),
            ({
                let st = old(self).stream();
                match r {
                    Ok(k) => {
                        &&& (st.toks.len() == 0 ==> st.err is None && k == PeekKind::End)
                        &&& (st.toks.len() > 0 ==> k == spec_kind_of(st.toks[0]))
                    },
                    Err(e) => {
                        &&& st.toks.len() == 0
                        &&& match st.err {
                            Some(le) => e@ == ParserErrorView::<N>::LexerError(le),
                            None => false,
                        }
                    },
                }
            }),
    {
        self.fill_peek();
        match &self.peeked {
            Some(Ok(t)) => match t {
                Token::Number(_) => Ok(PeekKind::Num),
                Token::Identifier(_) => Ok(PeekKind::Ident),
                Token::Operator(op) => Ok(PeekKind::Op(*op)),
                Token::Punctuation(p) => Ok(PeekKind::Punct(*p)),
                Token::Eof => Ok(PeekKind::End),
            },
            Some(Err(e)) => Err(ParserError::LexerError(e.clone())),
            None => Err(ParserError::UnexpectedEnd),
        }
    }

    /// Consume and return the next token; the end of input or a lexer error
    /// ahead becomes a parser error.
    fn advance(&mut self) -> (r: Result<Token<N>, ParserError<N>>)
        requires
            old(self).wf(),
        ensures
            final(self).wf(),
            match spec_advance::<N>(old(self).stream()) {
                Ok((t, st1)) => {
                    &&& r is Ok
                    &&& (match r {
                        Ok(tok) => tok@ == t,
                        Err(_) => false,
                    })
                    &&& final(self).stream() == st1
                },
                Err(e) => {
                    &&& r is Err
                    &&& (match r {
                        Err(pe) => pe@ == e,
                        Ok(_) => false,
                    })
                },
            },
    {
        self.fill_peek();
        let p = self.peeked.take();
        match p {
            Some(Ok(t)) => match t {
                Token::Eof => {
                    self.peeked = Some(Ok(Token::Eof));
                    Err(ParserError::UnexpectedEnd)
                },
                _ => {
                    proof {
                        assert(old(self).stream().toks =~= seq![t@]
                            + self.lexer.remaining().toks);
                        assert(old(self).stream().tail().toks =~= self.lexer.remaining().toks);
                    }
                    Ok(t)
                },
            },
            Some(Err(e)) => Err(ParserError::LexerError(e)),
            None => Err(ParserError::UnexpectedEnd),
        }
    }

    /// Consume one token that must be the punctuation `p`.
    fn expect_punct(&mut self, p: Punctuation) -> (r: Result<(), ParserError<N>>)
        requires
            old(self).wf(),
        ensures
            final(self).wf(),
            match spec_expect::<N>(old(self).stream(), p) {
                Ok(st1) => {
                    &&& r is Ok
                    &&& final(self).stream() == st1
                    &&& st1.toks.len() < old(self).stream().toks.len()
                },
                Err(e) => {
                    &&& r is Err
                    &&& (match r {
                        Err(pe) => pe@ == e,
                        Ok(_) => false,
                    })
                },
            },
    {
        match self.advance() {
            Err(e) => Err(e),
            Ok(t) => match t {
                Token::Punctuation(q) => if q == p {
                    Ok(())
                } else {
                    Err(ParserError::UnexpectedToken(Token::Punctuation(q)))
                },
                other => Err(ParserError::UnexpectedToken(other)),
            },
        }
    }

    /// Parse one primary expression whose first token, already consumed, is
    /// `first`.
    fn parse_primary(&mut self, first: Token<N>) -> (r: Result<Expression<N>, ParserError<N>>)
        requires
            old(self).wf(),
        ensures
            final(self).wf(),
            match spec_parse_primary::<N>(first@, old(self).stream()) {
                Ok((ev, st1)) => {
                    &&& r is Ok
                    &&& (match r {
                        Ok(e) => e@ == ev,
                        Err(_) => false,
                    })
                    &&& final(self).stream() == st1
                    &&& st1.toks.len() <= old(self).stream().toks.len()
                },
                Err(pe) => {
                    &&& r is Err
                    &&& (match r {
                        Err(e2) => e2@ == pe,
                        Ok(_) => false,
                    })
                },
            },
        decreases self.stream().toks.len(), 0nat,
    {
        match first {
            Token::Number(n) => Ok(Expression::Number(n)),
            Token::Identifier(name) => {
                match self.peek_kind() {
                    Err(e) => Err(e),
                    Ok(PeekKind::Punct(Punctuation::LeftParenthesis)) => {
                        match self.advance() {
                            Err(e) => Err(e),
                            Ok(lparen) => match self.parse_primary(lparen) {
                                Ok(arg) => Ok(Expression::Call(name, Box::new(arg))),
                                Err(e) => Err(e),
                            },
                        }
                    },
                    Ok(_) => Ok(Expression::Variable(name)),
                }
            },
            Token::Punctuation(Punctuation::LeftParenthesis) => {
                match self.advance() {
                    Err(e) => Err(e),
                    Ok(t) => match self.parse_expression(t, 0) {
                        Err(e) => Err(e),
                        Ok(e1) => match self.expect_punct(Punctuation::RightParenthesis) {
                            Err(e) => Err(e),
                            Ok(()) => Ok(e1),
                        },
                    },
                }
            },
            Token::Operator(op) => {
                if op == Operator::Plus || op == Operator::Minus {
                    match self.advance() {
                        Err(e) => Err(e),
                        Ok(t) => match self.parse_primary(t) {
                            Ok(operand) => Ok(
                                Expression::Unary(unary_from_operator(op), Box::new(operand)),
                            ),
                            Err(e) => Err(e),
                        },
                    }
                } else {
                    Err(ParserError::UnexpectedToken(Token::Operator(op)))
                }
            },
            _ => Err(ParserError::UnexpectedToken(first)),
        }
    }

    /// Parse an expression by precedence climbing, starting from the already
    /// consumed token `first`, folding in operators whose priority reaches
    /// `min_precedence`.
    #[verifier::loop_isolation(false)]
    fn parse_expression(&mut self, first: Token<N>, min_precedence: u8) -> (r: Result<
        Expression<N>,
        ParserError<N>,
    >)
        requires
            old(self).wf(),
        ensures
            final(self).wf(),
            match spec_parse_expression::<N>(first@, min_precedence, old(self).stream()) {
                Ok((ev, st1)) => {
                    &&& r is Ok
                    &&& (match r {
                        Ok(e) => e@ == ev,
                        Err(_) => false,
                    })
                    &&& final(self).stream() == st1
                    &&& st1.toks.len() <= old(self).stream().toks.len()
                },
                Err(pe) => {
                    &&& r is Err
                    &&& (match r {
                        Err(e2) => e2@ == pe,
                        Ok(_) => false,
                    })
                },
            },
        decreases self.stream().toks.len(), 2nat,
    {
        let ghost st0 = self.stream();
        let mut acc = match self.parse_primary(first) {
            Ok(e) => e,
            Err(e) => {
                return Err(e);
            },
        };
        loop
            invariant
                self.wf(),
                self.stream().toks.len() <= st0.toks.len(),
                spec_parse_expression::<N>(first@, min_precedence, st0) == spec_parse_expr_more::<
                    N,
                >(acc@, min_precedence, self.stream()),
            decreases self.stream().toks.len(),
        {
            match self.peek_kind() {
                Err(e) => {
                    return Err(e);
                },
                Ok(PeekKind::Op(op)) => {
                    if op.priority() < min_precedence {
                        return Ok(acc);
                    }
                    match self.advance() {
                        Ok(_) => (),
                        Err(e) => {
                            return Err(e);
                        },
                    }
                    let t = match self.advance() {
                        Ok(t) => t,
                        Err(e) => {
                            return Err(e);
                        },
                    };
                    let next_min = if op.associativity() == Associativity::Left {
                        op.priority() + 1
                    } else {
                        op.priority()
                    };
                    let rhs = match self.parse_expression(t, next_min) {
                        Ok(e) => e,
                        Err(e) => {
                            return Err(e);
                        },
                    };
                    acc = Expression::Binary(Box::new(acc), op, Box::new(rhs));
                },
                Ok(PeekKind::Punct(Punctuation::Semicolon)) => {
                    return Ok(acc);
                },
                Ok(PeekKind::Punct(Punctuation::RightParenthesis)) => {
                    return Ok(acc);
                },
                Ok(PeekKind::End) => {
                    return Ok(acc);
                },
                Ok(_) => {
                    match self.advance() {
                        Ok(t) => {
                            return Err(ParserError::UnexpectedToken(t));
                        },
                        Err(e) => {
                            return Err(e);
                        },
                    }
                },
            }
        }
    }

    /// Parse an assignment statement after its variable name.
    fn parse_assignment(&mut self, var_name: String) -> (r: Result<Statement<N>, ParserError<N>>)
        requires
            old(self).wf(),
        ensures
            final(self).wf(),
            match spec_parse_assignment::<N>(var_name@, old(self).stream()) {
                Ok((sv, st1)) => {
                    &&& r is Ok
                    &&& (match r {
                        Ok(s) => s@ == sv,
                        Err(_) => false,
                    })
                    &&& final(self).stream() == st1
                    &&& st1.toks.len() < old(self).stream().toks.len()
                },
                Err(pe) => {
                    &&& r is Err
                    &&& (match r {
                        Err(e2) => e2@ == pe,
                        Ok(_) => false,
                    })
                },
            },
    {
        match self.expect_punct(Punctuation::Assignment) {
            Err(e) => Err(e),
            Ok(()) => match self.advance() {
                Err(e) => Err(e),
                Ok(first) => match self.parse_expression(first, 0) {
                    Ok(e1) => Ok(Statement::Assignment(var_name, e1)),
                    Err(e) => Err(e),
                },
            },
        }
    }

    /// Parse one statement.
    fn parse_statement(&mut self) -> (r: Result<Statement<N>, ParserError<N>>)
        requires
            old(self).wf(),
        ensures
            final(self).wf(),
            match spec_parse_statement::<N>(old(self).stream()) {
                Ok((sv, st1)) => {
                    &&& r is Ok
                    &&& (match r {
                        Ok(s) => s@ == sv,
                        Err(_) => false,
                    })
                    &&& final(self).stream() == st1
                    &&& st1.toks.len() < old(self).stream().toks.len()
                },
                Err(pe) => {
                    &&& r is Err
                    &&& (match r {
                        Err(e2) => e2@ == pe,
                        Ok(_) => false,
                    })
                },
            },
    {
        match self.advance() {
            Err(e) => Err(e),
            Ok(t) => match t {
                Token::Identifier(name) => {
                    match self.peek_kind() {
                        Err(e) => Err(e),
                        Ok(PeekKind::Punct(Punctuation::Assignment)) => {
                            self.parse_assignment(name)
                        },
                        Ok(_) => match self.parse_expression(Token::Identifier(name), 0) {
                            Ok(e1) => Ok(Statement::Expression(e1)),
                            Err(e) => Err(e),
                        },
                    }
                },
                Token::Punctuation(Punctuation::Semicolon) => Ok(Statement::Empty),
                other => match self.parse_expression(other, 0) {
                    Ok(e1) => Ok(Statement::Expression(e1)),
                    Err(e) => Err(e),
                },
            },
        }
    }

    /// Parse the whole input into its ordered sequence of statements.
    #[verifier::loop_isolation(false)]
    pub fn parse_program(&mut self) -> (r: Result<Vec<Statement<N>>, ParserError<N>>)
        requires
            old(self).wf(),
        ensures
            final(self).wf(),
            match spec_parse_program::<N>(old(self).stream()) {
                Ok(stmts) => {
                    &&& r is Ok
                    &&& (match r {
                        Ok(v) => statements_view(v@) == stmts,
                        Err(_) => false,
                    })
                },
                Err(pe) => {
                    &&& r is Err
                    &&& (match r {
                        Err(e2) => e2@ == pe,
                        Ok(_) => false,
                    })
                },
            },
    {
        let ghost st0 = self.stream();
        let mut statements: Vec<Statement<N>> = Vec::new();
        proof {
            assert(statements_view::<N>(statements@) =~= Seq::<StatementView<N>>::empty());
        }
        loop
            invariant
                self.wf(),
                match spec_parse_program::<N>(self.stream()) {
                    Ok(rest) => spec_parse_program::<N>(st0) == Ok::<_, ParserErrorView<N>>(
                        statements_view(statements@) + rest,
                    ),
                    Err(e) => spec_parse_program::<N>(st0) == Err::<Seq<StatementView<N>>, _>(e),
                },
            decreases self.stream().toks.len(),
        {
            let ghost st_iter = self.stream();
            match self.peek_kind() {
                Err(e) => {
                    return Err(e);
                },
                Ok(PeekKind::End) => {
                    proof {
                        assert(statements_view(statements@) + Seq::<StatementView<N>>::empty()
                            =~= statements_view(statements@));
                    }
                    return Ok(statements);
                },
                Ok(_) => {
                    let stmt = match self.parse_statement() {
                        Ok(s) => s,
                        Err(e) => {
                            return Err(e);
                        },
                    };
                    let is_empty = match &stmt {
                        Statement::Empty => true,
                        _ => false,
                    };
                    if !is_empty {
                        match self.expect_punct(Punctuation::Semicolon) {
                            Ok(()) => (),
                            Err(e) => {
                                return Err(e);
                            },
                        }
                    }
                    proof {
                        assert(statements_view(statements@.push(stmt)) =~= statements_view(
                            statements@,
                        ).push(stmt@));
                        if spec_parse_program::<N>(self.stream()) is Ok {
                            let rest = spec_parse_program::<N>(self.stream()) ->Ok_0;
                            assert(statements_view(statements@) + (seq![stmt@] + rest)
                                =~= statements_view(statements@).push(stmt@) + rest);
                        }
                    }
                    statements.push(stmt);
                },
            }
        }
    }
}

} // verus!
