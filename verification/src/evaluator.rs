use vstd::prelude::*;

use vstd::pervasive::VecAdditionalExecFns;

use crate::ast::{Expression, ExpressionView, Statement, StatementView};
use crate::lexer::spec_lex;
use crate::numeric::{BuiltinFn, NumericValue};
use crate::parser::{spec_parse_program, Parser, ParserError, ParserErrorView, statements_view};

verus! {

/// A failure of evaluation: a parser error carried through, or a failure of
/// one evaluation step.
#[derive(Debug, PartialEq)]
pub enum EvaluatorError<N: NumericValue> {
    ParserError(ParserError<N>),
    /// The defensive catch-all: an input that held no statement at all.
    UnexpectedError,
    /// The backend refused an arithmetic operation; carries its message.
    OperationFailed(String),
    /// A variable read before any assignment to it.
    UndefinedVariable(String),
    /// A call of a name the builtin capability does not provide.
    UnknownFunction(String),
    /// An assignment the evaluator cannot perform.
    InvalidAssignment(String),
}

/// The mathematical shape of an evaluator error.
pub enum EvaluatorErrorView<N> {
    ParserError(ParserErrorView<N>),
    UnexpectedError,
    OperationFailed(Seq<char>),
    UndefinedVariable(Seq<char>),
    UnknownFunction(Seq<char>),
    InvalidAssignment(Seq<char>),
}

impl<N: NumericValue> View for EvaluatorError<N> {
    type V = EvaluatorErrorView<N>;

    open spec fn view(&self) -> EvaluatorErrorView<N> {
        match self {
            EvaluatorError::ParserError(e) => EvaluatorErrorView::ParserError(e@),
            EvaluatorError::UnexpectedError => EvaluatorErrorView::UnexpectedError,
            EvaluatorError::OperationFailed(m) => EvaluatorErrorView::OperationFailed(m@),
            EvaluatorError::UndefinedVariable(x) => EvaluatorErrorView::UndefinedVariable(x@),
            EvaluatorError::UnknownFunction(f) => EvaluatorErrorView::UnknownFunction(f@),
            EvaluatorError::InvalidAssignment(x) => EvaluatorErrorView::InvalidAssignment(x@),
        }
    }
}

/// Relates an executable evaluation result to its specification-level
/// counterpart.
pub open spec fn eval_result_matches<N: NumericValue>(
    r: Result<N, EvaluatorError<N>>,
    s: Result<N, EvaluatorErrorView<N>>,
) -> bool {
    match (r, s) {
        (Ok(a), Ok(b)) => a == b,
        (Err(e), Err(f)) => e@ == f,
        _ => false,
    }
}

/// Relates an executable statement result (which may carry no value) to its
/// specification-level counterpart.
pub open spec fn eval_opt_matches<N: NumericValue>(
    r: Result<Option<N>, EvaluatorError<N>>,
    s: Result<Option<N>, EvaluatorErrorView<N>>,
) -> bool {
    match (r, s) {
        (Ok(a), Ok(b)) => a == b,
        (Err(e), Err(f)) => e@ == f,
        _ => false,
    }
}

/// No two entries of the environment's association list share a name.
pub open spec fn env_keys_unique<N>(s: Seq<(String, N)>) -> bool {
    forall|i: int, j: int| 0 <= i < j < s.len() ==> (#[trigger] s[i]).0@ != (#[trigger] s[j]).0@
}

/// The mapping an association list denotes.
pub open spec fn env_map<N>(s: Seq<(String, N)>) -> Map<Seq<char>, N>
    decreases s.len(),
{
    if s.len() == 0 {
        Map::empty()
    } else {
        env_map(s.drop_last()).insert(s.last().0@, s.last().1)
    }
}

proof fn lemma_env_map_contains<N>(s: Seq<(String, N)>, k: Seq<char>)
    ensures
        env_map(s).contains_key(k) <==> (exists|i: int|
            0 <= i < s.len() && (#[trigger] s[i]).0@ == k),
    decreases s.len(),
{
    if s.len() > 0 {
        let t = s.drop_last();
        lemma_env_map_contains(t, k);
        if s.last().0@ == k {
            assert(s[s.len() - 1].0@ == k);
        } else {
            if env_map(s).contains_key(k) {
                let i = choose|i: int| 0 <= i < t.len() && (#[trigger] t[i]).0@ == k;
                assert(s[i].0@ == k);
            }
            if exists|i: int| 0 <= i < s.len() && (#[trigger] s[i]).0@ == k {
                let i = choose|i: int| 0 <= i < s.len() && (#[trigger] s[i]).0@ == k;
                assert(t[i].0@ == k);
            }
        }
    }
}

proof fn lemma_env_map_get<N>(s: Seq<(String, N)>, i: int)
    requires
        env_keys_unique(s),
        0 <= i < s.len(),
    ensures
        env_map(s).contains_key(s[i].0@),
        env_map(s)[s[i].0@] == s[i].1,
    decreases s.len(),
{
    let t = s.drop_last();
    if i < s.len() - 1 {
        assert(env_keys_unique(t)) by {
            assert(forall|a: int, b: int|
                0 <= a < b < t.len() ==> (#[trigger] t[a]).0@ != (#[trigger] t[b]).0@) by {
                assert(forall|a: int| 0 <= a < t.len() ==> t[a] == s[a]);
            }
        }
        lemma_env_map_get(t, i);
        assert(s.last().0@ != s[i].0@);
    }
}

proof fn lemma_env_map_update<N>(s: Seq<(String, N)>, i: int, x: (String, N))
    requires
        env_keys_unique(s),
        0 <= i < s.len(),
        x.0@ == s[i].0@,
    ensures
        env_map(s.update(i, x)) == env_map(s).insert(x.0@, x.1),
    decreases s.len(),
{
    let t = s.drop_last();
    let u = s.update(i, x);
    if i == s.len() - 1 {
        assert(u.drop_last() =~= t);
        assert(u.last() == x);
        assert(env_map(t).insert(s.last().0@, s.last().1).insert(x.0@, x.1) =~= env_map(
            t,
        ).insert(x.0@, x.1));
    } else {
        assert(env_keys_unique(t)) by {
            assert(forall|a: int| 0 <= a < t.len() ==> t[a] == s[a]);
        }
        lemma_env_map_update(t, i, x);
        assert(u.drop_last() =~= t.update(i, x));
        assert(u.last() == s.last());
        assert(s.last().0@ != x.0@);
        assert(env_map(t).insert(x.0@, x.1).insert(s.last().0@, s.last().1) =~= env_map(
            t,
        ).insert(s.last().0@, s.last().1).insert(x.0@, x.1));
    }
}

/// Look a name up in the association list.
fn env_get<N: NumericValue>(entries: &Vec<(String, N)>, name: &String) -> (r: Option<N>)
    requires
        env_keys_unique(entries@),
    ensures
        match r {
            Some(v) => env_map(entries@).contains_key(name@) && v == env_map(entries@)[name@],
            None => !env_map(entries@).contains_key(name@),
        },
{
    let n = entries.len();
    let mut i: usize = 0;
    while i < n
        invariant
            n == entries@.len(),
            i <= n,
            env_keys_unique(entries@),
            forall|j: int| 0 <= j < i ==> (#[trigger] entries@[j]).0@ != name@,
        decreases n - i,
    {
        if entries[i].0 == *name {
            proof {
                lemma_env_map_get(entries@, i as int);
            }
            return Some(entries[i].1.duplicate());
        }
        i = i + 1;
    }
    proof {
        lemma_env_map_contains(entries@, name@);
    }
    None
}

/// Bind a name in the association list, overwriting any prior binding.
fn env_set<N: NumericValue>(entries: &mut Vec<(String, N)>, name: String, value: N)
    requires
        env_keys_unique(old(entries)@),
    ensures
        env_keys_unique(final(entries)@),
        env_map(final(entries)@) == env_map(old(entries)@).insert(name@, value),
{
    let n = entries.len();
    let mut i: usize = 0;
    while i < n
        invariant
            entries == old(entries),
            n == entries@.len(),
            i <= n,
            env_keys_unique(entries@),
            forall|j: int| 0 <= j < i ==> (#[trigger] entries@[j]).0@ != name@,
        decreases n - i,
    {
        if entries[i].0 == *(&name) {
            proof {
                lemma_env_map_update(entries@, i as int, (name, value));
            }
            let ghost s0 = entries@;
            entries.set(i, (name, value));
            proof {
                assert(entries@ =~= s0.update(i as int, (name, value)));
                assert(env_keys_unique(entries@)) by {
                    assert(forall|a: int|
                        0 <= a < s0.len() && a != i ==> entries@[a] == s0[a]);
                }
            }
            return ;
        }
        i = i + 1;
    }
    let ghost s0 = entries@;
    entries.push((name, value));
    proof {
        assert(entries@.drop_last() =~= s0);
        assert(env_keys_unique(entries@)) by {
            lemma_env_map_contains(s0, name@);
            assert(forall|a: int| 0 <= a < s0.len() ==> entries@[a] == s0[a]);
        }
    }
}

/// The value of an expression under an environment and a builtin
/// capability, or the first error of its evaluation.
pub open spec fn spec_eval_expression<N: NumericValue, F: BuiltinFn<N>>(
    e: ExpressionView<N>,
    env: Map<Seq<char>, N>,
    builtins: F,
) -> Result<N, EvaluatorErrorView<N>>
    decreases e,
{
    match e {
        ExpressionView::Number(n) => Ok(n),
        ExpressionView::Variable(x) => if env.contains_key(x) {
            Ok(env[x])
        } else {
            Err(EvaluatorErrorView::UndefinedVariable(x))
        },
        ExpressionView::Unary(op, inner) => match spec_eval_expression(*inner, env, builtins) {
            Ok(v) => match op.spec_apply(v) {
                Ok(w) => Ok(w),
                Err(m) => Err(EvaluatorErrorView::OperationFailed(m)),
            },
            Err(er) => Err(er),
        },
        ExpressionView::Binary(lhs, op, rhs) => match spec_eval_expression(*lhs, env, builtins) {
            Err(er) => Err(er),
            Ok(a) => match spec_eval_expression(*rhs, env, builtins) {
                Err(er) => Err(er),
                Ok(b) => match op.spec_apply(a, b) {
                    Ok(w) => Ok(w),
                    Err(m) => Err(EvaluatorErrorView::OperationFailed(m)),
                },
            },
        },
        ExpressionView::Call(f, arg) => match spec_eval_expression(*arg, env, builtins) {
            Err(er) => Err(er),
            Ok(v) => match builtins.spec_call(f, v) {
                Some(w) => Ok(w),
                None => Err(EvaluatorErrorView::UnknownFunction(f)),
            },
        },
    }
}

/// One statement's effect: the environment afterwards, and the produced
/// value (assignments and empty statements produce none) or the error.
pub open spec fn spec_eval_statement<N: NumericValue, F: BuiltinFn<N>>(
    st: StatementView<N>,
    env: Map<Seq<char>, N>,
    builtins: F,
) -> (Map<Seq<char>, N>, Result<Option<N>, EvaluatorErrorView<N>>) {
    match st {
        StatementView::Assignment(x, e) => match spec_eval_expression(e, env, builtins) {
            Ok(v) => (env.insert(x, v), Ok(None)),
            Err(er) => (env, Err(er)),
        },
        StatementView::Expression(e) => match spec_eval_expression(e, env, builtins) {
            Ok(v) => (env, Ok(Some(v))),
            Err(er) => (env, Err(er)),
        },
        StatementView::Empty => (env, Ok(None)),
    }
}

/// A statement sequence evaluated in order: the first failure aborts the
/// rest but keeps the side effects made before it; otherwise the value of
/// the last statement is produced.  An empty sequence is the defensive
/// catch-all error.
pub open spec fn spec_eval_program<N: NumericValue, F: BuiltinFn<N>>(
    stmts: Seq<StatementView<N>>,
    env: Map<Seq<char>, N>,
    builtins: F,
) -> (Map<Seq<char>, N>, Result<Option<N>, EvaluatorErrorView<N>>)
    decreases stmts.len(),
{
    if stmts.len() == 0 {
        (env, Err(EvaluatorErrorView::UnexpectedError))
    } else {
        let (env1, r1) = spec_eval_statement(stmts[0], env, builtins);
        match r1 {
            Err(er) => (env1, Err(er)),
            Ok(v) => if stmts.len() == 1 {
                (env1, Ok(v))
            } else {
                spec_eval_program(stmts.skip(1), env1, builtins)
            },
        }
    }
}

/// The whole pipeline on one input: tokenize and parse, then evaluate the
/// statements; a parse error leaves the environment untouched.
pub open spec fn spec_run<N: NumericValue, F: BuiltinFn<N>>(
    s: Seq<char>,
    env: Map<Seq<char>, N>,
    builtins: F,
) -> (Map<Seq<char>, N>, Result<Option<N>, EvaluatorErrorView<N>>) {
    match spec_parse_program::<N>(spec_lex::<N>(s)) {
        Err(pe) => (env, Err(EvaluatorErrorView::ParserError(pe))),
        Ok(stmts) => spec_eval_program(stmts, env, builtins),
    }
}

/// Re-evaluating the same input against an unchanged environment yields the
/// same result both times: evaluation is a function of the input text, the
/// environment, and the builtin capability, with no hidden state.
pub proof fn lemma_reevaluation_deterministic<N: NumericValue, F: BuiltinFn<N>>(
    s: Seq<char>,
    env: Map<Seq<char>, N>,
    builtins: F,
)
    ensures
        ({
            let (env1, r1) = spec_run::<N, F>(s, env, builtins);
            env1 == env ==> spec_run::<N, F>(s, env1, builtins) == spec_run::<N, F>(
                s,
                env,
                builtins,
            )
        }),
{
}

/// The tree-walking evaluator: a mutable variable environment and the
/// injected builtin capability, persisting across inputs.
pub struct Evaluator<N: NumericValue, F: BuiltinFn<N>> {
    env: Vec<(String, N)>,
    builtins: F,
}

impl<N: NumericValue, F: BuiltinFn<N>> Evaluator<N, F> {
    /// The variable bindings.
    pub closed spec fn environment(self) -> Map<Seq<char>, N> {
        env_map(self.env@)
    }

    /// The injected builtin capability.
    pub closed spec fn spec_builtins(self) -> F {
        self.builtins
    }

    pub closed spec fn wf(self) -> bool {
        env_keys_unique(self.env@)
    }

    /// A fresh evaluator with an empty environment.
    pub fn new(builtins: F) -> (r: Self)
        ensures
            r.wf(),
            r.environment() == Map::<Seq<char>, N>::empty(),
            r.spec_builtins() == builtins,
    {
        Evaluator { env: Vec::new(), builtins }
    }

    /// The value of `expression` under the current environment.
    pub fn eval_expression(&self, expression: &Expression<N>) -> (r: Result<N, EvaluatorError<N>>)
        requires
            self.wf(),
        ensures
            eval_result_matches(
                r,
                spec_eval_expression(expression@, self.environment(), self.spec_builtins()),
            ),
        decreases expression,
    {
        match expression {
            Expression::Number(n) => Ok(n.duplicate()),
            Expression::Variable(x) => match env_get(&self.env, x) {
                Some(v) => Ok(v),
                None => Err(EvaluatorError::UndefinedVariable(x.clone())),
            },
            Expression::Unary(op, inner) => match self.eval_expression(&**inner) {
                Ok(v) => match op.apply(v) {
                    Ok(w) => Ok(w),
                    Err(m) => Err(EvaluatorError::OperationFailed(m)),
                },
                Err(er) => Err(er),
            },
            Expression::Binary(lhs, op, rhs) => match self.eval_expression(&**lhs) {
                Err(er) => Err(er),
                Ok(a) => match self.eval_expression(&**rhs) {
                    Err(er) => Err(er),
                    Ok(b) => match op.apply(a, b) {
                        Ok(w) => Ok(w),
                        Err(m) => Err(EvaluatorError::OperationFailed(m)),
                    },
                },
            },
            Expression::Call(f, arg) => match self.eval_expression(&**arg) {
                Err(er) => Err(er),
                Ok(v) => match self.builtins.call(f.as_str(), v) {
                    Some(w) => Ok(w),
                    None => Err(EvaluatorError::UnknownFunction(f.clone())),
                },
            },
        }
    }

    /// Evaluate one statement, binding a variable when it is an assignment.
    pub fn eval_statement(&mut self, statement: &Statement<N>) -> (r: Result<
        Option<N>,
        EvaluatorError<N>,
    >)
        requires
            old(self).wf(),
        ensures
            final(self).wf(),
            final(self).spec_builtins() == old(self).spec_builtins(),
            ({
                let (env2, res) = spec_eval_statement::<N, F>(
                    statement@,
                    old(self).environment(),
                    old(self).spec_builtins(),
                );
                final(self).environment() == env2 && eval_opt_matches(r, res)
            }),
    {
        match statement {
            Statement::Assignment(name, e) => match self.eval_expression(e) {
                Ok(v) => {
                    env_set(&mut self.env, name.clone(), v);
                    Ok(None)
                },
                Err(er) => Err(er),
            },
            Statement::Expression(e) => match self.eval_expression(e) {
                Ok(v) => Ok(Some(v)),
                Err(er) => Err(er),
            },
            Statement::Empty => Ok(None),
        }
    }

    /// Tokenize, parse and evaluate one input, which may hold several
    /// semicolon-separated statements: the value of the last statement is
    /// returned, the first failing statement aborts the rest, and bindings
    /// made before a failure stay in effect.
    #[verifier::loop_isolation(false)]
    pub fn parse(&mut self, input: &str) -> (r: Result<Option<N>, EvaluatorError<N>>)
        requires
            old(self).wf(),
        ensures
            final(self).wf(),
            final(self).spec_builtins() == old(self).spec_builtins(),
            ({
                let (env2, res) = spec_run::<N, F>(
                    input@,
                    old(self).environment(),
                    old(self).spec_builtins(),
                );
                final(self).environment() == env2 && eval_opt_matches(r, res)
            }),
    {
        let mut parser = Parser::<N>::new(input);
        let statements = match parser.parse_program() {
            Ok(v) => v,
            Err(e) => {
                return Err(EvaluatorError::ParserError(e));
            },
        };
        let ghost stmts = statements_view(statements@);
        let ghost env0 = self.environment();
        let ghost b = self.spec_builtins();
        let n = statements.len();
        if n == 0 {
            return Err(EvaluatorError::UnexpectedError);
        }
        let mut i: usize = 0;
        proof {
            assert(stmts.skip(0) =~= stmts);
        }
        loop
            invariant
                self.wf(),
                self.spec_builtins() == b,
                0 <= i < n,
                spec_eval_program::<N, F>(stmts.skip(i as int), self.environment(), b)
                    == spec_eval_program::<N, F>(stmts, env0, b),
            decreases n - i,
        {
            proof {
                assert(stmts.skip(i as int)[0] == stmts[i as int]);
                assert(stmts[i as int] == statements@[i as int]@);
            }
            let res = self.eval_statement(&statements[i]);
            match res {
                Err(e) => {
                    return Err(e);
                },
                Ok(v) => {
                    if i == n - 1 {
                        proof {
                            assert(stmts.skip(i as int).len() == 1);
                        }
                        return Ok(v);
                    }
                    proof {
                        assert(stmts.skip(i as int).skip(1) =~= stmts.skip(i as int + 1));
                    }
                    i = i + 1;
                },
            }
        }
    }
}

} // verus!
