use vstd::prelude::*;

use vstd::pervasive::arbitrary;

verus! {

/// Relates an executable arithmetic result to its specification-level
/// counterpart: success with the same value, or failure with the same text.
pub open spec fn arith_matches<N>(r: Result<N, String>, s: Result<N, Seq<char>>) -> bool {
    match (r, s) {
        (Ok(a), Ok(b)) => a == b,
        (Err(e), Err(m)) => e@ == m,
        _ => false,
    }
}

/// The abstract numeric capability the whole pipeline is generic over.
///
/// A backend supplies the arithmetic (which may fail, e.g. on division by
/// zero or overflow), radix-10 parsing of numeral text, and equality.  Each
/// executable operation is pinned to a specification-level function of the
/// same backend, so that tokenizing, parsing and evaluation have exact
/// contracts for every backend that meets this interface.
pub trait NumericValue: Sized {
    /// What `add` returns: the sum, or the text of the arithmetic error.
    open spec fn spec_add(self, rhs: Self) -> Result<Self, Seq<char>> {
        arbitrary()
    }

    /// What `sub` returns.
    open spec fn spec_sub(self, rhs: Self) -> Result<Self, Seq<char>> {
        arbitrary()
    }

    /// What `mul` returns.
    open spec fn spec_mul(self, rhs: Self) -> Result<Self, Seq<char>> {
        arbitrary()
    }

    /// What `div` returns.
    open spec fn spec_div(self, rhs: Self) -> Result<Self, Seq<char>> {
        arbitrary()
    }

    /// What `pow` returns.
    open spec fn spec_pow(self, rhs: Self) -> Result<Self, Seq<char>> {
        arbitrary()
    }

    /// What `neg` returns.
    open spec fn spec_neg(self) -> Result<Self, Seq<char>> {
        arbitrary()
    }

    /// What `from_decimal` returns on the given numeral text.
    open spec fn spec_from_decimal(s: Seq<char>) -> Option<Self> {
        arbitrary()
    }

    /// What `eq_value` returns.
    open spec fn spec_eq(self, rhs: Self) -> bool {
        arbitrary()
    }

    fn add(self, rhs: Self) -> (r: Result<Self, String>)
        ensures
            arith_matches(r, self.spec_add(rhs)),
    ;

    fn sub(self, rhs: Self) -> (r: Result<Self, String>)
        ensures
            arith_matches(r, self.spec_sub(rhs)),
    ;

    fn mul(self, rhs: Self) -> (r: Result<Self, String>)
        ensures
            arith_matches(r, self.spec_mul(rhs)),
    ;

    fn div(self, rhs: Self) -> (r: Result<Self, String>)
        ensures
            arith_matches(r, self.spec_div(rhs)),
    ;

    fn pow(self, rhs: Self) -> (r: Result<Self, String>)
        ensures
            arith_matches(r, self.spec_pow(rhs)),
    ;

    fn neg(self) -> (r: Result<Self, String>)
        ensures
            arith_matches(r, self.spec_neg()),
    ;

    /// Radix-10 parsing of a numeral, `None` when the text denotes no value
    /// of this backend.
    fn from_decimal(s: &str) -> (r: Option<Self>)
        ensures
            r == Self::spec_from_decimal(s@),
    ;

    fn eq_value(&self, rhs: &Self) -> (r: bool)
        ensures
            r == self.spec_eq(*rhs),
    ;

    /// An owned copy of the value, equal to the original.
    fn duplicate(&self) -> (r: Self)
        ensures
            r == *self,
    ;
}

/// The injected builtin-function capability: named single-argument functions
/// the evaluator dispatches `Call` expressions through.
///
/// `spec_call` pins what `call` returns, so evaluation is a function of the
/// input text, the environment, and the capability alone.
pub trait BuiltinFn<N: NumericValue> {
    /// What `call` returns for a function name and argument.
    open spec fn spec_call(&self, name: Seq<char>, arg: N) -> Option<N> {
        arbitrary()
    }

    /// Apply the named builtin to `arg`; `None` when no such builtin exists.
    fn call(&self, name: &str, arg: N) -> (r: Option<N>)
        ensures
            r == self.spec_call(name@, arg),
    ;
}

} // verus!
