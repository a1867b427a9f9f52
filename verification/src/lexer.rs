use vstd::prelude::*;

use core::marker::PhantomData;
use vstd::string::StrSliceExecFns;

use crate::chars::{
    byte_offset, byte_offset_at, is_alpha, is_alpha_char, is_digit, is_digit_char,
    is_ident_char_exec, is_space, is_space_char, lemma_scan_digits_bounds, lemma_scan_digits_run,
    lemma_scan_ident_bounds, lemma_skip_ws_bounds, scan_digits, scan_ident, skip_ws,
};
use crate::numeric::NumericValue;
use crate::token::{Operator, Punctuation, Token, TokenView};

verus! {

/// A failure of the tokenizer.  Offsets count bytes into the input.
#[derive(Debug, PartialEq)]
pub enum LexerError {
    /// A character that starts no token, with its byte offset.
    UnexpectedChar(char, usize),
    /// A numeral that does not denote a value, with the byte offset just
    /// past its last consumed character.
    InvalidNumber(String, usize),
}

/// The mathematical shape of a lexer error.
pub enum LexerErrorView {
    UnexpectedChar(char, nat),
    InvalidNumber(Seq<char>, nat),
}

impl Clone for LexerError {
    /// A copy equal to the original.
    fn clone(&self) -> (res: Self)
        ensures
            res == *self,
    {
        match self {
            LexerError::UnexpectedChar(c, off) => LexerError::UnexpectedChar(*c, *off),
            LexerError::InvalidNumber(s, off) => LexerError::InvalidNumber(s.clone(), *off),
        }
    }
}

impl View for LexerError {
    type V = LexerErrorView;

    open spec fn view(&self) -> LexerErrorView {
        match self {
            LexerError::UnexpectedChar(c, off) => LexerErrorView::UnexpectedChar(*c, *off as nat),
            LexerError::InvalidNumber(s, off) => LexerErrorView::InvalidNumber(s@, *off as nat),
        }
    }
}

/// One step of the tokenizer: a token together with the character position
/// right after it, or a lexer error.
pub enum LexStep<N> {
    Tok(TokenView<N>, nat),
    Fail(LexerErrorView),
}

/// The token-or-error for a numeral spanning `[start, end)` of `s`: the
/// backend parses the text, and a text it cannot parse is an invalid number
/// reported at the byte offset of `end`.
pub open spec fn spec_number_step<N: NumericValue>(s: Seq<char>, start: nat, end: nat) -> LexStep<
    N,
> {
    let text = s.subrange(start as int, end as int);
    match N::spec_from_decimal(text) {
        Some(v) => LexStep::Tok(TokenView::Number(v), end),
        None => LexStep::Fail(LexerErrorView::InvalidNumber(text, byte_offset(s, end))),
    }
}

/// Scanning a numeral that starts at `j`: the run of digits, then optionally
/// a dot which must be followed by at least one more digit.
pub open spec fn spec_scan_number<N: NumericValue>(s: Seq<char>, j: nat) -> LexStep<N> {
    let j2 = scan_digits(s, j);
    if j2 < s.len() && s[j2 as int] == '.' {
        let j3 = scan_digits(s, j2 + 1);
        if j3 == j2 + 1 {
            LexStep::Fail(
                LexerErrorView::InvalidNumber(
                    s.subrange(j as int, j2 as int + 1),
                    byte_offset(s, (j2 + 1) as nat),
                ),
            )
        } else {
            spec_number_step::<N>(s, j, j3)
        }
    } else {
        spec_number_step::<N>(s, j, j2)
    }
}

/// The next token of `s` from character position `i`: skip whitespace, then
/// classify by the first character — digit starts a numeral, letter an
/// identifier, an operator or punctuation symbol stands alone, the end of
/// the input yields `Eof`, and anything else is an unexpected character.
pub open spec fn spec_next_token<N: NumericValue>(s: Seq<char>, i: nat) -> LexStep<N>
    recommends
        i <= s.len(),
{
    let j = skip_ws(s, i);
    if j >= s.len() {
        LexStep::Tok(TokenView::Eof, j)
    } else {
        let c = s[j as int];
        if is_digit(c) {
            spec_scan_number::<N>(s, j)
        } else if is_alpha(c) {
            let j2 = scan_ident(s, j);
            LexStep::Tok(TokenView::Identifier(s.subrange(j as int, j2 as int)), j2)
        } else {
            match Operator::spec_of_char(c) {
                Some(op) => LexStep::Tok(TokenView::Operator(op), j + 1),
                None => match Punctuation::spec_of_char(c) {
                    Some(p) => LexStep::Tok(TokenView::Punctuation(p), j + 1),
                    None => LexStep::Fail(LexerErrorView::UnexpectedChar(c, byte_offset(s, j))),
                },
            }
        }
    }
}

/// A successful step lands inside the input, and strictly advances unless
/// it is `Eof`.
pub proof fn lemma_next_token_advances<N: NumericValue>(s: Seq<char>, i: nat)
    requires
        i <= s.len(),
    ensures
        match spec_next_token::<N>(s, i) {
            LexStep::Tok(t, j) => i <= j <= s.len() && (!(t is Eof) ==> j > i),
            LexStep::Fail(e) => true,
        },
{
    lemma_skip_ws_bounds(s, i);
    let j = skip_ws(s, i);
    if j < s.len() {
        let c = s[j as int];
        if is_digit(c) {
            let j2 = scan_digits(s, j);
            assert(scan_digits(s, j) == scan_digits(s, j + 1));
            lemma_scan_digits_bounds(s, j + 1);
            if j2 < s.len() && s[j2 as int] == '.' {
                lemma_scan_digits_bounds(s, j2 + 1);
            }
        } else if is_alpha(c) {
            assert(scan_ident(s, j) == scan_ident(s, j + 1));
            lemma_scan_ident_bounds(s, j + 1);
        }
    }
}

/// A numeral: one or more digits, optionally followed by a dot and at
/// least one more digit.
pub open spec fn is_numeral(s: Seq<char>) -> bool {
    exists|d: int|
        {
            &&& 0 < d <= s.len()
            &&& (forall|i: int| 0 <= i < d ==> is_digit(#[trigger] s[i]))
            &&& (d == s.len() || (s[d] == '.' && d + 1 < s.len() && forall|i: int|
                d + 1 <= i < s.len() ==> is_digit(#[trigger] s[i])))
        }
}

/// Tokenizing a numeral the backend gives a value yields exactly one
/// token, the number with that value, and no error: the whole of the text
/// is consumed as one number.
pub proof fn lemma_numeral_single_token<N: NumericValue>(s: Seq<char>)
    requires
        is_numeral(s),
        N::spec_from_decimal(s) is Some,
    ensures
        spec_lex::<N>(s).err is None,
        spec_lex::<N>(s).toks == seq![
            TokenView::<N>::Number(N::spec_from_decimal(s)->Some_0),
        ],
{
    let d = choose|d: int|
        {
            &&& 0 < d <= s.len()
            &&& (forall|i: int| 0 <= i < d ==> is_digit(#[trigger] s[i]))
            &&& (d == s.len() || (s[d] == '.' && d + 1 < s.len() && forall|i: int|
                d + 1 <= i < s.len() ==> is_digit(#[trigger] s[i])))
        };
    assert(is_digit(s[0]));
    assert(!is_space(s[0]));
    assert(skip_ws(s, 0) == 0);
    if d == s.len() {
        lemma_scan_digits_run(s, 0, d as nat);
    } else {
        assert(!is_digit(s[d]));
        lemma_scan_digits_run(s, 0, d as nat);
        lemma_scan_digits_run(s, (d + 1) as nat, s.len());
    }
    assert(s.subrange(0, s.len() as int) =~= s);
    let n = N::spec_from_decimal(s)->Some_0;
    assert(spec_next_token::<N>(s, 0) == LexStep::<N>::Tok(TokenView::Number(n), s.len() as nat));
    assert(skip_ws(s, s.len() as nat) == s.len());
    assert(spec_lex_from::<N>(s, s.len() as nat) == (StreamView::<N> {
        toks: Seq::empty(),
        err: None,
    }));
    assert(spec_lex::<N>(s).toks =~= seq![TokenView::<N>::Number(n)]);
}

/// The whole token stream ahead of a position: the tokens before the
/// terminator, and the terminator itself — `None` for a clean end of input,
/// or the first lexer error.
pub struct StreamView<N> {
    pub toks: Seq<TokenView<N>>,
    pub err: Option<LexerErrorView>,
}

impl<N> StreamView<N> {
    /// The stream with its first token consumed.
    pub open spec fn tail(self) -> StreamView<N> {
        StreamView { toks: self.toks.skip(1), err: self.err }
    }
}

/// Tokenizing `s` from character position `i` to the end or the first error.
pub open spec fn spec_lex_from<N: NumericValue>(s: Seq<char>, i: nat) -> StreamView<N>
    recommends
        i <= s.len(),
    decreases s.len() - i,
        when i <= s.len()
        via spec_lex_from_decreases::<N>
{
    match spec_next_token::<N>(s, i) {
        LexStep::Tok(TokenView::Eof, j) => StreamView { toks: Seq::empty(), err: None },
        LexStep::Tok(t, j) => {
            let rest = spec_lex_from::<N>(s, j);
            StreamView { toks: seq![t] + rest.toks, err: rest.err }
        },
        LexStep::Fail(e) => StreamView { toks: Seq::empty(), err: Some(e) },
    }
}

#[via_fn]
proof fn spec_lex_from_decreases<N: NumericValue>(s: Seq<char>, i: nat) {
    lemma_next_token_advances::<N>(s, i);
}

/// Tokenizing the whole of `s`.
pub open spec fn spec_lex<N: NumericValue>(s: Seq<char>) -> StreamView<N> {
    spec_lex_from(s, 0)
}

/// The finite-state tokenizer: a forward-only scanner over the input,
/// handing out one token per request.
///
/// The scanner's states — start, integer part, decimal part, inside an
/// identifier — appear as the phases of `next_token`, each phase governed
/// by the matching scan function (`skip_ws`, `scan_digits`, `scan_ident`)
/// that also defines the token boundaries at the specification level.
#[derive(Debug)]
pub struct Lexer<'a, N: NumericValue> {
    input: &'a str,
    index: usize,
    _backend: PhantomData<N>,
}

impl<'a, N: NumericValue> Lexer<'a, N> {
    /// The input being tokenized, as a character sequence.
    pub closed spec fn input_view(self) -> Seq<char> {
        self.input@
    }

    /// The current character position.
    pub closed spec fn char_index(self) -> nat {
        self.index as nat
    }

    pub open spec fn wf(self) -> bool {
        self.char_index() <= self.input_view().len()
    }

    /// The stream of tokens still ahead of the scanner.
    pub open spec fn remaining(self) -> StreamView<N> {
        spec_lex_from(self.input_view(), self.char_index())
    }

    pub fn new(input: &'a str) -> (r: Self)
        ensures
            r.wf(),
            r.input_view() == input@,
            r.char_index() == 0,
            r.remaining() == spec_lex::<N>(input@),
    {
        Lexer { input, index: 0, _backend: PhantomData }
    }

    /// Scan the next token.  On an error the scanner does not move, so
    /// asking again reproduces the same error.
    #[verifier::loop_isolation(false)]
    pub fn next_token(&mut self) -> (r: Result<Token<N>, LexerError>)
        requires
            old(self).wf(),
        ensures
            final(self).wf(),
            final(self).input_view() == old(self).input_view(),
            match spec_next_token::<N>(old(self).input_view(), old(self).char_index()) {
                LexStep::Tok(t, j) => {
                    &&& r is Ok
                    &&& (match r {
                        Ok(tok) => tok@ == t,
                        Err(_) => false,
                    })
                    &&& final(self).char_index() == j
                },
                LexStep::Fail(e) => {
                    &&& r is Err
                    &&& (match r {
                        Ok(_) => false,
                        Err(er) => er@ == e,
                    })
                    &&& *final(self) == *old(self)
                },
            },
    {
        let ghost s = self.input@;
        let ghost i0 = self.index as nat;
        let n = self.input.unicode_len();
        let mut j = self.index;
        while j < n && is_space_char(self.input.get_char(j))
            invariant
                self == old(self),
                n == s.len(),
                i0 <= j as nat <= n,
                skip_ws(s, i0) == skip_ws(s, j as nat),
            decreases n - j,
        {
            j = j + 1;
        }
        assert(skip_ws(s, i0) == j as nat);
        if j == n {
            self.index = j;
            return Ok(Token::Eof);
        }
        let c = self.input.get_char(j);
        if is_digit_char(c) {
            let mut j2 = j;
            while j2 < n && is_digit_char(self.input.get_char(j2))
                invariant
                    self == old(self),
                    n == s.len(),
                    j as nat <= j2 as nat <= n,
                    scan_digits(s, j as nat) == scan_digits(s, j2 as nat),
                decreases n - j2,
            {
                j2 = j2 + 1;
            }
            assert(scan_digits(s, j as nat) == j2 as nat);
            if j2 < n && self.input.get_char(j2) == '.' {
                let mut j3 = j2 + 1;
                while j3 < n && is_digit_char(self.input.get_char(j3))
                    invariant
                        self == old(self),
                        n == s.len(),
                        j2 as nat + 1 <= j3 as nat <= n,
                        scan_digits(s, j2 as nat + 1) == scan_digits(s, j3 as nat),
                    decreases n - j3,
                {
                    j3 = j3 + 1;
                }
                assert(scan_digits(s, j2 as nat + 1) == j3 as nat);
                if j3 == j2 + 1 {
                    let text = self.input.substring_char(j, j2 + 1);
                    let off = byte_offset_at(self.input, j2 + 1);
                    return Err(LexerError::InvalidNumber(text.to_owned(), off));
                }
                let text = self.input.substring_char(j, j3);
                match N::from_decimal(text) {
                    Some(v) => {
                        self.index = j3;
                        Ok(Token::Number(v))
                    },
                    None => {
                        let off = byte_offset_at(self.input, j3);
                        Err(LexerError::InvalidNumber(text.to_owned(), off))
                    },
                }
            } else {
                let text = self.input.substring_char(j, j2);
                match N::from_decimal(text) {
                    Some(v) => {
                        self.index = j2;
                        Ok(Token::Number(v))
                    },
                    None => {
                        let off = byte_offset_at(self.input, j2);
                        Err(LexerError::InvalidNumber(text.to_owned(), off))
                    },
                }
            }
        } else if is_alpha_char(c) {
            let mut j2 = j;
            while j2 < n && is_ident_char_exec(self.input.get_char(j2))
                invariant
                    self == old(self),
                    n == s.len(),
                    j as nat <= j2 as nat <= n,
                    scan_ident(s, j as nat) == scan_ident(s, j2 as nat),
                decreases n - j2,
            {
                j2 = j2 + 1;
            }
            assert(scan_ident(s, j as nat) == j2 as nat);
            let text = self.input.substring_char(j, j2);
            self.index = j2;
            Ok(Token::Identifier(text.to_owned()))
        } else {
            match Operator::get(c) {
                Some(op) => {
                    self.index = j + 1;
                    Ok(Token::Operator(op))
                },
                None => match Punctuation::get(c) {
                    Some(p) => {
                        self.index = j + 1;
                        Ok(Token::Punctuation(p))
                    },
                    None => {
                        let off = byte_offset_at(self.input, j);
                        Err(LexerError::UnexpectedChar(c, off))
                    },
                },
            }
        }
    }
}

} // verus!
