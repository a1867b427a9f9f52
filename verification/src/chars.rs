use vstd::prelude::*;

use vstd::utf8::{encode_scalar, encode_utf8};

verus! {

/// The Unicode whitespace characters (property `White_Space`), the ones the
/// tokenizer skips between tokens.
pub open spec fn is_space(c: char) -> bool {
    ||| c == ' '
    ||| c == '\t'
    ||| c == '\n'
    ||| c == '\u{B}'
    ||| c == '\u{C}'
    ||| c == '\r'
    ||| c == '\u{85}'
    ||| c == '\u{A0}'
    ||| c == '\u{1680}'
    ||| ('\u{2000}' <= c && c <= '\u{200A}')
    ||| c == '\u{2028}'
    ||| c == '\u{2029}'
    ||| c == '\u{202F}'
    ||| c == '\u{205F}'
    ||| c == '\u{3000}'
}

pub fn is_space_char(c: char) -> (r: bool)
    ensures
        r == is_space(c),
{
    match c {
        ' ' | '\t' | '\n' | '\u{B}' | '\u{C}' | '\r' | '\u{85}' | '\u{A0}' | '\u{1680}'
            | '\u{2028}' | '\u{2029}' | '\u{202F}' | '\u{205F}' | '\u{3000}' => true,
        _ => '\u{2000}' <= c && c <= '\u{200A}',
    }
}

/// The ASCII decimal digits.
pub open spec fn is_digit(c: char) -> bool {
    '0' <= c && c <= '9'
}

pub fn is_digit_char(c: char) -> (r: bool)
    ensures
        r == is_digit(c),
{
    '0' <= c && c <= '9'
}

/// The numeric value of an ASCII decimal digit.
pub open spec fn digit_value(c: char) -> nat
    recommends
        is_digit(c),
{
    ((c as nat) - 48) as nat
}

/// The ASCII letters, the characters an identifier may start with.
pub open spec fn is_alpha(c: char) -> bool {
    ('a' <= c && c <= 'z') || ('A' <= c && c <= 'Z')
}

pub fn is_alpha_char(c: char) -> (r: bool)
    ensures
        r == is_alpha(c),
{
    ('a' <= c && c <= 'z') || ('A' <= c && c <= 'Z')
}

/// The characters an identifier may continue with: letters, digits, `_`.
pub open spec fn is_ident_char(c: char) -> bool {
    is_alpha(c) || is_digit(c) || c == '_'
}

pub fn is_ident_char_exec(c: char) -> (r: bool)
    ensures
        r == is_ident_char(c),
{
    is_alpha_char(c) || is_digit_char(c) || c == '_'
}

/// The first position at or after `i` holding a non-whitespace character
/// (or the end of `s`).
pub open spec fn skip_ws(s: Seq<char>, i: nat) -> nat
    decreases s.len() - i when i <= s.len()
{
    if i < s.len() && is_space(s[i as int]) {
        skip_ws(s, i + 1)
    } else {
        i
    }
}

pub proof fn lemma_skip_ws_bounds(s: Seq<char>, i: nat)
    requires
        i <= s.len(),
    ensures
        i <= skip_ws(s, i) <= s.len(),
    decreases s.len() - i,
{
    if i < s.len() && is_space(s[i as int]) {
        lemma_skip_ws_bounds(s, i + 1);
    }
}

/// The end of the run of decimal digits starting at `i`.
pub open spec fn scan_digits(s: Seq<char>, i: nat) -> nat
    decreases s.len() - i when i <= s.len()
{
    if i < s.len() && is_digit(s[i as int]) {
        scan_digits(s, i + 1)
    } else {
        i
    }
}

pub proof fn lemma_scan_digits_bounds(s: Seq<char>, i: nat)
    requires
        i <= s.len(),
    ensures
        i <= scan_digits(s, i) <= s.len(),
    decreases s.len() - i,
{
    if i < s.len() && is_digit(s[i as int]) {
        lemma_scan_digits_bounds(s, i + 1);
    }
}

/// A run of digits over `[i, e)` that ends at `e` scans exactly to `e`.
pub proof fn lemma_scan_digits_run(s: Seq<char>, i: nat, e: nat)
    requires
        i <= e <= s.len(),
        forall|m: int| i <= m < e ==> is_digit(#[trigger] s[m]),
        e == s.len() || !is_digit(s[e as int]),
    ensures
        scan_digits(s, i) == e,
    decreases e - i,
{
    if i < e {
        lemma_scan_digits_run(s, i + 1, e);
    }
}

/// The end of the run of identifier characters starting at `i`.
pub open spec fn scan_ident(s: Seq<char>, i: nat) -> nat
    decreases s.len() - i when i <= s.len()
{
    if i < s.len() && is_ident_char(s[i as int]) {
        scan_ident(s, i + 1)
    } else {
        i
    }
}

pub proof fn lemma_scan_ident_bounds(s: Seq<char>, i: nat)
    requires
        i <= s.len(),
    ensures
        i <= scan_ident(s, i) <= s.len(),
    decreases s.len() - i,
{
    if i < s.len() && is_ident_char(s[i as int]) {
        lemma_scan_ident_bounds(s, i + 1);
    }
}

/// The value of a run of decimal digits, read in base 10.
pub open spec fn decimal_value(s: Seq<char>) -> nat
    decreases s.len(),
{
    if s.len() == 0 {
        0
    } else {
        decimal_value(s.drop_last()) * 10 + digit_value(s.last())
    }
}

/// The byte offset of character position `i` of `s`, under UTF-8.
pub open spec fn byte_offset(s: Seq<char>, i: nat) -> nat
    recommends
        i <= s.len(),
{
    encode_utf8(s.take(i as int)).len()
}

/// UTF-8 encodes the concatenation of two character sequences piecewise.
pub proof fn lemma_encode_utf8_concat(a: Seq<char>, b: Seq<char>)
    ensures
        encode_utf8(a + b) == encode_utf8(a) + encode_utf8(b),
    decreases a.len(),
{
    if a.len() == 0 {
        assert(a + b =~= b);
        assert(encode_utf8(a) + encode_utf8(b) =~= encode_utf8(b));
    } else {
        lemma_encode_utf8_concat(a.drop_first(), b);
        assert((a + b).drop_first() =~= a.drop_first() + b);
        assert(encode_scalar(a[0] as u32) + (encode_utf8(a.drop_first()) + encode_utf8(b)) =~= (
        encode_scalar(a[0] as u32) + encode_utf8(a.drop_first())) + encode_utf8(b));
    }
}

/// Byte offsets never decrease along a string and never pass its byte length.
pub proof fn lemma_byte_offset_le(s: Seq<char>, i: nat, j: nat)
    requires
        i <= j <= s.len(),
    ensures
        byte_offset(s, i) <= byte_offset(s, j) <= encode_utf8(s).len(),
{
    assert(s.take(j as int) =~= s.take(i as int) + s.take(j as int).skip(i as int));
    lemma_encode_utf8_concat(s.take(i as int), s.take(j as int).skip(i as int));
    assert(s =~= s.take(j as int) + s.skip(j as int));
    lemma_encode_utf8_concat(s.take(j as int), s.skip(j as int));
}

/// Extending a prefix by one character adds that character's encoding.
pub proof fn lemma_byte_offset_step(s: Seq<char>, i: nat)
    requires
        i < s.len(),
    ensures
        byte_offset(s, i + 1) == byte_offset(s, i) + encode_scalar(s[i as int] as u32).len(),
{
    assert(s.take(i as int + 1) =~= s.take(i as int) + seq![s[i as int]]);
    lemma_encode_utf8_concat(s.take(i as int), seq![s[i as int]]);
    assert(seq![s[i as int]].drop_first() =~= Seq::<char>::empty());
    assert(encode_scalar(s[i as int] as u32) + encode_utf8(seq![s[i as int]].drop_first()) =~=
    encode_scalar(s[i as int] as u32));
}

/// The byte offset of character position `j` of `s`, computed by summing
/// the widths of the characters before it.
#[verifier::loop_isolation(false)]
pub fn byte_offset_at(s: &str, j: usize) -> (r: usize)
    requires
        j <= s@.len(),
    ensures
        r == byte_offset(s@, j as nat),
{
    let bytes = s.as_bytes();
    let total = bytes.len();
    proof {
        broadcast use vstd::slice::axiom_spec_len;

        assert(total == encode_utf8(s@).len());
    }
    let mut acc: usize = 0;
    let mut i: usize = 0;
    while i < j
        invariant
            i <= j <= s@.len(),
            acc == byte_offset(s@, i as nat),
            total == encode_utf8(s@).len(),
        decreases j - i,
    {
        let c = s.get_char(i);
        let w = char_width(c);
        proof {
            lemma_byte_offset_step(s@, i as nat);
            lemma_byte_offset_le(s@, (i + 1) as nat, s@.len());
        }
        acc = acc + w;
        i = i + 1;
    }
    acc
}

/// The number of bytes of the UTF-8 encoding of one character.
pub fn char_width(c: char) -> (w: usize)
    ensures
        w == encode_scalar(c as u32).len(),
        1 <= w <= 4,
{
    let u = c as u32;
    if u < 0x80 {
        1
    } else if u < 0x800 {
        2
    } else if u < 0x10000 {
        3
    } else {
        4
    }
}

} // verus!
