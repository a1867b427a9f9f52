use vstd::prelude::*;

use vstd::string::StrSliceExecFns;

use crate::chars::{
    decimal_value, digit_value, is_digit, is_digit_char, lemma_scan_digits_run, scan_digits,
};
use crate::numeric::NumericValue;

verus! {

/// An exact 64-bit integer backend: arithmetic fails on overflow, on
/// division by zero, and on a negative exponent; a numeral denotes a value
/// only when it is a whole number that fits.
#[derive(Clone, Copy, Debug, PartialEq, Eq, Structural)]
pub struct Int64 {
    pub value: i64,
}

impl Int64 {
    pub fn new(value: i64) -> (r: Self)
        ensures
            r.value == value,
    {
        Int64 { value }
    }
}

/// Iterated checked multiplication: `acc` times `base`, `e` times over,
/// `None` as soon as a step leaves the 64-bit range.
pub open spec fn spec_pow_steps(base: i64, acc: i64, e: nat) -> Option<i64>
    decreases e,
{
    if e == 0 {
        Some(acc)
    } else {
        match acc.checked_mul(base) {
            Some(v) => spec_pow_steps(base, v, (e - 1) as nat),
            None => None,
        }
    }
}

/// Extending a digit run by one digit multiplies its value by ten and adds
/// the digit.
proof fn lemma_decimal_value_step(s: Seq<char>, i: int)
    requires
        0 <= i < s.len(),
    ensures
        decimal_value(s.take(i + 1)) == decimal_value(s.take(i)) * 10 + digit_value(s[i]),
{
    assert(s.take(i + 1).drop_last() =~= s.take(i));
    assert(s.take(i + 1).last() == s[i]);
}

/// For the integer backend, a run of digits whose base-10 value fits in 64
/// bits denotes exactly that value.
pub proof fn lemma_int64_digits_value(s: Seq<char>)
    requires
        s.len() > 0,
        forall|i: int| 0 <= i < s.len() ==> is_digit(#[trigger] s[i]),
        decimal_value(s) <= i64::MAX,
    ensures
        Int64::spec_from_decimal(s) == Some(Int64 { value: decimal_value(s) as i64 }),
{
    lemma_scan_digits_run(s, 0, s.len());
}

impl NumericValue for Int64 {
    open spec fn spec_add(self, rhs: Self) -> Result<Self, Seq<char>> {
        match self.value.checked_add(rhs.value) {
            Some(v) => Ok(Int64 { value: v }),
            None => Err("overflow"@),
        }
    }

    open spec fn spec_sub(self, rhs: Self) -> Result<Self, Seq<char>> {
        match self.value.checked_sub(rhs.value) {
            Some(v) => Ok(Int64 { value: v }),
            None => Err("overflow"@),
        }
    }

    open spec fn spec_mul(self, rhs: Self) -> Result<Self, Seq<char>> {
        match self.value.checked_mul(rhs.value) {
            Some(v) => Ok(Int64 { value: v }),
            None => Err("overflow"@),
        }
    }

    open spec fn spec_div(self, rhs: Self) -> Result<Self, Seq<char>> {
        if rhs.value == 0 {
            Err("division by zero"@)
        } else {
            match self.value.checked_div(rhs.value) {
                Some(v) => Ok(Int64 { value: v }),
                None => Err("overflow"@),
            }
        }
    }

    open spec fn spec_pow(self, rhs: Self) -> Result<Self, Seq<char>> {
        if rhs.value < 0 {
            Err("negative exponent"@)
        } else {
            match spec_pow_steps(self.value, 1, rhs.value as nat) {
                Some(v) => Ok(Int64 { value: v }),
                None => Err("overflow"@),
            }
        }
    }

    open spec fn spec_neg(self) -> Result<Self, Seq<char>> {
        match (0i64).checked_sub(self.value) {
            Some(v) => Ok(Int64 { value: v }),
            None => Err("overflow"@),
        }
    }

    /// A numeral denotes a value when it is a digit run, possibly followed
    /// by a dot and a run of zero digits, whose whole part fits in 64 bits.
    open spec fn spec_from_decimal(s: Seq<char>) -> Option<Self> {
        let k = scan_digits(s, 0);
        if k == 0 {
            None
        } else if k == s.len() {
            if decimal_value(s) <= i64::MAX {
                Some(Int64 { value: decimal_value(s) as i64 })
            } else {
                None
            }
        } else if s[k as int] == '.' && s.len() > k + 1 && scan_digits(s, k + 1) == s.len() && (
        forall|i2: int| k + 1 <= i2 < s.len() ==> s[i2] == '0') {
            if decimal_value(s.take(k as int)) <= i64::MAX {
                Some(Int64 { value: decimal_value(s.take(k as int)) as i64 })
            } else {
                None
            }
        } else {
            None
        }
    }

    open spec fn spec_eq(self, rhs: Self) -> bool {
        self == rhs
    }

    fn add(self, rhs: Self) -> Result<Self, String> {
        match self.value.checked_add(rhs.value) {
            Some(v) => Ok(Int64 { value: v }),
            None => Err(String::from_str("overflow")),
        }
    }

    fn sub(self, rhs: Self) -> Result<Self, String> {
        match self.value.checked_sub(rhs.value) {
            Some(v) => Ok(Int64 { value: v }),
            None => Err(String::from_str("overflow")),
        }
    }

    fn mul(self, rhs: Self) -> Result<Self, String> {
        match self.value.checked_mul(rhs.value) {
            Some(v) => Ok(Int64 { value: v }),
            None => Err(String::from_str("overflow")),
        }
    }

    fn div(self, rhs: Self) -> Result<Self, String> {
        if rhs.value == 0 {
            Err(String::from_str("division by zero"))
        } else {
            match self.value.checked_div(rhs.value) {
                Some(v) => Ok(Int64 { value: v }),
                None => Err(String::from_str("overflow")),
            }
        }
    }

    #[verifier::loop_isolation(false)]
    fn pow(self, rhs: Self) -> Result<Self, String> {
        if rhs.value < 0 {
            return Err(String::from_str("negative exponent"));
        }
        let mut acc: i64 = 1;
        let mut e: i64 = rhs.value;
        while e > 0
            invariant
                0 <= e <= rhs.value,
                spec_pow_steps(self.value, acc, e as nat) == spec_pow_steps(
                    self.value,
                    1,
                    rhs.value as nat,
                ),
            decreases e,
        {
            match acc.checked_mul(self.value) {
                Some(v) => {
                    acc = v;
                    e = e - 1;
                },
                None => {
                    return Err(String::from_str("overflow"));
                },
            }
        }
        Ok(Int64 { value: acc })
    }

    fn neg(self) -> Result<Self, String> {
        match (0i64).checked_sub(self.value) {
            Some(v) => Ok(Int64 { value: v }),
            None => Err(String::from_str("overflow")),
        }
    }

    #[verifier::loop_isolation(false)]
    fn from_decimal(s: &str) -> Option<Self> {
        let n = s.unicode_len();
        let mut i: usize = 0;
        let mut acc: i64 = 0;
        let mut overflow = false;
        while i < n && is_digit_char(s.get_char(i))
            invariant
                i <= n,
                scan_digits(s@, 0) == scan_digits(s@, i as nat),
                !overflow ==> acc == decimal_value(s@.take(i as int)),
                overflow ==> decimal_value(s@.take(i as int)) > i64::MAX,
            decreases n - i,
        {
            let c = s.get_char(i);
            let d = (c as u32) as i64 - 48;
            proof {
                lemma_decimal_value_step(s@, i as int);
            }
            if !overflow {
                match acc.checked_mul(10) {
                    Some(t) => match t.checked_add(d) {
                        Some(u) => {
                            acc = u;
                        },
                        None => {
                            overflow = true;
                        },
                    },
                    None => {
                        overflow = true;
                    },
                }
            }
            i = i + 1;
        }
        assert(scan_digits(s@, 0) == i as nat);
        if i == 0 {
            return None;
        }
        if i == n {
            proof {
                assert(s@.take(i as int) =~= s@);
            }
            if overflow {
                return None;
            }
            return Some(Int64 { value: acc });
        }
        if s.get_char(i) != '.' {
            return None;
        }
        let mut j: usize = i + 1;
        let mut all_zero = true;
        while j < n && is_digit_char(s.get_char(j))
            invariant
                i + 1 <= j <= n,
                scan_digits(s@, i as nat + 1) == scan_digits(s@, j as nat),
                all_zero <==> (forall|i2: int| i + 1 <= i2 < j ==> s@[i2] == '0'),
            decreases n - j,
        {
            if s.get_char(j) != '0' {
                all_zero = false;
            }
            j = j + 1;
        }
        assert(scan_digits(s@, i as nat + 1) == j as nat);
        if j < n {
            return None;
        }
        if j == i + 1 {
            return None;
        }
        if !all_zero {
            return None;
        }
        if overflow {
            return None;
        }
        Some(Int64 { value: acc })
    }

    fn eq_value(&self, rhs: &Self) -> bool {
        self.value == rhs.value
    }

    fn duplicate(&self) -> Self {
        Int64 { value: self.value }
    }
}

} // verus!
