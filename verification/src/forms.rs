//! Form data submitted to the service, and the parsing of optional integer
//! form fields: HTML forms post empty strings for fields the user left
//! blank, so an optional integer field is blank-or-decimal.

use crate::text::{spec_trim, trim_str};
use vstd::prelude::*;
use vstd::string::StrSliceExecFns;

verus! {

/// Credentials posted to the login form.
pub struct LoginForm {
    pub username: String,
    pub password: String,
}

/// Fields posted to the password-change form.
pub struct ChangePasswordForm {
    pub current_password: String,
    pub new_password: String,
    pub confirm_password: String,
}

/// Rejection of a malformed form field.
#[derive(Clone, Copy, Debug, PartialEq, Eq, Structural)]
pub enum FormFieldError {
    /// The field is neither blank nor a decimal integer in range.
    NotAnInteger,
}

/// Whether `c` is a decimal digit.
pub open spec fn spec_is_digit(c: char) -> bool {
    48 <= c as u32 <= 57
}

/// The value of the digit `c`.
pub open spec fn spec_digit_val(c: char) -> int {
    c as u32 - 48
}

/// The value of a string of digits, most significant first.
pub open spec fn spec_digits_val(s: Seq<char>) -> int
    decreases s.len(),
{
    if s.len() == 0 {
        0
    } else {
        spec_digits_val(s.drop_last()) * 10 + spec_digit_val(s.last())
    }
}

/// Whether every character of `s` is a decimal digit.
pub open spec fn spec_all_digits(s: Seq<char>) -> bool {
    forall|i: int| 0 <= i < s.len() ==> spec_is_digit(s[i])
}

/// What `str::parse::<i32>` accepts: an optional sign followed by at least
/// one digit, the value within `i32` range. Anything else parses to nothing.
pub open spec fn spec_parse_i32(s: Seq<char>) -> Option<i32> {
    let neg = s.len() > 0 && s[0] == '-';
    let signed = s.len() > 0 && (s[0] == '-' || s[0] == '+');
    let ds = if signed {
        s.drop_first()
    } else {
        s
    };
    if ds.len() == 0 || !spec_all_digits(ds) {
        None
    } else {
        let m = spec_digits_val(ds);
        if neg {
            if -m >= i32::MIN {
                Some((-m) as i32)
            } else {
                None
            }
        } else {
            if m <= i32::MAX {
                Some(m as i32)
            } else {
                None
            }
        }
    }
}

/// The value of a digit string is never negative.
proof fn lemma_digits_val_nonneg(s: Seq<char>)
    requires
        spec_all_digits(s),
    ensures
        spec_digits_val(s) >= 0,
    decreases s.len(),
{
    if s.len() > 0 {
        lemma_digits_val_nonneg(s.drop_last());
    }
}

/// A digit string is worth at least as much as any of its prefixes.
proof fn lemma_digits_val_prefix_le(s: Seq<char>, k: int)
    requires
        spec_all_digits(s),
        0 <= k <= s.len(),
    ensures
        spec_digits_val(s.take(k)) <= spec_digits_val(s),
    decreases s.len() - k,
{
    if k < s.len() {
        assert(s.take(k + 1).drop_last() =~= s.take(k));
        assert(spec_all_digits(s.take(k)));
        lemma_digits_val_nonneg(s.take(k));
        lemma_digits_val_prefix_le(s, k + 1);
    } else {
        assert(s.take(k) =~= s);
    }
}

/// Parse a decimal integer exactly as `str::parse::<i32>` would.
pub fn parse_i32(s: &str) -> (r: Option<i32>)
    ensures
        r == spec_parse_i32(s@),
{
    let n = s.unicode_len();
    if n == 0 {
        return None;
    }
    let c0 = s.get_char(0);
    let neg = c0 == '-';
    let signed = neg || c0 == '+';
    let start: usize = if signed {
        1
    } else {
        0
    };
    let ghost ds = if signed {
        s@.drop_first()
    } else {
        s@
    };
    if n == start {
        return None;
    }
    let mut i: usize = start;
    let mut m: u64 = 0;
    proof {
        assert(ds.take(0) =~= Seq::<char>::empty());
    }
    while i < n
        invariant
            start <= i <= n,
            0 < n == s@.len(),
            neg == (s@[0] == '-'),
            signed == (s@[0] == '-' || s@[0] == '+'),
            start == if signed { 1int } else { 0int },
            ds == if signed { s@.drop_first() } else { s@ },
            ds.len() == n - start,
            forall|j: int| 0 <= j < ds.len() ==> ds[j] == s@[j + start],
            m == spec_digits_val(ds.take(i - start)),
            spec_all_digits(ds.take(i - start)),
            m <= 2147483648,
        decreases n - i,
    {
        let c = s.get_char(i);
        let u = c as u32;
        let ghost k = i - start;
        if u < 48 || u > 57 {
            proof {
                assert(ds[k] == s@[i as int]);
                assert(!spec_is_digit(ds[k]));
                assert(!spec_all_digits(ds));
            }
            return None;
        }
        let d = (u - 48) as u64;
        if m > 214748364 || (m == 214748364 && d > 8) {
            proof {
                assert(ds.take(k + 1).drop_last() =~= ds.take(k));
                assert(spec_all_digits(ds.take(k + 1)));
                assert(spec_digits_val(ds.take(k + 1)) == m * 10 + d);
                assert(m * 10 + d > 2147483648);
                if spec_all_digits(ds) {
                    lemma_digits_val_prefix_le(ds, k + 1);
                    assert(spec_digits_val(ds) > 2147483648);
                }
            }
            return None;
        }
        proof {
            assert(ds.take(k + 1).drop_last() =~= ds.take(k));
            assert(spec_all_digits(ds.take(k + 1)));
        }
        m = m * 10 + d;
        i = i + 1;
    }
    proof {
        assert(ds.take(n - start) =~= ds);
    }
    if neg {
        if m == 2147483648 {
            Some(i32::MIN)
        } else {
            Some(-(m as i32))
        }
    } else {
        if m == 2147483648 {
            None
        } else {
            Some(m as i32)
        }
    }
}

/// What an optional integer form field yields: blank (after trimming) is
/// nothing, a decimal integer is its value, anything else is rejected.
pub open spec fn spec_parse_optional_int(s: Seq<char>) -> Result<Option<i32>, FormFieldError> {
    let t = spec_trim(s);
    if t.len() == 0 {
        Ok(None)
    } else {
        match spec_parse_i32(t) {
            Some(v) => Ok(Some(v)),
            None => Err(FormFieldError::NotAnInteger),
        }
    }
}

/// Parse an optional integer form field: blank means absent.
pub fn parse_optional_int(s: &str) -> (r: Result<Option<i32>, FormFieldError>)
    ensures
        r == spec_parse_optional_int(s@),
{
    let t = trim_str(s);
    if t.unicode_len() == 0 {
        Ok(None)
    } else {
        match parse_i32(t) {
            Some(v) => Ok(Some(v)),
            None => Err(FormFieldError::NotAnInteger),
        }
    }
}

} // verus!
