//! Decimal interpretation of a parameter value's text.
//!
//! A text denotes an unsigned 32-bit decimal when it is non-empty, consists
//! solely of ASCII digits, carries no leading zero (except the single
//! character `0` itself), and its numeric value fits the 32-bit range.

use vstd::prelude::*;

use crate::errors::ParseError;

verus! {

/// An ASCII decimal digit.
pub open spec fn is_digit(c: char) -> bool {
    '0' <= c && c <= '9'
}

/// Every character of the text is an ASCII digit.
pub open spec fn all_digits(s: Seq<char>) -> bool {
    forall|i: int| 0 <= i < s.len() ==> is_digit(#[trigger] s[i])
}

/// Position `i` holds the first non-digit character of `s`, in scan order.
pub open spec fn first_nondigit_at(s: Seq<char>, i: int) -> bool {
    &&& 0 <= i < s.len()
    &&& !is_digit(s[i])
    &&& forall|j: int| 0 <= j < i ==> is_digit(#[trigger] s[j])
}

/// Numeric value of an ASCII digit.
pub open spec fn digit_value(c: char) -> int {
    c as int - '0' as int
}

/// The number denoted by digit text, most significant digit first.
pub open spec fn dec_value(s: Seq<char>) -> int
    decreases s.len(),
{
    if s.len() == 0 {
        0
    } else {
        10 * dec_value(s.drop_last()) + digit_value(s.last())
    }
}

/// The outcome of interpreting text as a PHC decimal: `Empty` for empty
/// text, `InvalidChar` for the first non-digit or for a leading zero,
/// and `TooLong` when the denoted number exceeds the unsigned 32-bit
/// range (a deliberate reuse of the length error kind).
pub open spec fn decimal_of(s: Seq<char>) -> Result<u32, ParseError> {
    if s.len() == 0 {
        Err(ParseError::Empty)
    } else if exists|i: int| first_nondigit_at(s, i) {
        Err(ParseError::InvalidChar(s[choose|i: int| first_nondigit_at(s, i)]))
    } else if s.len() > 1 && s[0] == '0' {
        Err(ParseError::InvalidChar('0'))
    } else if dec_value(s) > u32::MAX {
        Err(ParseError::TooLong)
    } else {
        Ok(dec_value(s) as u32)
    }
}

/// At most one position can hold the first non-digit.
pub proof fn lemma_first_nondigit_unique(s: Seq<char>, i: int, j: int)
    requires
        first_nondigit_at(s, i),
        first_nondigit_at(s, j),
    ensures
        i == j,
{
    if i < j {
        assert(is_digit(s[i]));
    } else if j < i {
        assert(is_digit(s[j]));
    }
}

/// Digit-only text has no first non-digit position.
pub proof fn lemma_all_digits_no_first_nondigit(s: Seq<char>)
    requires
        all_digits(s),
    ensures
        !exists|i: int| first_nondigit_at(s, i),
{
    assert forall|i: int| !first_nondigit_at(s, i) by {
        if 0 <= i < s.len() {
            assert(is_digit(s[i]));
        }
    }
}

/// Digit-only text denotes a non-negative number.
pub proof fn lemma_dec_value_nonneg(s: Seq<char>)
    requires
        all_digits(s),
    ensures
        dec_value(s) >= 0,
    decreases s.len(),
{
    if s.len() > 0 {
        assert(all_digits(s.drop_last()));
        lemma_dec_value_nonneg(s.drop_last());
        assert(is_digit(s.last()));
    }
}

/// Extending digit-only text to the right never decreases its number.
pub proof fn lemma_dec_value_prefix_le(s: Seq<char>, i: int)
    requires
        all_digits(s),
        0 <= i <= s.len(),
    ensures
        dec_value(s.subrange(0, i)) <= dec_value(s),
    decreases s.len() - i,
{
    if i < s.len() {
        let p = s.subrange(0, i);
        let q = s.subrange(0, i + 1);
        assert(q.drop_last() =~= p);
        assert(all_digits(p));
        lemma_dec_value_nonneg(p);
        assert(is_digit(q.last()));
        assert(dec_value(q) == 10 * dec_value(p) + digit_value(q.last()));
        lemma_dec_value_prefix_le(s, i + 1);
    } else {
        assert(s.subrange(0, i) =~= s);
    }
}

/// For all digit-only text with no leading zero (or exactly `0`) whose
/// number fits the unsigned 32-bit range, decimal interpretation succeeds
/// and returns the numerically equal integer.
pub proof fn lemma_decimal_accepts_canonical(s: Seq<char>)
    requires
        s.len() > 0,
        all_digits(s),
        s.len() > 1 ==> s[0] != '0',
        dec_value(s) <= u32::MAX,
    ensures
        decimal_of(s) == Ok::<u32, ParseError>(dec_value(s) as u32),
{
    lemma_all_digits_no_first_nondigit(s);
    lemma_dec_value_nonneg(s);
}

/// Interpret text under the PHC decimal encoding rules.
pub(crate) fn parse_decimal(s: &str) -> (r: Result<u32, ParseError>)
    ensures
        r == decimal_of(s@),
{
    let n = s.unicode_len();
    if n == 0 {
        return Err(ParseError::Empty);
    }
    let mut i: usize = 0;
    while i < n
        invariant
            n == s@.len(),
            0 < n,
            i <= n,
            forall|j: int| 0 <= j < i ==> is_digit(#[trigger] s@[j]),
        decreases n - i,
    {
        let c = s.get_char(i);
        if !('0' <= c && c <= '9') {
            proof {
                assert(first_nondigit_at(s@, i as int));
                let k = choose|k: int| first_nondigit_at(s@, k);
                lemma_first_nondigit_unique(s@, i as int, k);
            }
            return Err(ParseError::InvalidChar(c));
        }
        i += 1;
    }
    proof {
        lemma_all_digits_no_first_nondigit(s@);
    }
    if n > 1 && s.get_char(0) == '0' {
        return Err(ParseError::InvalidChar('0'));
    }
    let mut acc: u32 = 0;
    let mut i: usize = 0;
    while i < n
        invariant
            n == s@.len(),
            0 < n,
            i <= n,
            all_digits(s@),
            n > 1 ==> s@[0] != '0',
            acc == dec_value(s@.subrange(0, i as int)),
        decreases n - i,
    {
        let c = s.get_char(i);
        let d: u32 = (c as u32) - ('0' as u32);
        let wide: u64 = (acc as u64) * 10 + (d as u64);
        proof {
            let p = s@.subrange(0, i as int);
            let q = s@.subrange(0, i as int + 1);
            assert(q.drop_last() =~= p);
            assert(is_digit(s@[i as int]));
            assert(dec_value(q) == 10 * dec_value(p) + digit_value(s@[i as int]));
        }
        if wide > (u32::MAX as u64) {
            proof {
                lemma_dec_value_prefix_le(s@, i as int + 1);
                lemma_all_digits_no_first_nondigit(s@);
            }
            return Err(ParseError::TooLong);
        }
        acc = wide as u32;
        i += 1;
    }
    proof {
        assert(s@.subrange(0, n as int) =~= s@);
    }
    Ok(acc)
}

} // verus!
