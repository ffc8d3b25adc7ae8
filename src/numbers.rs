//! Reading decimal integers the way `str::parse::<u64>` and
//! `str::parse::<i64>` do: an optional sign, then one or more ASCII digits,
//! within the type's range.
use vstd::prelude::*;
use crate::fingerprint::{decimal_of, digit_char, signed_decimal_of};

verus! {

pub open spec fn is_digit(c: char) -> bool {
    '0' <= c && c <= '9'
}

pub open spec fn all_digits(s: Seq<char>) -> bool {
    forall|i: int| 0 <= i < s.len() ==> is_digit(#[trigger] s[i])
}

/// The value of a string of decimal digits.
pub open spec fn digits_value(s: Seq<char>) -> int
    decreases s.len(),
{
    if s.len() == 0 {
        0
    } else {
        digits_value(s.drop_last()) * 10 + (s.last() as int - '0' as int)
    }
}

/// The magnitude a non-empty digit string denotes, if it fits in 64 bits.
pub open spec fn magnitude_of(s: Seq<char>) -> Option<u64> {
    if s.len() > 0 && all_digits(s) && digits_value(s) <= u64::MAX {
        Some(digits_value(s) as u64)
    } else {
        None
    }
}

/// What `str::parse::<u64>` returns, as an option.
pub open spec fn parse_u64_of(s: Seq<char>) -> Option<u64> {
    if s.len() > 0 && s[0] == '+' {
        magnitude_of(s.drop_first())
    } else {
        magnitude_of(s)
    }
}

/// What `str::parse::<i64>` returns, as an option.
pub open spec fn parse_i64_of(s: Seq<char>) -> Option<i64> {
    if s.len() > 0 && s[0] == '-' {
        match magnitude_of(s.drop_first()) {
            Some(m) => if m <= 0x8000_0000_0000_0000 { Some((-(m as int)) as i64) } else { None },
            None => None,
        }
    } else {
        match parse_u64_of(s) {
            Some(m) => if m <= i64::MAX { Some(m as i64) } else { None },
            None => None,
        }
    }
}

proof fn lemma_digits_value_nonneg(s: Seq<char>)
    requires
        all_digits(s),
    ensures
        digits_value(s) >= 0,
    decreases s.len(),
{
    if s.len() > 0 {
        lemma_digits_value_nonneg(s.drop_last());
        assert(is_digit(s[s.len() - 1]));
    }
}

proof fn lemma_digits_value_monotone(s: Seq<char>, j: int, k: int)
    requires
        all_digits(s),
        0 <= j <= k <= s.len(),
    ensures
        0 <= digits_value(s.take(j)) <= digits_value(s.take(k)),
    decreases k - j,
{
    if j < k {
        lemma_digits_value_monotone(s, j, k - 1);
        assert(s.take(k).drop_last() =~= s.take(k - 1));
        assert(is_digit(s[k - 1]));
    } else {
        lemma_digits_value_nonneg(s.take(j));
    }
}

/// The magnitude denoted by `cs[lo..]`.
fn magnitude(cs: &Vec<char>, lo: usize) -> (r: Option<u64>)
    requires
        lo <= cs@.len(),
    ensures
        r == magnitude_of(cs@.skip(lo as int)),
{
    let ghost d = cs@.skip(lo as int);
    if lo == cs.len() {
        return None;
    }
    let mut i: usize = lo;
    while i < cs.len()
        invariant
            lo <= i <= cs@.len(),
            d == cs@.skip(lo as int),
            forall|k: int| 0 <= k < i - lo ==> is_digit(#[trigger] d[k]),
        decreases cs@.len() - i,
    {
        if !('0' <= cs[i] && cs[i] <= '9') {
            assert(!is_digit(d[i - lo]));
            return None;
        }
        i = i + 1;
    }
    assert(all_digits(d));
    let mut v: u64 = 0;
    let mut i: usize = lo;
    while i < cs.len()
        invariant
            lo <= i <= cs@.len(),
            d == cs@.skip(lo as int),
            all_digits(d),
            v as int == digits_value(d.take(i - lo)),
        decreases cs@.len() - i,
    {
        assert(d.take(i - lo + 1).drop_last() =~= d.take(i - lo));
        assert(is_digit(d[i - lo]));
        let dig: u64 = (cs[i] as u64) - ('0' as u64);
        if v > (u64::MAX - dig) / 10 {
            proof {
                lemma_digits_value_monotone(d, i - lo + 1, d.len() as int);
                assert(d.take(d.len() as int) =~= d);
            }
            return None;
        }
        v = v * 10 + dig;
        i = i + 1;
    }
    assert(d.take(i - lo) =~= d);
    Some(v)
}

/// Reads a `u64` as `str::parse::<u64>` does.
pub fn parse_u64(s: &str) -> (r: Option<u64>)
    ensures
        r == parse_u64_of(s@),
{
    let cs = crate::text::chars_of(s);
    if cs.len() > 0 && cs[0] == '+' {
        assert(cs@.skip(1) =~= cs@.drop_first());
        magnitude(&cs, 1)
    } else {
        assert(cs@.skip(0) =~= cs@);
        magnitude(&cs, 0)
    }
}

/// Reads an `i64` as `str::parse::<i64>` does.
pub fn parse_i64(s: &str) -> (r: Option<i64>)
    ensures
        r == parse_i64_of(s@),
{
    let cs = crate::text::chars_of(s);
    if cs.len() > 0 && cs[0] == '-' {
        assert(cs@.skip(1) =~= cs@.drop_first());
        match magnitude(&cs, 1) {
            Some(m) => {
                if m < 0x8000_0000_0000_0000 {
                    Some(-(m as i64))
                } else if m == 0x8000_0000_0000_0000 {
                    Some(i64::MIN)
                } else {
                    None
                }
            },
            None => None,
        }
    } else {
        match parse_u64(s) {
            Some(m) => if m <= i64::MAX as u64 { Some(m as i64) } else { None },
            None => None,
        }
    }
}

proof fn lemma_digit_char(d: int)
    requires
        0 <= d < 10,
    ensures
        is_digit(digit_char(d)),
        digit_char(d) as int - '0' as int == d,
{
}

/// The decimal text of `n` is a non-empty digit string whose value is `n`.
pub proof fn lemma_decimal_digits(n: nat)
    ensures
        decimal_of(n).len() >= 1,
        all_digits(decimal_of(n)),
        digits_value(decimal_of(n)) == n,
    decreases n,
{
    if n < 10 {
        lemma_digit_char(n as int);
        assert(decimal_of(n).drop_last() =~= Seq::<char>::empty());
        assert(digits_value(Seq::<char>::empty()) == 0);
        assert(decimal_of(n).last() == digit_char(n as int));
    } else {
        lemma_decimal_digits(n / 10);
        lemma_digit_char((n % 10) as int);
        let prev = decimal_of(n / 10);
        assert(decimal_of(n).drop_last() =~= prev);
        assert(decimal_of(n).last() == digit_char((n % 10) as int));
        assert((n / 10) * 10 + n % 10 == n) by (nonlinear_arith);
        assert forall|i: int| 0 <= i < decimal_of(n).len() implies is_digit(#[trigger] decimal_of(n)[i]) by {
            if i < prev.len() {
                assert(decimal_of(n)[i] == prev[i]);
            }
        }
    }
}

/// Reading the decimal text of `n` as a `u64` gives `n` back.
pub proof fn parse_u64_of_decimal(n: u64)
    ensures
        parse_u64_of(decimal_of(n as nat)) == Some(n),
{
    lemma_decimal_digits(n as nat);
    assert(is_digit(decimal_of(n as nat)[0]));
}

/// Reading the signed decimal text of `v` as an `i64` gives `v` back.
pub proof fn parse_i64_of_signed_decimal(v: i64)
    ensures
        parse_i64_of(signed_decimal_of(v as int)) == Some(v),
{
    if v < 0 {
        let m = (-(v as int)) as nat;
        lemma_decimal_digits(m);
        let s = signed_decimal_of(v as int);
        assert(s[0] == '-');
        assert(s.drop_first() =~= decimal_of(m));
    } else {
        parse_u64_of_decimal(v as u64);
        lemma_decimal_digits(v as nat);
        assert(is_digit(decimal_of(v as nat)[0]));
    }
}

} // verus!
