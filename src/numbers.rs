//! Decimal numbers in text: parsing as `str::parse` accepts them, and printing.

use vstd::prelude::*;

use crate::text::push_char;

verus! {

/// Value of a decimal digit character.
pub open spec fn digit_val(c: char) -> int {
    if c == '0' { 0 } else if c == '1' { 1 } else if c == '2' { 2 } else if c == '3' { 3 }
    else if c == '4' { 4 } else if c == '5' { 5 } else if c == '6' { 6 } else if c == '7' { 7 }
    else if c == '8' { 8 } else { 9 }
}

/// Whether `c` is an ASCII decimal digit.
pub open spec fn is_digit(c: char) -> bool {
    '0' <= c <= '9'
}

/// Whether every character of `s` is a digit.
pub open spec fn all_digits(s: Seq<char>) -> bool {
    forall|i: int| 0 <= i < s.len() ==> is_digit(#[trigger] s[i])
}

/// Value of a string of digits.
pub open spec fn digits_value(s: Seq<char>) -> int
    decreases s.len(),
{
    if s.len() == 0 {
        0
    } else {
        digits_value(s.drop_last()) * 10 + digit_val(s.last())
    }
}

/// Value of unsigned decimal text: an optional `+`, then one or more digits.
pub open spec fn unsigned_value(s: Seq<char>) -> Option<int> {
    let d = if s.len() > 0 && s[0] == '+' { s.drop_first() } else { s };
    if d.len() > 0 && all_digits(d) {
        Some(digits_value(d))
    } else {
        None
    }
}

/// Value of signed decimal text: an optional `+` or `-`, then one or more digits.
pub open spec fn signed_value(s: Seq<char>) -> Option<int> {
    if s.len() > 0 && s[0] == '-' {
        let d = s.drop_first();
        if d.len() > 0 && all_digits(d) {
            Some(-digits_value(d))
        } else {
            None
        }
    } else {
        unsigned_value(s)
    }
}

pub proof fn lemma_digits_value_nonneg(s: Seq<char>)
    ensures
        digits_value(s) >= 0,
    decreases s.len(),
{
    if s.len() > 0 {
        lemma_digits_value_nonneg(s.drop_last());
    }
}

/// Unsigned text denotes a non-negative value.
pub proof fn lemma_unsigned_value_nonneg(s: Seq<char>)
    ensures
        unsigned_value(s) matches Some(n) ==> n >= 0,
{
    lemma_digits_value_nonneg(if s.len() > 0 && s[0] == '+' { s.drop_first() } else { s });
}

fn digit_value(c: char) -> (r: u64)
    requires
        is_digit(c),
    ensures
        r == digit_val(c),
{
    if c == '0' { 0 } else if c == '1' { 1 } else if c == '2' { 2 } else if c == '3' { 3 }
    else if c == '4' { 4 } else if c == '5' { 5 } else if c == '6' { 6 } else if c == '7' { 7 }
    else if c == '8' { 8 } else { 9 }
}

/// Value of the digits `v[lo..hi]`, if all are digits and the value fits in `u64`.
fn digits_u64(v: &Vec<char>, lo: usize, hi: usize) -> (r: Option<u64>)
    requires
        lo <= hi <= v@.len(),
    ensures
        r matches Some(n) ==> all_digits(v@.subrange(lo as int, hi as int)) && n == digits_value(v@.subrange(lo as int, hi as int)),
        r is None ==> !all_digits(v@.subrange(lo as int, hi as int)) || digits_value(v@.subrange(lo as int, hi as int)) > u64::MAX,
{
    let mut acc: u64 = 0;
    let mut i = lo;
    while i < hi
        invariant
            lo <= i <= hi <= v@.len(),
            all_digits(v@.subrange(lo as int, i as int)),
            acc == digits_value(v@.subrange(lo as int, i as int)),
        decreases hi - i,
    {
        let ghost s = v@.subrange(lo as int, i as int + 1);
        assert(s.drop_last() =~= v@.subrange(lo as int, i as int));
        if !('0' <= v[i] && v[i] <= '9') {
            assert(!all_digits(v@.subrange(lo as int, hi as int))) by {
                assert(v@.subrange(lo as int, hi as int)[i - lo] == v@[i as int]);
            }
            return None;
        }
        let d = digit_value(v[i]);
        if acc > (u64::MAX - d) / 10 {
            proof {
                assert(acc * 10 + d > u64::MAX) by (nonlinear_arith)
                    requires acc > (u64::MAX - d) / 10, d <= 9;
                lemma_prefix_value_bound(v@.subrange(lo as int, hi as int), i - lo + 1);
                assert(v@.subrange(lo as int, hi as int).take(i - lo + 1) =~= s);
            }
            return None;
        }
        acc = acc * 10 + d;
        i = i + 1;
        assert(all_digits(v@.subrange(lo as int, i as int))) by {
            assert forall|j: int| 0 <= j < i - lo implies is_digit(#[trigger] v@.subrange(lo as int, i as int)[j]) by {
                if j < i - 1 - lo {
                    assert(v@.subrange(lo as int, i as int)[j] == v@.subrange(lo as int, i - 1)[j]);
                }
            }
        }
    }
    Some(acc)
}

/// A digit string's value is at least that of each of its prefixes.
proof fn lemma_prefix_value_bound(s: Seq<char>, k: int)
    requires
        0 <= k <= s.len(),
    ensures
        all_digits(s) ==> digits_value(s) >= digits_value(s.take(k)),
    decreases s.len(),
{
    if k < s.len() && all_digits(s) {
        assert(s.drop_last().take(k) =~= s.take(k));
        assert(all_digits(s.drop_last()));
        lemma_prefix_value_bound(s.drop_last(), k);
        lemma_digits_value_nonneg(s.drop_last());
        assert(digit_val(s.last()) >= 0);
    } else if k == s.len() {
        assert(s.take(k) =~= s);
    }
}

/// Parses unsigned decimal text, as `u64::from_str` does.
pub fn parse_u64(v: &Vec<char>, lo: usize, hi: usize) -> (r: Option<u64>)
    requires
        lo <= hi <= v@.len(),
    ensures
        match unsigned_value(v@.subrange(lo as int, hi as int)) {
            Some(n) => if n <= u64::MAX { r == Some(n as u64) } else { r is None },
            None => r is None,
        },
        r matches Some(n) ==> unsigned_value(v@.subrange(lo as int, hi as int)) == Some(n as int),
{
    let ghost s = v@.subrange(lo as int, hi as int);
    proof {
        lemma_digits_value_nonneg(if s.len() > 0 && s[0] == '+' { s.drop_first() } else { s });
    }
    let start = if lo < hi && v[lo] == '+' { lo + 1 } else { lo };
    assert(s.len() > 0 ==> s[0] == v@[lo as int]);
    assert(v@.subrange(start as int, hi as int) =~= (if s.len() > 0 && s[0] == '+' { s.drop_first() } else { s }));
    if start == hi {
        return None;
    }
    let r = digits_u64(v, start, hi);
    r
}

/// Parses signed decimal text, as `i64::from_str` does.
pub fn parse_i64(v: &Vec<char>, lo: usize, hi: usize) -> (r: Option<i64>)
    requires
        lo <= hi <= v@.len(),
    ensures
        match signed_value(v@.subrange(lo as int, hi as int)) {
            Some(n) => if i64::MIN <= n <= i64::MAX { r == Some(n as i64) } else { r is None },
            None => r is None,
        },
{
    let ghost s = v@.subrange(lo as int, hi as int);
    let negative = lo < hi && v[lo] == '-';
    assert(negative == (s.len() > 0 && s[0] == '-')) by {
        if s.len() > 0 {
            assert(s[0] == v@[lo as int]);
        }
    }
    if negative {
        assert(v@.subrange(lo + 1, hi as int) =~= s.drop_first());
        if lo + 1 == hi {
            return None;
        }
        let m = digits_u64(v, lo + 1, hi);
        proof {
            lemma_digits_value_nonneg(s.drop_first());
        }
        match m {
            Some(n) => {
                if n <= 9223372036854775808 {
                    let k = (0 - (n as i128)) as i64;
                    assert(k == -(n as int));
                    Some(k)
                } else {
                    None
                }
            },
            None => None,
        }
    } else {
        let m = parse_u64(v, lo, hi);
        proof {
            if let Some(n) = unsigned_value(s) {
                let d = if s.len() > 0 && s[0] == '+' { s.drop_first() } else { s };
                lemma_digits_value_nonneg(d);
            }
        }
        match m {
            Some(n) => {
                if n <= 9223372036854775807 {
                    Some(n as i64)
                } else {
                    None
                }
            },
            None => None,
        }
    }
}

/// The digit character for `d`.
pub open spec fn digit_char(d: int) -> char {
    if d == 0 { '0' } else if d == 1 { '1' } else if d == 2 { '2' } else if d == 3 { '3' }
    else if d == 4 { '4' } else if d == 5 { '5' } else if d == 6 { '6' } else if d == 7 { '7' }
    else if d == 8 { '8' } else { '9' }
}

/// Decimal text of `n`, without leading zeros.
pub open spec fn decimal(n: nat) -> Seq<char>
    decreases n,
{
    if n < 10 {
        seq![digit_char(n as int)]
    } else {
        decimal(n / 10).push(digit_char(n as int % 10))
    }
}

fn digit_to_char(d: u64) -> (r: char)
    requires
        d < 10,
    ensures
        r == digit_char(d as int),
{
    if d == 0 { '0' } else if d == 1 { '1' } else if d == 2 { '2' } else if d == 3 { '3' }
    else if d == 4 { '4' } else if d == 5 { '5' } else if d == 6 { '6' } else if d == 7 { '7' }
    else if d == 8 { '8' } else { '9' }
}

/// Decimal text of `n`, as `to_string` prints it.
pub fn decimal_string(n: u64) -> (r: String)
    ensures
        r@ == decimal(n as nat),
    decreases n,
{
    if n < 10 {
        let mut r = String::new();
        push_char(&mut r, digit_to_char(n));
        assert(r@ =~= decimal(n as nat));
        r
    } else {
        let mut r = decimal_string(n / 10);
        push_char(&mut r, digit_to_char(n % 10));
        r
    }
}

} // verus!
