//! Decimal numbers in text: parsing, as std's `FromStr` for integers accepts
//! them, and printing.

use vstd::prelude::*;
use crate::text::{chars_of, push_char};

verus! {

pub open spec fn is_digit(c: char) -> bool {
    '0' <= c && c <= '9'
}

pub open spec fn all_digits(s: Seq<char>) -> bool {
    forall|i: int| 0 <= i < s.len() ==> is_digit(#[trigger] s[i])
}

pub open spec fn digit_value(c: char) -> int {
    c as int - '0' as int
}

/// The value of a string of decimal digits.
pub open spec fn digits_value(s: Seq<char>) -> int
    decreases s.len(),
{
    if s.len() == 0 {
        0
    } else {
        digits_value(s.drop_last()) * 10 + digit_value(s.last())
    }
}

/// The integer that `s` writes: an optional `+` or `-` followed by one or more
/// ASCII digits, and nothing else (std's grammar for integers in `FromStr`).
pub open spec fn decimal_value(s: Seq<char>) -> Option<int> {
    if s.len() > 0 && (s[0] == '+' || s[0] == '-') {
        let d = s.drop_first();
        if d.len() > 0 && all_digits(d) {
            Some(if s[0] == '-' { -digits_value(d) } else { digits_value(d) })
        } else {
            None
        }
    } else if s.len() > 0 && all_digits(s) {
        Some(digits_value(s))
    } else {
        None
    }
}

/// The value that parsing `s` as an integer in `[lo, hi]` gives, if any.
pub open spec fn parse_in_range(s: Seq<char>, lo: int, hi: int) -> Option<int> {
    match decimal_value(s) {
        Some(v) => if lo <= v <= hi {
            Some(v)
        } else {
            None
        },
        None => None,
    }
}

proof fn lemma_digits_nonneg(s: Seq<char>)
    requires
        all_digits(s),
    ensures
        digits_value(s) >= 0,
    decreases s.len(),
{
    if s.len() > 0 {
        assert(is_digit(s[s.len() - 1]));
        assert(all_digits(s.drop_last())) by {
            assert forall|i: int| 0 <= i < s.drop_last().len() implies is_digit(
                #[trigger] s.drop_last()[i],
            ) by {
                assert(s.drop_last()[i] == s[i]);
            }
        }
        lemma_digits_nonneg(s.drop_last());
    }
}

proof fn lemma_digits_prefix_le(s: Seq<char>, k: int)
    requires
        all_digits(s),
        0 <= k <= s.len(),
    ensures
        digits_value(s.take(k)) <= digits_value(s),
    decreases s.len() - k,
{
    if k < s.len() {
        let t = s.take(k + 1);
        assert(t.drop_last() =~= s.take(k));
        assert(t.last() == s[k]);
        assert(is_digit(s[k]));
        assert(all_digits(s.take(k))) by {
            assert forall|i: int| 0 <= i < s.take(k).len() implies is_digit(
                #[trigger] s.take(k)[i],
            ) by {
                assert(s.take(k)[i] == s[i]);
            }
        }
        lemma_digits_nonneg(s.take(k));
        lemma_digits_prefix_le(s, k + 1);
    } else {
        assert(s.take(k) =~= s);
    }
}

/// The value of the digits `c[start..]`, or `None` where one is not a digit or
/// the value exceeds `limit`.
fn digits_up_to(c: &Vec<char>, start: usize, limit: i128) -> (res: Option<i128>)
    requires
        start <= c@.len(),
        0 <= limit < 0x1_0000_0000_0000_0000_0000,
    ensures
        match res {
            Some(v) => all_digits(c@.skip(start as int)) && v == digits_value(c@.skip(start as int))
                && 0 <= v <= limit,
            None => !all_digits(c@.skip(start as int)) || digits_value(c@.skip(start as int))
                > limit,
        },
{
    let ghost d = c@.skip(start as int);
    let mut acc: i128 = 0;
    let mut i: usize = start;
    while i < c.len()
        invariant
            start <= i <= c@.len(),
            d == c@.skip(start as int),
            0 <= limit < 0x1_0000_0000_0000_0000_0000,
            all_digits(d.take(i - start)),
            acc == digits_value(d.take(i - start)),
            0 <= acc <= limit,
        decreases c@.len() - i,
    {
        let ch = c[i];
        if !('0' <= ch && ch <= '9') {
            assert(d[i - start] == ch);
            return None;
        }
        let dv: i128 = (ch as u32 - '0' as u32) as i128;
        let next = acc * 10 + dv;
        proof {
            let t = d.take(i - start + 1);
            assert(t.drop_last() =~= d.take(i - start));
            assert(t.last() == ch);
            assert(all_digits(t)) by {
                assert forall|j: int| 0 <= j < t.len() implies is_digit(#[trigger] t[j]) by {
                    if j < t.len() - 1 {
                        assert(t[j] == d.take(i - start)[j]);
                    }
                }
            }
        }
        if next > limit {
            proof {
                if all_digits(d) {
                    lemma_digits_prefix_le(d, i - start + 1);
                }
            }
            return None;
        }
        acc = next;
        i = i + 1;
    }
    assert(d.take(i - start) =~= d);
    Some(acc)
}

/// Parses `s` as an integer in `[lo, hi]`, by the grammar of `decimal_value`.
pub fn parse_int_in(s: &str, lo: i64, hi: i64) -> (res: Option<i64>)
    requires
        lo <= 0 <= hi,
    ensures
        match res {
            Some(v) => parse_in_range(s@, lo as int, hi as int) == Some(v as int),
            None => parse_in_range(s@, lo as int, hi as int) is None,
        },
{
    let c = chars_of(s);
    if c.len() == 0 {
        return None;
    }
    let first = c[0];
    assert(s@[0] == first);
    if first == '+' || first == '-' {
        if c.len() == 1 {
            return None;
        }
        let neg = first == '-';
        let limit: i128 = if neg { -(lo as i128) } else { hi as i128 };
        assert(c@.skip(1) =~= s@.drop_first());
        match digits_up_to(&c, 1, limit) {
            Some(v) => {
                if neg {
                    Some((-v) as i64)
                } else {
                    Some(v as i64)
                }
            },
            None => None,
        }
    } else {
        assert(c@.skip(0) =~= s@);
        match digits_up_to(&c, 0, hi as i128) {
            Some(v) => Some(v as i64),
            None => None,
        }
    }
}

/// std's `i64::from_str` (`str::parse::<i64>`), by its documented grammar.
pub fn parse_i64(s: &str) -> (res: Option<i64>)
    ensures
        match res {
            Some(v) => parse_in_range(s@, i64::MIN as int, i64::MAX as int) == Some(v as int),
            None => parse_in_range(s@, i64::MIN as int, i64::MAX as int) is None,
        },
{
    parse_int_in(s, i64::MIN, i64::MAX)
}

/// std's `i32::from_str` (`str::parse::<i32>`), by its documented grammar.
pub fn parse_i32(s: &str) -> (res: Option<i32>)
    ensures
        match res {
            Some(v) => parse_in_range(s@, i32::MIN as int, i32::MAX as int) == Some(v as int),
            None => parse_in_range(s@, i32::MIN as int, i32::MAX as int) is None,
        },
{
    match parse_int_in(s, i32::MIN as i64, i32::MAX as i64) {
        Some(v) => Some(v as i32),
        None => None,
    }
}

pub open spec fn digit_char(d: nat) -> char {
    (d + '0' as nat) as char
}

/// The decimal digits of `n`, without leading zeros.
pub open spec fn decimal_digits(n: nat) -> Seq<char>
    decreases n,
{
    if n < 10 {
        seq![digit_char(n)]
    } else {
        decimal_digits(n / 10).push(digit_char(n % 10))
    }
}

fn push_digit(s: &mut String, d: u8)
    requires
        d < 10,
    ensures
        final(s)@ == old(s)@.push(digit_char(d as nat)),
{
    let c: char = if d == 0 {
        '0'
    } else if d == 1 {
        '1'
    } else if d == 2 {
        '2'
    } else if d == 3 {
        '3'
    } else if d == 4 {
        '4'
    } else if d == 5 {
        '5'
    } else if d == 6 {
        '6'
    } else if d == 7 {
        '7'
    } else if d == 8 {
        '8'
    } else {
        '9'
    };
    push_char(s, c);
}

/// Appends the decimal digits of a byte to `s`.
pub fn push_u8_decimal(s: &mut String, n: u8)
    ensures
        final(s)@ == old(s)@ + decimal_digits(n as nat),
{
    let ghost start = s@;
    if n < 10 {
        push_digit(s, n);
        assert(s@ =~= start + decimal_digits(n as nat));
    } else if n < 100 {
        push_digit(s, n / 10);
        push_digit(s, n % 10);
        assert(decimal_digits((n / 10) as nat) =~= seq![digit_char((n / 10) as nat)]);
        assert(s@ =~= start + decimal_digits(n as nat));
    } else {
        push_digit(s, n / 100);
        push_digit(s, (n / 10) % 10);
        push_digit(s, n % 10);
        assert(decimal_digits((n / 100) as nat) =~= seq![digit_char((n / 100) as nat)]);
        assert((n / 10) as nat / 10 == (n / 100) as nat);
        assert(decimal_digits((n / 10) as nat) =~= seq![digit_char((n / 100) as nat)].push(
            digit_char(((n / 10) % 10) as nat),
        ));
        assert(s@ =~= start + decimal_digits(n as nat));
    }
}

} // verus!
