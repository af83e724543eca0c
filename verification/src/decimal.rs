//! Decimal text for `i32` values: reading a number out of a form field or a
//! comment path, and writing one back.
use vstd::prelude::*;

use crate::text::push_char;

verus! {

/// `c` is one of the ASCII digits `0` to `9`.
pub open spec fn is_digit(c: char) -> bool {
    '0' <= c && c <= '9'
}

/// The numeric value of an ASCII digit.
pub open spec fn digit_value(c: char) -> int {
    (c as int) - ('0' as int)
}

/// Every character of `s` is an ASCII digit.
pub open spec fn all_digits(s: Seq<char>) -> bool {
    forall|i: int| 0 <= i < s.len() ==> is_digit(#[trigger] s[i])
}

/// The number that a string of ASCII digits denotes in base ten.
pub open spec fn digits_value(s: Seq<char>) -> int
    decreases s.len(),
{
    if s.len() == 0 {
        0
    } else {
        digits_value(s.drop_last()) * 10 + digit_value(s.last())
    }
}

/// The part of a number's text after an optional leading sign.
pub open spec fn unsigned_part(s: Seq<char>) -> Seq<char> {
    if s.len() > 0 && (s[0] == '-' || s[0] == '+') {
        s.drop_first()
    } else {
        s
    }
}

/// The text starts with a minus sign.
pub open spec fn is_negative_text(s: Seq<char>) -> bool {
    s.len() > 0 && s[0] == '-'
}

/// What reading `s` as an `i32` gives: an optional `+` or `-`, then one or
/// more ASCII digits, with a value inside the range of `i32`; anything else
/// (an empty string, a lone sign, spaces, other characters, a value out of
/// range) reads as nothing.
pub open spec fn parse_i32_spec(s: Seq<char>) -> Option<i32> {
    let body = unsigned_part(s);
    if body.len() == 0 || !all_digits(body) {
        None
    } else {
        let v: int = if is_negative_text(s) { -digits_value(body) } else { digits_value(body) };
        if i32::MIN <= v && v <= i32::MAX {
            Some(v as i32)
        } else {
            None
        }
    }
}

/// The ASCII digit for a value below ten.
pub open spec fn digit_char(d: int) -> char {
    (d + ('0' as int)) as char
}

/// The base-ten digits of a natural number, without leading zeros.
pub open spec fn nat_digits(n: nat) -> Seq<char>
    decreases n,
{
    if n < 10 {
        seq![digit_char(n as int)]
    } else {
        nat_digits(n / 10).push(digit_char((n % 10) as int))
    }
}

/// The text of an integer in base ten: a minus sign for negative numbers,
/// then the digits of its magnitude.
pub open spec fn decimal(n: int) -> Seq<char> {
    if n < 0 {
        seq!['-'] + nat_digits((-n) as nat)
    } else {
        nat_digits(n as nat)
    }
}

proof fn lemma_digits_value_monotone(s: Seq<char>)
    requires
        all_digits(s),
    ensures
        digits_value(s) >= 0,
    decreases s.len(),
{
    if s.len() > 0 {
        lemma_digits_value_monotone(s.drop_last());
    }
}

/// The digits of a natural number are ASCII digits and denote that number.
pub proof fn lemma_nat_digits(n: nat)
    ensures
        nat_digits(n).len() >= 1,
        all_digits(nat_digits(n)),
        digits_value(nat_digits(n)) == n,
        is_digit(nat_digits(n)[0]),
    decreases n,
{
    if n < 10 {
        assert(digit_value(digit_char(n as int)) == n);
        assert(nat_digits(n).drop_last() =~= Seq::<char>::empty());
        assert(digits_value(nat_digits(n).drop_last()) == 0);
        assert(digits_value(nat_digits(n)) == n);
    } else {
        lemma_nat_digits(n / 10);
        assert(digit_value(digit_char((n % 10) as int)) == n % 10);
        assert((n / 10) * 10 + n % 10 == n);
        let prev = nat_digits(n / 10);
        let s = nat_digits(n);
        assert(s.drop_last() =~= prev);
        assert forall|i: int| 0 <= i < s.len() implies is_digit(#[trigger] s[i]) by {
            if i < prev.len() {
                assert(s[i] == prev[i]);
            }
        }
        assert(s[0] == prev[0]);
        assert(s.last() == digit_char((n % 10) as int));
        assert(digits_value(s) == digits_value(prev) * 10 + n % 10);
        assert(digits_value(s) == n);
    }
}

/// Writing an integer in base ten and reading it back gives the integer.
pub proof fn law_parse_of_decimal(n: i32)
    ensures
        parse_i32_spec(decimal(n as int)) == Some(n),
{
    let s = decimal(n as int);
    if n < 0 {
        let m = (-(n as int)) as nat;
        lemma_nat_digits(m);
        assert(s.drop_first() =~= nat_digits(m));
        assert(s[0] == '-');
    } else {
        lemma_nat_digits(n as nat);
    }
}

/// Every character of the text of an integer is a digit or the leading minus
/// sign.
pub proof fn lemma_decimal_chars(n: int)
    ensures
        decimal(n).len() >= 1,
        forall|i: int|
            0 <= i < decimal(n).len() ==> is_digit(#[trigger] decimal(n)[i]) || (i == 0
                && decimal(n)[i] == '-'),
{
    if n < 0 {
        let m = (-n) as nat;
        lemma_nat_digits(m);
        let s = decimal(n);
        assert forall|i: int| 0 <= i < s.len() implies is_digit(#[trigger] s[i]) || (i == 0
            && s[i] == '-') by {
            if i > 0 {
                assert(s[i] == nat_digits(m)[i - 1]);
            }
        }
    } else {
        lemma_nat_digits(n as nat);
    }
}

/// The largest magnitude that still matters while reading digits: every
/// larger value is out of range for `i32` whatever its sign.
const CAP: i64 = 2147483649;

/// Reads `s` as an `i32` in base ten, as the standard library's `parse::<i32>`
/// does.
pub fn parse_i32(s: &str) -> (r: Option<i32>)
    ensures
        r == parse_i32_spec(s@),
{
    let len = s.unicode_len();
    let mut start: usize = 0;
    let mut negative = false;
    if len > 0 {
        let c = s.get_char(0);
        if c == '-' {
            negative = true;
            start = 1;
        } else if c == '+' {
            start = 1;
        }
    }
    let ghost body = unsigned_part(s@);
    assert(body =~= s@.subrange(start as int, len as int));
    if start == len {
        return None;
    }
    let mut acc: i64 = 0;
    let mut i: usize = start;
    while i < len
        invariant
            start <= i <= len,
            len == s@.len(),
            body == unsigned_part(s@),
            negative == is_negative_text(s@),
            body =~= s@.subrange(start as int, len as int),
            0 <= acc <= CAP,
            all_digits(s@.subrange(start as int, i as int)),
            acc == if digits_value(s@.subrange(start as int, i as int)) < CAP {
                digits_value(s@.subrange(start as int, i as int))
            } else {
                CAP as int
            },
        decreases len - i,
    {
        let c = s.get_char(i);
        let ghost prefix = s@.subrange(start as int, i as int);
        let ghost next = s@.subrange(start as int, i + 1);
        assert(next.drop_last() =~= prefix);
        assert(next.last() == c);
        if !('0' <= c && c <= '9') {
            assert(!is_digit(body[i - start]));
            return None;
        }
        proof {
            lemma_digits_value_monotone(prefix);
        }
        let d = (c as u32 - '0' as u32) as i64;
        let v = acc * 10 + d;
        acc = if v < CAP { v } else { CAP };
        assert forall|j: int| 0 <= j < next.len() implies is_digit(#[trigger] next[j]) by {
            if j < prefix.len() {
                assert(next[j] == prefix[j]);
            }
        }
        i = i + 1;
    }
    assert(s@.subrange(start as int, i as int) =~= body);
    let value: i64 = if negative { -acc } else { acc };
    if -2147483648 <= value && value <= 2147483647 {
        Some(value as i32)
    } else {
        None
    }
}

/// Appends the base-ten digits of `m` to `out`.
fn push_digits(m: u32, out: &mut String)
    ensures
        final(out)@ == old(out)@ + nat_digits(m as nat),
    decreases m,
{
    if m >= 10 {
        push_digits(m / 10, out);
    }
    let d: u8 = (m % 10) as u8;
    let c: char = (d + 48u8) as char;
    assert(c == digit_char((m % 10) as int));
    push_char(out, c);
    assert(nat_digits(m as nat) == if m < 10 {
        seq![digit_char(m as int)]
    } else {
        nat_digits((m / 10) as nat).push(digit_char((m % 10) as int))
    });
    if m < 10 {
        assert(old(out)@ + nat_digits(m as nat) =~= old(out)@.push(c));
    } else {
        assert(old(out)@ + nat_digits(m as nat) =~= (old(out)@ + nat_digits((m / 10) as nat)).push(c));
    }
}

/// Writes `n` in base ten, as the standard library's `to_string` does for an
/// `i32`.
pub fn format_i32(n: i32) -> (r: String)
    ensures
        r@ == decimal(n as int),
{
    let mut out = String::new();
    if n < 0 {
        push_char(&mut out, '-');
        let m: u32 = if n == i32::MIN { 2147483648u32 } else { (-n) as u32 };
        push_digits(m, &mut out);
        assert(out@ =~= decimal(n as int));
    } else {
        push_digits(n as u32, &mut out);
        assert(out@ =~= decimal(n as int));
    }
    out
}

} // verus!
