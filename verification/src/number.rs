//! Unsigned decimal numbers as text: reading them and writing them.

use vstd::prelude::*;
use vstd::string::*;
use crate::text::Span;

verus! {

/// Whether `c` is one of the digits `0` to `9`.
pub open spec fn is_digit(c: char) -> bool {
    48 <= c as u32 <= 57
}

/// The value of the digit `c`.
pub open spec fn digit_value(c: char) -> nat {
    (c as u32 - 48) as nat
}

/// Whether every character of `s` is a digit.
pub open spec fn all_digits(s: Seq<char>) -> bool {
    forall|i: int| 0 <= i < s.len() ==> is_digit(#[trigger] s[i])
}

/// The number that the digits of `s` write in base ten.
pub open spec fn digits_value(s: Seq<char>) -> nat
    decreases s.len(),
{
    if s.len() == 0 {
        0
    } else {
        digits_value(s.drop_last()) * 10 + digit_value(s.last())
    }
}

/// The digits of a number's text: the text itself, less one leading `+`.
pub open spec fn unsigned_digits(s: Seq<char>) -> Seq<char> {
    if s.len() > 0 && s[0] == '+' {
        s.drop_first()
    } else {
        s
    }
}

/// Reads `s` as an unsigned decimal number no greater than `max`: an optional
/// `+`, then one or more digits and nothing else. `None` where `s` is not of
/// that form or the number is too large.
pub open spec fn parse_unsigned(s: Seq<char>, max: nat) -> Option<nat> {
    let d = unsigned_digits(s);
    if d.len() > 0 && all_digits(d) && digits_value(d) <= max {
        Some(digits_value(d))
    } else {
        None
    }
}

/// A longer run of digits never writes a smaller number than its beginning.
pub proof fn lemma_digits_value_prefix(s: Seq<char>, k: int)
    requires
        0 <= k <= s.len(),
    ensures
        digits_value(s.take(k)) <= digits_value(s),
    decreases s.len() - k,
{
    if k < s.len() {
        lemma_digits_value_prefix(s, k + 1);
        assert(s.take(k + 1).drop_last() == s.take(k));
        assert(digits_value(s.take(k)) * 10 >= digits_value(s.take(k)));
    } else {
        assert(s.take(k) == s);
    }
}

/// Reads the text that `span` selects as a `u64`.
pub fn parse_u64(chars: &Vec<char>, span: Span) -> (r: Option<u64>)
    requires
        span.within(chars@.len()),
    ensures
        r is Some <==> parse_unsigned(span.of(chars@), u64::MAX as nat) is Some,
        r matches Some(v) ==> parse_unsigned(span.of(chars@), u64::MAX as nat) == Some(v as nat),
{
    let mut i: usize = span.start;
    if i < span.end && chars[i] == '+' {
        i = i + 1;
    }
    let first: usize = i;
    let ghost d = chars@.subrange(first as int, span.end as int);
    assert(d == unsigned_digits(span.of(chars@)));
    if i == span.end {
        return None;
    }
    let mut acc: u64 = 0;
    while i < span.end
        invariant
            span.within(chars@.len()),
            span.start <= first <= i <= span.end,
            d == chars@.subrange(first as int, span.end as int),
            d == unsigned_digits(span.of(chars@)),
            all_digits(d.take(i - first)),
            acc == digits_value(d.take(i - first)),
        decreases span.end - i,
    {
        let u: u32 = chars[i] as u32;
        if u < 48 || u > 57 {
            assert(!is_digit(d[i - first]));
            return None;
        }
        let digit: u64 = (u - 48) as u64;
        proof {
            assert(d.take(i - first + 1).drop_last() == d.take(i - first));
            assert(d.take(i - first + 1).last() == chars@[i as int]);
            lemma_digits_value_prefix(d, i - first + 1);
            assert(digits_value(d.take(i - first + 1)) == acc * 10 + digit);
        }
        let shifted = match acc.checked_mul(10) {
            Some(v) => v,
            None => {
                return None;
            },
        };
        acc = match shifted.checked_add(digit) {
            Some(v) => v,
            None => {
                return None;
            },
        };
        assert forall|k: int| 0 <= k < i - first + 1 implies is_digit(
            #[trigger] d.take(i - first + 1)[k],
        ) by {
            if k < i - first {
                assert(d.take(i - first)[k] == d[k]);
            }
        }
        i = i + 1;
    }
    assert(d.take(i - first) == d);
    Some(acc)
}

/// Reads the text that `span` selects as a `u32`.
pub fn parse_u32(chars: &Vec<char>, span: Span) -> (r: Option<u32>)
    requires
        span.within(chars@.len()),
    ensures
        r is Some <==> parse_unsigned(span.of(chars@), u32::MAX as nat) is Some,
        r matches Some(v) ==> parse_unsigned(span.of(chars@), u32::MAX as nat) == Some(v as nat),
{
    match parse_u64(chars, span) {
        Some(v) => {
            if v <= 0xFFFF_FFFF {
                Some(v as u32)
            } else {
                None
            }
        },
        None => None,
    }
}

/// The character that writes the digit `d`.
pub open spec fn digit_char(d: nat) -> char {
    (48 + d) as char
}

/// The decimal text of `n`, without sign or leading zeros.
pub open spec fn decimal(n: nat) -> Seq<char>
    decreases n,
{
    if n < 10 {
        seq![digit_char(n)]
    } else {
        decimal(n / 10).push(digit_char(n % 10))
    }
}

/// The one-character string for a digit.
fn digit_str(d: u8) -> (s: &'static str)
    requires
        d < 10,
    ensures
        s@ == seq![digit_char(d as nat)],
{
    proof {
        reveal_strlit("0");
        reveal_strlit("1");
        reveal_strlit("2");
        reveal_strlit("3");
        reveal_strlit("4");
        reveal_strlit("5");
        reveal_strlit("6");
        reveal_strlit("7");
        reveal_strlit("8");
        reveal_strlit("9");
    }
    let s = match d {
        0 => "0",
        1 => "1",
        2 => "2",
        3 => "3",
        4 => "4",
        5 => "5",
        6 => "6",
        7 => "7",
        8 => "8",
        _ => "9",
    };
    assert(s@ =~= seq![digit_char(d as nat)]);
    s
}

/// Writes `n` in decimal.
pub fn to_decimal(n: u128) -> (s: String)
    ensures
        s@ == decimal(n as nat),
    decreases n,
{
    if n < 10 {
        String::from_str(digit_str(n as u8))
    } else {
        let mut s = to_decimal(n / 10);
        s.append(digit_str((n % 10) as u8));
        assert(s@ =~= decimal(n as nat));
        s
    }
}

} // verus!
