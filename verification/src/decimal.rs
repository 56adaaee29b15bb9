//! Unsigned decimal numbers as text: reading a byte count from a form
//! field and writing one into a payload.

use vstd::prelude::*;
use crate::text::chars_of;

verus! {

/// Whether `c` is one of the ten ASCII digits.
pub open spec fn is_digit(c: char) -> bool {
    '0' <= c <= '9'
}

/// The value of an ASCII digit.
pub open spec fn digit_value(c: char) -> nat {
    (c as nat - '0' as nat) as nat
}

/// Whether every character of `s` is an ASCII digit.
pub open spec fn all_digits(s: Seq<char>) -> bool {
    forall|i: int| 0 <= i < s.len() ==> is_digit(#[trigger] s[i])
}

/// The number that a run of digits denotes in base ten; the empty run
/// denotes zero.
pub open spec fn decimal_value(digits: Seq<char>) -> nat
    decreases digits.len(),
{
    if digits.len() == 0 {
        0
    } else {
        decimal_value(digits.drop_last()) * 10 + digit_value(digits.last())
    }
}

/// The digits of a number text: the text without its optional leading `+`.
pub open spec fn digits_of(text: Seq<char>) -> Seq<char> {
    if text.len() > 0 && text[0] == '+' {
        text.skip(1)
    } else {
        text
    }
}

/// What a text denotes as an unsigned decimal number: an optional `+`
/// followed by at least one ASCII digit and nothing else. There is no
/// value for any other text, in particular not for the empty text, a
/// lone sign, or a text with blanks.
pub open spec fn parse_decimal(text: Seq<char>) -> Option<nat> {
    let digits = digits_of(text);
    if digits.len() > 0 && all_digits(digits) {
        Some(decimal_value(digits))
    } else {
        None
    }
}

/// What a text denotes as a machine size: its decimal value, provided
/// that it has one and that the value fits.
pub open spec fn parse_size(text: Seq<char>) -> Option<usize> {
    match parse_decimal(text) {
        Some(v) => if v <= usize::MAX {
            Some(v as usize)
        } else {
            None
        },
        None => None,
    }
}

/// A longer run of digits never denotes a smaller number than its
/// beginning.
pub proof fn lemma_decimal_value_prefix(digits: Seq<char>, n: int)
    requires
        0 <= n <= digits.len(),
    ensures
        decimal_value(digits.take(n)) <= decimal_value(digits),
    decreases digits.len(),
{
    if n == digits.len() {
        assert(digits.take(n) == digits);
    } else {
        lemma_decimal_value_prefix(digits.drop_last(), n);
        assert(digits.drop_last().take(n) == digits.take(n));
    }
}

/// The ASCII digit for a value below ten.
pub open spec fn digit_char(value: nat) -> char {
    ('0' as nat + value) as char
}

/// The digits that write `value` in base ten, without leading zeros.
pub open spec fn decimal_digits(value: nat) -> Seq<char>
    decreases value,
{
    if value < 10 {
        seq![digit_char(value)]
    } else {
        decimal_digits(value / 10).push(digit_char(value % 10))
    }
}

/// Writing a number and reading it back gives the number.
pub proof fn lemma_decimal_round_trip(value: nat)
    ensures
        decimal_digits(value).len() > 0,
        all_digits(decimal_digits(value)),
        decimal_value(decimal_digits(value)) == value,
        parse_decimal(decimal_digits(value)) == Some(value),
    decreases value,
{
    let digits = decimal_digits(value);
    if value < 10 {
        assert(digits.drop_last() =~= Seq::<char>::empty());
        assert(decimal_value(digits.drop_last()) == 0);
    } else {
        lemma_decimal_round_trip(value / 10);
        assert(digits.drop_last() =~= decimal_digits(value / 10));
        assert(digits.last() == digit_char(value % 10));
    }
    assert(digits[0] != '+');
}

/// Appends the decimal digits of `value` to `out`.
pub fn push_decimal(out: &mut Vec<char>, value: usize)
    ensures
        final(out)@ == old(out)@ + decimal_digits(value as nat),
{
    let mut reversed: Vec<char> = Vec::new();
    let mut rest: usize = value;
    while rest >= 10
        invariant
            decimal_digits(value as nat) == decimal_digits(rest as nat) + reversed@.reverse(),
        decreases rest,
    {
        let digit = to_digit((rest % 10) as u8);
        let ghost before = reversed@;
        reversed.push(digit);
        proof {
            assert(reversed@.reverse() =~= seq![digit] + before.reverse());
            assert(decimal_digits(rest as nat) == decimal_digits((rest / 10) as nat).push(digit));
            assert(decimal_digits((rest / 10) as nat).push(digit) + before.reverse()
                =~= decimal_digits((rest / 10) as nat) + reversed@.reverse());
        }
        rest = rest / 10;
    }
    out.push(to_digit(rest as u8));
    let ghost head = old(out)@ + decimal_digits(rest as nat);
    assert(out@ =~= head);
    let mut i: usize = reversed.len();
    while i > 0
        invariant
            i <= reversed.len(),
            out@ == head + reversed@.reverse().take(reversed.len() - i),
        decreases i,
    {
        i -= 1;
        out.push(reversed[i]);
        assert(reversed@.reverse().take(reversed.len() - i) =~= reversed@.reverse().take(
            reversed.len() - i - 1,
        ).push(reversed@[i as int]));
    }
    assert(reversed@.reverse().take(reversed.len() as int) =~= reversed@.reverse());
    assert(head + reversed@.reverse() =~= old(out)@ + (decimal_digits(rest as nat)
        + reversed@.reverse()));
}

/// The ASCII digit for a value below ten.
pub fn to_digit(value: u8) -> (c: char)
    requires
        value < 10,
    ensures
        c == digit_char(value as nat),
{
    (48u8 + value) as char
}

/// Reads a machine size from a text.
pub fn read_size(text: &str) -> (size: Option<usize>)
    ensures
        size == parse_size(text@),
{
    let chars = chars_of(text);
    let start: usize = if chars.len() > 0 && chars[0] == '+' {
        1
    } else {
        0
    };
    let ghost digits = digits_of(text@);
    assert(digits == chars@.skip(start as int));
    if start == chars.len() {
        return None;
    }
    let mut value: usize = 0;
    let mut i: usize = start;
    while i < chars.len()
        invariant
            start <= i <= chars.len(),
            digits == chars@.skip(start as int),
            digits == digits_of(text@),
            all_digits(digits.take(i - start)),
            value == decimal_value(digits.take(i - start)),
        decreases chars.len() - i,
    {
        let c = chars[i];
        let ghost upto = digits.take(i - start + 1);
        assert(upto.drop_last() == digits.take(i - start));
        assert(upto.last() == c);
        if !('0' <= c && c <= '9') {
            assert(!is_digit(digits[i - start]));
            return None;
        }
        let d: usize = (c as u32 - '0' as u32) as usize;
        assert(d == digit_value(c));
        let next = match value.checked_mul(10) {
            Some(scaled) => scaled.checked_add(d),
            None => None,
        };
        match next {
            Some(n) => {
                value = n;
            },
            None => {
                proof {
                    assert(decimal_value(upto) > usize::MAX);
                    lemma_decimal_value_prefix(digits, i - start + 1);
                }
                return None;
            },
        }
        assert forall|k: int| 0 <= k < upto.len() implies is_digit(#[trigger] upto[k]) by {
            if k < upto.len() - 1 {
                assert(upto[k] == digits.take(i - start)[k]);
            }
        }
        i += 1;
    }
    assert(digits.take(i - start) == digits);
    Some(value)
}

} // verus!
