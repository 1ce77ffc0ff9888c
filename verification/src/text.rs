//! Decimal text of whole numbers and of amounts.

use crate::decimal::{magnitude, round_div, wide_round_div, Decimal};
use crate::decimal_text::{lemma_pow10_small, pow10, PLACES};
use vstd::prelude::*;
use vstd::string::*;

verus! {

/// The character that writes the digit `d`.
pub open spec fn digit_char(d: int) -> char {
    if d == 0 {
        '0'
    } else if d == 1 {
        '1'
    } else if d == 2 {
        '2'
    } else if d == 3 {
        '3'
    } else if d == 4 {
        '4'
    } else if d == 5 {
        '5'
    } else if d == 6 {
        '6'
    } else if d == 7 {
        '7'
    } else if d == 8 {
        '8'
    } else {
        '9'
    }
}

/// The decimal digits of `n`, most significant first, without leading
/// zeros; zero is written `0`.
pub open spec fn digits(n: nat) -> Seq<char>
    decreases n,
{
    if n < 10 {
        seq![digit_char(n as int)]
    } else {
        digits(n / 10).push(digit_char((n % 10) as int))
    }
}

/// The one-character text of a digit.
pub fn digit_text(d: usize) -> (r: &'static str)
    requires
        d < 10,
    ensures
        r@ == seq![digit_char(d as int)],
{
    proof {
        reveal_strlit("0");
        reveal_strlit("1");
        reveal_strlit("2");
        reveal_strlit("3");
        reveal_strlit("4");
        reveal_strlit("5");
        reveal_strlit("6");
        reveal_strlit("7");
        reveal_strlit("8");
        reveal_strlit("9");
    }
    let r = if d == 0 {
        "0"
    } else if d == 1 {
        "1"
    } else if d == 2 {
        "2"
    } else if d == 3 {
        "3"
    } else if d == 4 {
        "4"
    } else if d == 5 {
        "5"
    } else if d == 6 {
        "6"
    } else if d == 7 {
        "7"
    } else if d == 8 {
        "8"
    } else {
        "9"
    };
    assert(r@ =~= seq![digit_char(d as int)]);
    r
}

/// Appends the decimal digits of `n` to `text`.
pub fn push_number(text: &mut String, n: usize)
    ensures
        final(text)@ == old(text)@ + digits(n as nat),
    decreases n,
{
    if n < 10 {
        text.append(digit_text(n));
    } else {
        push_number(text, n / 10);
        text.append(digit_text(n % 10));
        assert(final(text)@ =~= old(text)@ + digits(n as nat));
    }
}

/// The text `prefix` followed by the decimal digits of `n`.
pub fn numbered(prefix: &str, n: usize) -> (res: String)
    ensures
        res@ == prefix@ + digits(n as nat),
{
    let mut text = String::from_str(prefix);
    push_number(&mut text, n);
    text
}

/// The last `width` decimal digits of `n`, with leading zeros.
pub open spec fn padded(n: nat, width: nat) -> Seq<char>
    decreases width,
{
    if width == 0 {
        Seq::empty()
    } else {
        padded(n / 10, (width - 1) as nat).push(digit_char((n % 10) as int))
    }
}

/// The decimal text of a whole number, with a minus sign where it is below
/// zero.
pub open spec fn signed_digits(n: int) -> Seq<char> {
    if n < 0 {
        seq!['-'] + digits((-n) as nat)
    } else {
        digits(n as nat)
    }
}

/// The raw amount in units of the last of `places` fraction digits, rounded
/// to the nearest unit, halves away from zero.
pub open spec fn rounded_to(raw: int, places: int) -> int {
    round_div(raw, pow10(PLACES as int - places))
}

/// The text of an amount with `places` fraction digits, from none to eight:
/// a minus sign where the rounded amount is below zero, the whole digits,
/// and, where there are fraction digits, a point and exactly that many
/// digits.
pub open spec fn amount_text(raw: int, places: int) -> Seq<char> {
    let units = rounded_to(raw, places);
    let size = magnitude(units);
    let sign = if units < 0 {
        seq!['-']
    } else {
        Seq::<char>::empty()
    };
    let whole = digits((size / pow10(places)) as nat);
    if places == 0 {
        sign + whole
    } else {
        sign + whole + seq!['.'] + padded((size % pow10(places)) as nat, places as nat)
    }
}

/// Appends the last `width` decimal digits of `n`, with leading zeros.
pub fn push_padded(text: &mut String, n: u128, width: usize)
    ensures
        final(text)@ == old(text)@ + padded(n as nat, width as nat),
    decreases width,
{
    if width > 0 {
        push_padded(text, n / 10, width - 1);
        text.append(digit_text((n % 10) as usize));
        assert(final(text)@ =~= old(text)@ + padded(n as nat, width as nat));
    } else {
        assert(final(text)@ =~= old(text)@ + padded(n as nat, width as nat));
    }
}

/// Appends the decimal digits of a wide number.
pub fn push_wide(text: &mut String, n: u128)
    ensures
        final(text)@ == old(text)@ + digits(n as nat),
    decreases n,
{
    if n < 10 {
        text.append(digit_text(n as usize));
    } else {
        push_wide(text, n / 10);
        text.append(digit_text((n % 10) as usize));
        assert(final(text)@ =~= old(text)@ + digits(n as nat));
    }
}

/// Appends the decimal text of a whole number.
pub fn push_signed(text: &mut String, n: i64)
    ensures
        final(text)@ == old(text)@ + signed_digits(n as int),
{
    if n < 0 {
        proof {
            reveal_strlit("-");
        }
        text.append("-");
        push_wide(text, (-(n as i128)) as u128);
        assert(final(text)@ =~= old(text)@ + signed_digits(n as int));
    } else {
        push_wide(text, n as u128);
    }
}

/// Ten to the power `k`, for `k` up to eight.
pub fn power_of_ten(k: usize) -> (res: i128)
    requires
        k <= PLACES,
    ensures
        res == pow10(k as int),
        1 <= res <= 100_000_000,
{
    let mut out: i128 = 1;
    let mut i: usize = 0;
    proof {
        lemma_pow10_small(0);
    }
    while i < k
        invariant
            i <= k <= PLACES,
            out == pow10(i as int),
            1 <= out <= 100_000_000,
        decreases k - i,
    {
        proof {
            lemma_pow10_small(i as int);
            lemma_pow10_small(i + 1);
        }
        out = out * 10;
        i = i + 1;
    }
    out
}

impl Decimal {
    /// Appends the amount with `places` fraction digits, rounded to the
    /// nearest, halves away from zero.
    pub fn push_text(self, text: &mut String, places: usize)
        requires
            places <= PLACES,
        ensures
            final(text)@ == old(text)@ + amount_text(self@, places as int),
    {
        let unit = power_of_ten(PLACES - places);
        let units = wide_round_div(self.raw as i128, unit);
        let size: u128 = if units < 0 {
            (-units) as u128
        } else {
            units as u128
        };
        let scale = power_of_ten(places) as u128;
        proof {
            reveal_strlit("-");
            reveal_strlit(".");
        }
        if units < 0 {
            text.append("-");
        }
        push_wide(text, size / scale);
        if places > 0 {
            text.append(".");
            push_padded(text, size % scale, places);
        }
        assert(final(text)@ =~= old(text)@ + amount_text(self@, places as int));
    }

    /// The amount as text with `places` fraction digits, rounded to the
    /// nearest, halves away from zero.
    pub fn to_text(self, places: usize) -> (res: String)
        requires
            places <= PLACES,
        ensures
            res@ == amount_text(self@, places as int),
    {
        let mut text = String::new();
        self.push_text(&mut text, places);
        assert(text@ =~= amount_text(self@, places as int));
        text
    }
}

} // verus!
