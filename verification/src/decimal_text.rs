//! Reading amounts from decimal text.
//!
//! An amount is written with an optional sign, whole digits, and an
//! optional point followed by fraction digits; at least one digit stands on
//! one side of the point. Fraction digits after the eighth are dropped.

use crate::decimal::{clamp, dec, narrow, Decimal, SCALE};
use vstd::prelude::*;
use vstd::string::*;

verus! {

/// Number of fraction digits an amount keeps.
pub const PLACES: usize = 8;

/// Bound at which the whole part stops growing while it is read: any whole
/// part at or above it lies outside the range of amounts.
pub const WHOLE_CAP: i128 = 1_000_000_000_000;

/// Whether `c` is a decimal digit.
pub open spec fn is_digit(c: char) -> bool {
    '0' <= c && c <= '9'
}

/// The value of a decimal digit.
pub open spec fn digit_value(c: char) -> int {
    c as int - 48
}

/// Whether the characters from `from` up to `to` are all decimal digits.
pub open spec fn digits_between(s: Seq<char>, from: int, to: int) -> bool {
    forall|i: int| from <= i < to ==> is_digit(#[trigger] s[i])
}

/// The number that the digits from `from` up to `to` write.
pub open spec fn number_between(s: Seq<char>, from: int, to: int) -> int
    decreases to - from,
{
    if to <= from {
        0
    } else {
        number_between(s, from, to - 1) * 10 + digit_value(s[to - 1])
    }
}

/// Ten to the power `k`.
pub open spec fn pow10(k: int) -> int
    decreases k,
{
    if k <= 0 {
        1
    } else {
        10 * pow10(k - 1)
    }
}

/// The place of the first point at or after `from`, or the length where
/// there is none.
pub open spec fn first_dot(s: Seq<char>, from: int) -> int
    decreases s.len() - from,
{
    if from >= s.len() {
        s.len() as int
    } else if s[from] == '.' {
        from
    } else {
        first_dot(s, from + 1)
    }
}

/// Number of fraction digits that count, of those from `from` to the end.
pub open spec fn kept_places(s: Seq<char>, from: int) -> int {
    if s.len() - from > PLACES as int {
        PLACES as int
    } else if s.len() > from {
        s.len() - from
    } else {
        0
    }
}

/// The raw value of the fraction digits that start at `from`.
pub open spec fn fraction_from(s: Seq<char>, from: int) -> int {
    number_between(s, from, from + kept_places(s, from)) * pow10(PLACES as int - kept_places(s, from))
}

/// The raw value of the unsigned amount written from `start` to the end,
/// if that text is one.
pub open spec fn unsigned_value(s: Seq<char>, start: int) -> Option<int> {
    let dot = first_dot(s, start);
    if digits_between(s, start, dot) && digits_between(s, dot + 1, s.len() as int) && (dot > start || s.len() > dot
        + 1) {
        Some(number_between(s, start, dot) * SCALE + fraction_from(s, dot + 1))
    } else {
        None
    }
}

/// The raw value of the amount that `s` writes, before clamping, if `s`
/// writes one.
pub open spec fn decimal_value(s: Seq<char>) -> Option<int> {
    if s.len() > 0 && s[0] == '-' {
        match unsigned_value(s, 1) {
            Some(v) => Some(-v),
            None => None,
        }
    } else if s.len() > 0 && s[0] == '+' {
        unsigned_value(s, 1)
    } else {
        unsigned_value(s, 0)
    }
}

/// The amount that `s` writes, clamped to the range of amounts, if `s`
/// writes one.
pub open spec fn parsed(s: Seq<char>) -> Option<Decimal> {
    match decimal_value(s) {
        Some(v) => Some(dec(clamp(v))),
        None => None,
    }
}

/// The first point at or after `from` lies between `from` and the end, and
/// no point stands before it.
pub proof fn lemma_first_dot(s: Seq<char>, from: int)
    requires
        0 <= from <= s.len(),
    ensures
        from <= first_dot(s, from) <= s.len(),
        forall|i: int| from <= i < first_dot(s, from) ==> s[i] != '.',
        first_dot(s, from) < s.len() ==> s[first_dot(s, from)] == '.',
    decreases s.len() - from,
{
    if from < s.len() && s[from] != '.' {
        lemma_first_dot(s, from + 1);
    }
}

/// A number written with digits is not below zero.
pub proof fn lemma_number_positive(s: Seq<char>, from: int, to: int)
    requires
        0 <= from <= to <= s.len(),
        digits_between(s, from, to),
    ensures
        0 <= number_between(s, from, to),
    decreases to - from,
{
    if to > from {
        lemma_number_positive(s, from, to - 1);
        assert(is_digit(s[to - 1]));
    }
}

/// A number written with digits does not shrink with further digits.
pub proof fn lemma_number_grows(s: Seq<char>, from: int, mid: int, to: int)
    requires
        0 <= from <= mid <= to <= s.len(),
        digits_between(s, from, to),
    ensures
        0 <= number_between(s, from, mid) <= number_between(s, from, to),
    decreases to - mid,
{
    lemma_number_positive(s, from, mid);
    if mid < to {
        lemma_number_grows(s, from, mid, to - 1);
        assert(is_digit(s[to - 1]));
    }
}

/// The characters of `text`.
pub fn chars_of(text: &str) -> (res: Vec<char>)
    ensures
        res@ == text@,
{
    let n = text.unicode_len();
    let mut out: Vec<char> = Vec::new();
    let mut i: usize = 0;
    while i < n
        invariant
            i <= n,
            n == text@.len(),
            out@ == text@.take(i as int),
        decreases n - i,
    {
        out.push(text.get_char(i));
        assert(out@ =~= text@.take(i + 1));
        i = i + 1;
    }
    assert(text@.take(n as int) == text@);
    out
}

/// The value of the digit `c`, if it is one.
pub fn digit_of(c: char) -> (res: Option<i128>)
    ensures
        match res {
            Some(d) => is_digit(c) && d == digit_value(c) && 0 <= d <= 9,
            None => !is_digit(c),
        },
{
    if '0' <= c && c <= '9' {
        Some((c as u32 - 48) as i128)
    } else {
        None
    }
}

impl Decimal {
    /// Reads an amount from decimal text: an optional sign, whole digits,
    /// and an optional point with fraction digits, of which the first eight
    /// count. Text that is not of this form gives nothing; an amount outside
    /// the range is clamped.
    pub fn parse(text: &str) -> (res: Option<Decimal>)
        ensures
            res == parsed(text@),
    {
        let chars = chars_of(text);
        let n = chars.len();
        let negative = n > 0 && chars[0] == '-';
        let start: usize = if n > 0 && (chars[0] == '-' || chars[0] == '+') {
            1
        } else {
            0
        };
        let ghost s = chars@;
        let ghost dot = first_dot(s, start as int);
        proof {
            lemma_first_dot(s, start as int);
        }
        let mut whole: i128 = 0;
        let mut i: usize = start;
        while i < n && chars[i] != '.'
            invariant
                start <= i <= dot <= n,
                n == s.len(),
                s == chars@,
                s == text@,
                start == if n > 0 && (s[0] == '-' || s[0] == '+') {
                    1int
                } else {
                    0int
                },
                dot == first_dot(s, start as int),
                forall|k: int| start <= k < dot ==> s[k] != '.',
                dot < n ==> s[dot] == '.',
                digits_between(s, start as int, i as int),
                0 <= whole <= WHOLE_CAP,
                whole == if number_between(s, start as int, i as int) >= WHOLE_CAP {
                    WHOLE_CAP as int
                } else {
                    number_between(s, start as int, i as int)
                },
            decreases n - i,
        {
            proof {
                lemma_number_grows(s, start as int, i as int, i as int);
            }
            match digit_of(chars[i]) {
                None => {
                    assert(!is_digit(s[i as int]));
                    assert(start <= i < dot);
                    assert(!digits_between(s, start as int, dot));
                    assert(unsigned_value(s, start as int) is None);
                    return None;
                },
                Some(d) => {
                    whole = whole * 10 + d;
                    if whole > WHOLE_CAP {
                        whole = WHOLE_CAP;
                    }
                },
            }
            i = i + 1;
        }
        assert(i == dot);
        let mut fraction: i128 = 0;
        let mut kept: usize = 0;
        let mut j: usize = if i < n {
            i + 1
        } else {
            n
        };
        let first: usize = j;
        let ghost keep = kept_places(s, dot + 1);
        while j < n
            invariant
                first <= j <= n,
                n == s.len(),
                s == chars@,
                s == text@,
                start == if n > 0 && (s[0] == '-' || s[0] == '+') {
                    1int
                } else {
                    0int
                },
                dot == first_dot(s, start as int),
                first == if dot < n {
                    dot + 1
                } else {
                    n as int
                },
                keep == kept_places(s, dot + 1),
                kept == if j - first > PLACES {
                    PLACES as int
                } else {
                    j - first
                },
                digits_between(s, first as int, j as int),
                fraction == number_between(s, first as int, first + kept),
                0 <= fraction < pow10(kept as int),
            decreases n - j,
        {
            match digit_of(chars[j]) {
                None => {
                    assert(!is_digit(s[j as int]));
                    assert(dot + 1 <= j < s.len());
                    assert(!digits_between(s, dot + 1, s.len() as int));
                    assert(unsigned_value(s, start as int) is None);
                    return None;
                },
                Some(d) => {
                    if kept < PLACES {
                        proof {
                            lemma_pow10_small(kept as int);
                        }
                        fraction = fraction * 10 + d;
                        kept = kept + 1;
                    }
                },
            }
            j = j + 1;
        }
        if i == start && first == n {
            return None;
        }
        assert(digits_between(s, dot + 1, s.len() as int));
        assert(kept == keep);
        proof {
            lemma_pow10_small(0);
            lemma_pow10_small(kept as int);
            let base = number_between(s, first as int, first + kept);
            assert(pow10(kept - kept) == 1);
            assert(base * pow10(kept - kept) == base) by (nonlinear_arith)
                requires
                    pow10(kept - kept) == 1,
            ;
        }
        let mut pad: usize = kept;
        while pad < PLACES
            invariant
                kept <= pad <= PLACES,
                0 <= fraction < pow10(pad as int),
                fraction == number_between(s, first as int, first + kept) * pow10(pad - kept),
            decreases PLACES - pad,
        {
            proof {
                lemma_pow10_small(pad as int);
                assert(number_between(s, first as int, first + kept) * pow10(pad - kept) * 10 == number_between(
                    s,
                    first as int,
                    first + kept,
                ) * pow10(pad + 1 - kept)) by (nonlinear_arith)
                    requires
                        pow10(pad + 1 - kept) == 10 * pow10(pad - kept),
                ;
            }
            fraction = fraction * 10;
            pad = pad + 1;
        }
        proof {
            lemma_pow10_small(PLACES as int);
            assert(pow10(8) == SCALE);
        }
        let magnitude: i128 = whole * (SCALE as i128) + fraction;
        proof {
            let exact = number_between(s, start as int, dot) * SCALE + fraction_from(s, dot + 1);
            assert(first == dot + 1 || keep == 0);
            assert(fraction == fraction_from(s, dot + 1)) by {
                if first != dot + 1 {
                    assert(number_between(s, dot + 1, dot + 1) == 0);
                    assert(number_between(s, first as int, first as int) == 0);
                }
            }
            if number_between(s, start as int, dot) >= WHOLE_CAP {
                assert(exact >= WHOLE_CAP * SCALE) by (nonlinear_arith)
                    requires
                        exact == number_between(s, start as int, dot) * SCALE + fraction,
                        number_between(s, start as int, dot) >= WHOLE_CAP,
                        fraction >= 0,
                ;
                assert(clamp(exact) == clamp(magnitude as int));
                assert(clamp(-exact) == clamp(-magnitude as int));
            }
            assert(unsigned_value(s, start as int) == Some(exact));
        }
        if negative {
            Some(Decimal { raw: narrow(-magnitude) })
        } else {
            Some(Decimal { raw: narrow(magnitude) })
        }
    }
}

/// The powers of ten up to the eighth, and each is ten times the one
/// before.
pub proof fn lemma_pow10_small(k: int)
    requires
        0 <= k <= 8,
    ensures
        1 <= pow10(k) <= 100_000_000,
        pow10(0) == 1,
        pow10(k + 1) == 10 * pow10(k),
        pow10(8) == 100_000_000,
    decreases k,
{
    reveal_with_fuel(pow10, 10);
}

} // verus!
