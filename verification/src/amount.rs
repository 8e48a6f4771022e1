//! Decoding of decimal amount strings into base units.
//!
//! An amount such as `"12.5"` of a token with `dec` decimals stands for
//! `12.5 * 10^dec` base units. The decoder never goes through floating point.

use vstd::prelude::*;
use vstd::string::*;

verus! {

/// Why a decimal string was not accepted as an amount.
#[derive(Clone, Copy, Debug, PartialEq, Eq, Structural)]
pub enum AmountError {
    /// The string has no characters.
    Empty,
    /// A character is neither a digit nor `.`, or no digit occurs at all.
    NotNumeric,
    /// More than one `.` occurs.
    MultiplePoints,
    /// More digits follow the `.` than the token has decimals.
    TooManyDecimals,
    /// The number of base units does not fit in 128 bits.
    Overflow,
}

pub open spec fn is_digit(c: char) -> bool {
    '0' <= c && c <= '9'
}

pub open spec fn digit_value(c: char) -> nat {
    (c as int - '0' as int) as nat
}

/// The number that a sequence of decimal digits writes, most significant digit first.
pub open spec fn digits_value(s: Seq<char>) -> nat
    decreases s.len(),
{
    if s.len() == 0 {
        0
    } else {
        10 * digits_value(s.drop_last()) + digit_value(s.last())
    }
}

pub open spec fn pow10(n: nat) -> nat
    decreases n,
{
    if n == 0 {
        1
    } else {
        10 * pow10((n - 1) as nat)
    }
}

pub open spec fn all_numeric(s: Seq<char>) -> bool {
    forall|i: int| 0 <= i < s.len() ==> is_digit(#[trigger] s[i]) || s[i] == '.'
}

pub open spec fn has_digit(s: Seq<char>) -> bool {
    exists|i: int| 0 <= i < s.len() && is_digit(#[trigger] s[i])
}

pub open spec fn has_point(s: Seq<char>) -> bool {
    exists|i: int| 0 <= i < s.len() && #[trigger] s[i] == '.'
}

pub open spec fn single_point(s: Seq<char>) -> bool {
    forall|i: int, j: int|
        0 <= i < s.len() && 0 <= j < s.len() && #[trigger] s[i] == '.' && #[trigger] s[j] == '.'
            ==> i == j
}

/// The position of a `.` in `s`, or the length of `s` where there is none.
pub open spec fn point_index(s: Seq<char>) -> int {
    if has_point(s) {
        choose|i: int| 0 <= i < s.len() && #[trigger] s[i] == '.'
    } else {
        s.len() as int
    }
}

/// What stands before the `.`.
pub open spec fn integer_part(s: Seq<char>) -> Seq<char> {
    s.subrange(0, point_index(s))
}

/// What stands after the `.`; empty where there is none.
pub open spec fn fraction_part(s: Seq<char>) -> Seq<char> {
    if has_point(s) {
        s.subrange(point_index(s) + 1, s.len() as int)
    } else {
        Seq::empty()
    }
}

/// The base units that a well-formed decimal string stands for, unbounded.
pub open spec fn base_units(s: Seq<char>, dec: nat) -> nat
    recommends
        fraction_part(s).len() <= dec,
{
    digits_value(integer_part(s) + fraction_part(s)) * pow10(
        (dec - fraction_part(s).len()) as nat,
    )
}

/// The decoder's result on every string: the first of the listed defects
/// that applies, or else the base units.
pub open spec fn decode_spec(s: Seq<char>, dec: nat) -> Result<u128, AmountError> {
    if s.len() == 0 {
        Err(AmountError::Empty)
    } else if !all_numeric(s) || !has_digit(s) {
        Err(AmountError::NotNumeric)
    } else if !single_point(s) {
        Err(AmountError::MultiplePoints)
    } else if fraction_part(s).len() > dec {
        Err(AmountError::TooManyDecimals)
    } else if base_units(s, dec) > u128::MAX {
        Err(AmountError::Overflow)
    } else {
        Ok(base_units(s, dec) as u128)
    }
}

pub proof fn lemma_digits_prefix_le(d: Seq<char>, m: int)
    requires
        0 <= m <= d.len(),
    ensures
        digits_value(d.subrange(0, m)) <= digits_value(d),
    decreases d.len() - m,
{
    if m == d.len() {
        assert(d.subrange(0, m) =~= d);
    } else {
        lemma_digits_prefix_le(d, m + 1);
        assert(d.subrange(0, m + 1).drop_last() =~= d.subrange(0, m));
    }
}

pub proof fn lemma_pow10_monotone(p: nat, q: nat)
    requires
        p <= q,
    ensures
        1 <= pow10(p) <= pow10(q),
    decreases q,
{
    if q == 0 {
    } else if p == q {
        lemma_pow10_monotone((p - 1) as nat, (q - 1) as nat);
    } else {
        lemma_pow10_monotone(p, (q - 1) as nat);
    }
}

proof fn lemma_scaled_le(v: nat, a: nat, b: nat)
    requires
        a <= b,
    ensures
        v * a <= v * b,
{
    assert(v * a <= v * b) by (nonlinear_arith)
        requires
            a <= b,
    ;
}

/// The character that writes a digit.
pub open spec fn digit_char(d: nat) -> char {
    if d == 0 {
        '0'
    } else if d == 1 {
        '1'
    } else if d == 2 {
        '2'
    } else if d == 3 {
        '3'
    } else if d == 4 {
        '4'
    } else if d == 5 {
        '5'
    } else if d == 6 {
        '6'
    } else if d == 7 {
        '7'
    } else if d == 8 {
        '8'
    } else {
        '9'
    }
}

/// The decimal digits that write a number, most significant first, without
/// leading zeros.
pub open spec fn decimal_digits(n: nat) -> Seq<char>
    decreases n,
{
    if n < 10 {
        seq![digit_char(n)]
    } else {
        decimal_digits(n / 10).push(digit_char(n % 10))
    }
}

/// The digits of a number write that number.
pub proof fn lemma_decimal_digits_value(n: nat)
    ensures
        digits_value(decimal_digits(n)) == n,
        decimal_digits(n).len() > 0,
        forall|i: int| 0 <= i < decimal_digits(n).len() ==> is_digit(#[trigger] decimal_digits(n)[i]),
    decreases n,
{
    if n < 10 {
        let s = seq![digit_char(n)];
        assert(s.drop_last() =~= Seq::<char>::empty());
        assert(digits_value(s.drop_last()) == 0);
        assert(s.last() == digit_char(n));
    } else {
        lemma_decimal_digits_value(n / 10);
        let s = decimal_digits(n / 10).push(digit_char(n % 10));
        assert(s.drop_last() =~= decimal_digits(n / 10));
        assert(s.last() == digit_char(n % 10));
    }
}

fn digit_text(d: u8) -> (r: &'static str)
    requires
        d < 10,
    ensures
        r@ == seq![digit_char(d as nat)],
{
    proof {
        reveal_strlit("0");
        reveal_strlit("1");
        reveal_strlit("2");
        reveal_strlit("3");
        reveal_strlit("4");
        reveal_strlit("5");
        reveal_strlit("6");
        reveal_strlit("7");
        reveal_strlit("8");
        reveal_strlit("9");
    }
    let r = match d {
        0 => "0",
        1 => "1",
        2 => "2",
        3 => "3",
        4 => "4",
        5 => "5",
        6 => "6",
        7 => "7",
        8 => "8",
        _ => "9",
    };
    assert(r@ =~= seq![digit_char(d as nat)]);
    r
}

/// Writes a number of base units in decimal digits.
pub fn decimal_text(n: u128) -> (r: String)
    ensures
        r@ == decimal_digits(n as nat),
    decreases n,
{
    if n < 10 {
        String::from_str(digit_text(n as u8))
    } else {
        let mut s = decimal_text(n / 10);
        let last = digit_text((n % 10) as u8);
        s.append(last);
        assert(s@ =~= decimal_digits((n / 10) as nat).push(digit_char((n % 10) as nat)));
        s
    }
}

/// Decodes `s` as a non-negative decimal with at most `dec` fractional digits
/// into base units: the digits before and after the point, read as one
/// number, times ten to the number of decimals that were not written.
pub fn decode_amount(s: &str, dec: u8) -> (r: Result<u128, AmountError>)
    requires
        dec <= 18,
    ensures
        r == decode_spec(s@, dec as nat),
{
    let n: usize = s.unicode_len();
    if n == 0 {
        return Err(AmountError::Empty);
    }
    let mut first_point: usize = n;
    let mut second_point: usize = n;
    let mut digit_at: usize = n;
    let mut i: usize = 0;
    while i < n
        invariant
            n == s@.len(),
            0 <= i <= n,
            forall|j: int| 0 <= j < i ==> is_digit(#[trigger] s@[j]) || s@[j] == '.',
            first_point <= n,
            first_point < n ==> first_point < i && s@[first_point as int] == '.',
            forall|j: int| 0 <= j < i && j < first_point ==> #[trigger] s@[j] != '.',
            second_point <= n,
            second_point < n ==> first_point < second_point && second_point < i && s@[second_point as int]
                == '.',
            second_point == n ==> forall|j: int|
                0 <= j < i && j != first_point ==> #[trigger] s@[j] != '.',
            digit_at <= n,
            digit_at < n ==> is_digit(s@[digit_at as int]),
            digit_at == n ==> forall|j: int| 0 <= j < i ==> !is_digit(#[trigger] s@[j]),
        decreases n - i,
    {
        let c = s.get_char(i);
        if c == '.' {
            if first_point == n {
                first_point = i;
            } else if second_point == n {
                second_point = i;
            }
        } else if '0' <= c && c <= '9' {
            digit_at = i;
        } else {
            return Err(AmountError::NotNumeric);
        }
        i += 1;
    }
    assert(all_numeric(s@));
    if digit_at == n {
        return Err(AmountError::NotNumeric);
    }
    assert(has_digit(s@));
    if second_point < n {
        assert(!single_point(s@));
        return Err(AmountError::MultiplePoints);
    }
    assert(single_point(s@));
    proof {
        if first_point < n {
            assert(has_point(s@));
            assert(point_index(s@) == first_point);
        } else {
            assert(!has_point(s@));
        }
    }
    let fraction_len: usize = if first_point < n {
        n - 1 - first_point
    } else {
        0
    };
    assert(fraction_len == fraction_part(s@).len());
    if fraction_len > dec as usize {
        return Err(AmountError::TooManyDecimals);
    }
    let ghost digits = integer_part(s@) + fraction_part(s@);
    let mut acc: u128 = 0;
    let mut k: usize = 0;
    let ghost mut taken: int = 0;
    while k < n
        invariant
            n == s@.len(),
            0 <= k <= n,
            first_point <= n,
            digits == integer_part(s@) + fraction_part(s@),
            point_index(s@) == first_point,
            has_point(s@) == (first_point < n),
            all_numeric(s@),
            has_digit(s@),
            single_point(s@),
            fraction_part(s@).len() == fraction_len,
            fraction_len <= dec,
            forall|j: int| 0 <= j < n && j != first_point ==> #[trigger] s@[j] != '.',
            taken == (if k <= first_point {
                k as int
            } else {
                k - 1
            }),
            acc == digits_value(digits.subrange(0, taken)),
        decreases n - k,
    {
        if k != first_point {
            let c = s.get_char(k);
            assert(is_digit(c));
            let d: u128 = (c as u32 - '0' as u32) as u128;
            proof {
                assert(digits[taken] == c);
                assert(digits.subrange(0, taken + 1).drop_last() =~= digits.subrange(0, taken));
                assert(digits_value(digits.subrange(0, taken + 1)) == 10 * acc + d);
                lemma_digits_prefix_le(digits, taken + 1);
            }
            if acc > (u128::MAX - d) / 10 {
                proof {
                    lemma_pow10_monotone(0, (dec - fraction_len) as nat);
                    lemma_scaled_le(digits_value(digits), 1, pow10((dec - fraction_len) as nat));
                }
                return Err(AmountError::Overflow);
            }
            acc = acc * 10 + d;
            proof {
                taken = taken + 1;
            }
        }
        k += 1;
    }
    assert(digits.subrange(0, taken) =~= digits);
    assert(pow10(0) == 1);
    let pad: u8 = dec - (fraction_len as u8);
    let mut p: u8 = 0;
    while p < pad
        invariant
            0 <= p <= pad,
            pad == dec - fraction_part(s@).len(),
            s@.len() > 0,
            all_numeric(s@),
            has_digit(s@),
            single_point(s@),
            acc == digits_value(digits) * pow10(p as nat),
            digits == integer_part(s@) + fraction_part(s@),
        decreases pad - p,
    {
        proof {
            assert(digits_value(digits) * pow10((p + 1) as nat) == 10 * acc) by (nonlinear_arith)
                requires
                    acc == digits_value(digits) * pow10(p as nat),
                    pow10((p + 1) as nat) == 10 * pow10(p as nat),
            ;
        }
        if acc > u128::MAX / 10 {
            proof {
                lemma_pow10_monotone((p + 1) as nat, pad as nat);
                lemma_scaled_le(digits_value(digits), pow10((p + 1) as nat), pow10(pad as nat));
            }
            return Err(AmountError::Overflow);
        }
        acc = acc * 10;
        p += 1;
    }
    Ok(acc)
}

} // verus!
