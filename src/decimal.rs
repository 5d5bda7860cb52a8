//! Exact decimal numbers: a value kept as an integer mantissa and a count of
//! decimal places, rendered without rounding, and integers read from text.

use vstd::prelude::*;
use vstd::arithmetic::div_mod::{lemma_div_denominator, lemma_mod_breakdown, lemma_fundamental_div_mod};
use crate::text::push_char;

verus! {

/// Ten to the power `d`.
pub open spec fn pow10(d: nat) -> int
    decreases d,
{
    if d == 0 {
        1
    } else {
        10 * pow10((d - 1) as nat)
    }
}

pub open spec fn is_digit(c: char) -> bool {
    '0' <= c <= '9'
}

pub open spec fn all_digits(s: Seq<char>) -> bool {
    forall|i: int| 0 <= i < s.len() ==> #[trigger] is_digit(s[i])
}

/// The value of a decimal digit character.
pub open spec fn digit_value(c: char) -> int {
    (c as u32) as int - ('0' as u32) as int
}

/// The digit character of a value below ten.
pub open spec fn digit_char(n: int) -> char {
    if n <= 0 {
        '0'
    } else if n == 1 {
        '1'
    } else if n == 2 {
        '2'
    } else if n == 3 {
        '3'
    } else if n == 4 {
        '4'
    } else if n == 5 {
        '5'
    } else if n == 6 {
        '6'
    } else if n == 7 {
        '7'
    } else if n == 8 {
        '8'
    } else {
        '9'
    }
}

/// The number a string of decimal digits denotes, most significant first.
pub open spec fn digits_value(s: Seq<char>) -> int
    decreases s.len(),
{
    if s.len() == 0 {
        0
    } else {
        digits_value(s.drop_last()) * 10 + digit_value(s.last())
    }
}

/// The decimal digits of `n`, without leading zeros (`0` for zero).
pub open spec fn to_digits(n: nat) -> Seq<char>
    decreases n,
{
    if n < 10 {
        seq![digit_char(n as int)]
    } else {
        to_digits((n / 10) as nat).push(digit_char((n % 10) as int))
    }
}

/// The last `d` decimal digits of `n`, padded with leading zeros.
pub open spec fn to_fixed(n: nat, d: nat) -> Seq<char>
    decreases d,
{
    if d == 0 {
        Seq::empty()
    } else {
        to_fixed((n / 10) as nat, (d - 1) as nat).push(digit_char((n % 10) as int))
    }
}

pub open spec fn abs(m: int) -> nat {
    if m < 0 {
        (-m) as nat
    } else {
        m as nat
    }
}

/// The digits before the decimal point of `m / 10^d`.
pub open spec fn integer_part_text(m: int, d: nat) -> Seq<char> {
    to_digits((abs(m) as int / pow10(d)) as nat)
}

/// The `d` digits after the decimal point of `m / 10^d`.
pub open spec fn fraction_text(m: int, d: nat) -> Seq<char> {
    to_fixed(abs(m), d)
}

/// The exact text of `m / 10^d`: a minus sign for negative values, the integer
/// part, and, when `d > 0`, a point followed by exactly `d` digits.
pub open spec fn exact_text(m: int, d: nat) -> Seq<char> {
    let sign = if m < 0 { seq!['-'] } else { Seq::<char>::empty() };
    let frac = if d > 0 { seq!['.'] + fraction_text(m, d) } else { Seq::<char>::empty() };
    sign + integer_part_text(m, d) + frac
}

/// The integer a text denotes: an optional `+` or `-` followed by at least one
/// decimal digit, and nothing else.
pub open spec fn integer_text_value(s: Seq<char>) -> Option<int> {
    if s.len() > 0 && (s[0] == '-' || s[0] == '+') {
        let rest = s.drop_first();
        if rest.len() > 0 && all_digits(rest) {
            Some(if s[0] == '-' { -digits_value(rest) } else { digits_value(rest) })
        } else {
            None
        }
    } else if s.len() > 0 && all_digits(s) {
        Some(digits_value(s))
    } else {
        None
    }
}

/// The integer a text denotes when it lies in `lo..=hi`.
pub open spec fn integer_in_range(s: Seq<char>, lo: int, hi: int) -> Option<int> {
    match integer_text_value(s) {
        Some(v) => if lo <= v <= hi { Some(v) } else { None },
        None => None,
    }
}

proof fn lemma_pow10_positive(d: nat)
    ensures
        pow10(d) >= 1,
    decreases d,
{
    if d > 0 {
        lemma_pow10_positive((d - 1) as nat);
    }
}

proof fn lemma_digit_char(n: int)
    requires
        0 <= n < 10,
    ensures
        is_digit(digit_char(n)),
        digit_value(digit_char(n)) == n,
{
}

/// The digits of `n` denote `n`.
pub proof fn lemma_to_digits(n: nat)
    ensures
        to_digits(n).len() > 0,
        all_digits(to_digits(n)),
        digits_value(to_digits(n)) == n,
    decreases n,
{
    if n < 10 {
        lemma_digit_char(n as int);
        let s = to_digits(n);
        assert(s.drop_last() =~= Seq::<char>::empty());
        assert(s.last() == digit_char(n as int));
        assert(digits_value(s) == digits_value(s.drop_last()) * 10 + digit_value(s.last()));
    } else {
        lemma_to_digits((n / 10) as nat);
        lemma_digit_char((n % 10) as int);
        let s = to_digits(n);
        assert(s.drop_last() =~= to_digits((n / 10) as nat));
        assert forall|i: int| 0 <= i < s.len() implies #[trigger] is_digit(s[i]) by {
            if i < s.len() - 1 {
                assert(s[i] == to_digits((n / 10) as nat)[i]);
            }
        }
    }
}

/// The fixed-width digits of `n` denote `n mod 10^d`.
pub proof fn lemma_to_fixed(n: nat, d: nat)
    ensures
        to_fixed(n, d).len() == d,
        all_digits(to_fixed(n, d)),
        digits_value(to_fixed(n, d)) == n as int % pow10(d),
    decreases d,
{
    lemma_pow10_positive(d);
    if d > 0 {
        let p = pow10((d - 1) as nat);
        lemma_to_fixed((n / 10) as nat, (d - 1) as nat);
        lemma_digit_char((n % 10) as int);
        lemma_pow10_positive((d - 1) as nat);
        let s = to_fixed(n, d);
        assert(s.drop_last() =~= to_fixed((n / 10) as nat, (d - 1) as nat));
        assert forall|i: int| 0 <= i < s.len() implies #[trigger] is_digit(s[i]) by {
            if i < s.len() - 1 {
                assert(s[i] == to_fixed((n / 10) as nat, (d - 1) as nat)[i]);
            }
        }
        lemma_mod_breakdown(n as int, 10, p);
    }
}

/// Exact arithmetic: the text of `m / 10^d` is made of a sign, the digits of the
/// integer part and exactly `d` fraction digits, and these digits together denote
/// `|m|` exactly, with nothing rounded.
pub proof fn lemma_exact_round_trip(m: int, d: nat)
    ensures
        all_digits(integer_part_text(m, d)),
        all_digits(fraction_text(m, d)),
        fraction_text(m, d).len() == d,
        digits_value(integer_part_text(m, d)) * pow10(d) + digits_value(fraction_text(m, d)) == abs(m),
        exact_text(m, d)[0] == '-' <==> m < 0,
{
    lemma_pow10_positive(d);
    let p = pow10(d);
    lemma_to_digits((abs(m) as int / p) as nat);
    lemma_to_fixed(abs(m), d);
    lemma_fundamental_div_mod(abs(m) as int, p);
    assert(abs(m) as int / p >= 0) by {
        vstd::arithmetic::div_mod::lemma_div_pos_is_pos(abs(m) as int, p);
    }
    let t = exact_text(m, d);
    if m < 0 {
        assert(t[0] == '-');
    } else {
        assert(t[0] == integer_part_text(m, d)[0]);
        assert(is_digit(integer_part_text(m, d)[0]));
    }
}

fn digit_of(n: u128) -> (c: char)
    requires
        n < 10,
    ensures
        c == digit_char(n as int),
{
    if n == 0 {
        '0'
    } else if n == 1 {
        '1'
    } else if n == 2 {
        '2'
    } else if n == 3 {
        '3'
    } else if n == 4 {
        '4'
    } else if n == 5 {
        '5'
    } else if n == 6 {
        '6'
    } else if n == 7 {
        '7'
    } else if n == 8 {
        '8'
    } else {
        '9'
    }
}

fn write_digits(n: u128, out: &mut String)
    ensures
        final(out)@ == old(out)@ + to_digits(n as nat),
    decreases n,
{
    if n >= 10 {
        write_digits(n / 10, out);
    }
    push_char(out, digit_of(n % 10));
    proof {
        if n < 10 {
            assert(n % 10 == n);
        }
        assert(old(out)@ + to_digits(n as nat) =~= final(out)@);
    }
}

fn write_fixed(n: u128, d: u8, out: &mut String)
    ensures
        final(out)@ == old(out)@ + to_fixed(n as nat, d as nat),
    decreases d,
{
    if d > 0 {
        write_fixed(n / 10, d - 1, out);
        push_char(out, digit_of(n % 10));
        assert(old(out)@ + to_fixed(n as nat, d as nat) =~= final(out)@);
    } else {
        assert(old(out)@ + to_fixed(n as nat, d as nat) =~= old(out)@);
    }
}

fn shift_down(n: u128, d: u8) -> (r: u128)
    ensures
        r == n as int / pow10(d as nat),
    decreases d,
{
    if d == 0 {
        n
    } else {
        let r = shift_down(n / 10, d - 1);
        proof {
            lemma_pow10_positive((d - 1) as nat);
            lemma_div_denominator(n as int, 10, pow10((d - 1) as nat));
        }
        r
    }
}

/// The exact text of `mantissa / 10^decimals`, e.g. `123.45` for mantissa
/// `12345` with `2` decimals, `-0.005` for `-5` with `3`, `7` for `7` with `0`.
pub fn format_exact(mantissa: i128, decimals: u8) -> (r: String)
    ensures
        r@ == exact_text(mantissa as int, decimals as nat),
{
    let magnitude: u128 = if mantissa < 0 {
        if mantissa == i128::MIN {
            (i128::MAX as u128) + 1
        } else {
            (-mantissa) as u128
        }
    } else {
        mantissa as u128
    };
    assert(magnitude == abs(mantissa as int));
    let mut out = String::new();
    if mantissa < 0 {
        push_char(&mut out, '-');
    }
    let whole = shift_down(magnitude, decimals);
    write_digits(whole, &mut out);
    if decimals > 0 {
        push_char(&mut out, '.');
        write_fixed(magnitude, decimals, &mut out);
    }
    proof {
        let sign = if mantissa < 0 { seq!['-'] } else { Seq::<char>::empty() };
        let frac = if decimals > 0 { seq!['.'] + fraction_text(mantissa as int, decimals as nat) } else { Seq::<char>::empty() };
        assert(out@ =~= sign + integer_part_text(mantissa as int, decimals as nat) + frac);
    }
    out
}

/// A text of digits grows in value as it grows in length.
proof fn lemma_prefix_value(s: Seq<char>, j: int)
    requires
        all_digits(s),
        0 <= j <= s.len(),
    ensures
        0 <= digits_value(s.subrange(0, j)) <= digits_value(s),
    decreases s.len(),
{
    if s.len() > 0 {
        let t = s.drop_last();
        assert(all_digits(t)) by {
            assert forall|i: int| 0 <= i < t.len() implies #[trigger] is_digit(t[i]) by {
                assert(t[i] == s[i]);
            }
        }
        assert(is_digit(s[s.len() - 1]));
        if j < s.len() {
            assert(s.subrange(0, j) =~= t.subrange(0, j));
            lemma_prefix_value(t, j);
        } else {
            assert(s.subrange(0, j) =~= s);
            lemma_prefix_value(t, t.len() as int);
            assert(t.subrange(0, t.len() as int) =~= t);
        }
    }
}

/// Reads an integer from text: an optional `+` or `-` and at least one
/// decimal digit, and nothing else. `None` when the text is not of that form or
/// its value lies outside `lo..=hi`.
pub fn parse_integer(s: &str, lo: i128, hi: i128) -> (r: Option<i128>)
    requires
        -0x1_0000_0000_0000_0000 <= lo <= 0 <= hi <= 0x1_0000_0000_0000_0000,
    ensures
        r matches Some(v) ==> integer_in_range(s@, lo as int, hi as int) == Some(v as int),
        r is None ==> integer_in_range(s@, lo as int, hi as int) is None,
{
    let n = s.unicode_len();
    if n == 0 {
        return None;
    }
    let first = s.get_char(0);
    let negative = first == '-';
    let start: usize = if first == '-' || first == '+' { 1 } else { 0 };
    if start == n {
        assert(s@.drop_first().len() == 0);
        return None;
    }
    let limit: u128 = if negative { (-lo) as u128 } else { hi as u128 };
    let ghost digits = s@.subrange(start as int, n as int);
    let mut acc: u128 = 0;
    let mut i: usize = start;
    while i < n
        invariant
            start <= i <= n,
            start <= 1,
            start == 1 <==> (s@[0] == '-' || s@[0] == '+'),
            negative <==> s@[0] == '-',
            limit == if negative { -lo } else { hi as int },
            n == s@.len(),
            start < n,
            digits == s@.subrange(start as int, n as int),
            all_digits(s@.subrange(start as int, i as int)),
            acc == digits_value(s@.subrange(start as int, i as int)),
            acc <= limit,
            limit <= 0x1_0000_0000_0000_0000,
        decreases n - i,
    {
        let c = s.get_char(i);
        if c < '0' || c > '9' {
            proof {
                assert(digits[i - start] == s@[i as int]);
                assert(!is_digit(digits[i - start]));
                assert(!all_digits(digits));
                if start == 1 {
                    assert(digits =~= s@.drop_first());
                } else {
                    assert(digits =~= s@);
                }
            }
            return None;
        }
        let d = (c as u32 - '0' as u32) as u128;
        let ghost prefix = s@.subrange(start as int, i as int);
        let ghost next = s@.subrange(start as int, i + 1);
        proof {
            assert(next.drop_last() =~= prefix);
            assert(next.last() == c);
            assert(all_digits(next)) by {
                assert forall|k: int| 0 <= k < next.len() implies #[trigger] is_digit(next[k]) by {
                    if k < prefix.len() {
                        assert(next[k] == prefix[k]);
                    }
                }
            }
        }
        acc = acc * 10 + d;
        i = i + 1;
        if acc > limit {
            proof {
                if all_digits(digits) {
                    lemma_prefix_value(digits, i - start);
                    assert(digits.subrange(0, i - start) =~= next);
                }
                if start == 1 {
                    assert(digits =~= s@.drop_first());
                } else {
                    assert(digits =~= s@);
                }
            }
            return None;
        }
    }
    proof {
        if start == 1 {
            assert(s@.subrange(start as int, n as int) =~= s@.drop_first());
        } else {
            assert(s@.subrange(start as int, n as int) =~= s@);
        }
    }
    if negative {
        Some(-(acc as i128))
    } else {
        Some(acc as i128)
    }
}

} // verus!
