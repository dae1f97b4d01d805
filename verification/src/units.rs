//! Decimal text for counters, byte sizes and transfer rates.

use vstd::prelude::*;
use vstd::string::*;

verus! {

/// The character of one decimal digit.
pub open spec fn digit_char(d: int) -> char {
    if d == 0 {
        '0'
    } else if d == 1 {
        '1'
    } else if d == 2 {
        '2'
    } else if d == 3 {
        '3'
    } else if d == 4 {
        '4'
    } else if d == 5 {
        '5'
    } else if d == 6 {
        '6'
    } else if d == 7 {
        '7'
    } else if d == 8 {
        '8'
    } else {
        '9'
    }
}

/// The decimal numeral of `n`, most significant digit first, without
/// leading zeros.
pub open spec fn decimal(n: nat) -> Seq<char>
    decreases n,
{
    if n < 10 {
        seq![digit_char(n as int)]
    } else {
        decimal(n / 10).push(digit_char((n % 10) as int))
    }
}

/// The one-character text of a decimal digit.
fn digit_text(d: u8) -> (t: &'static str)
    requires
        d < 10,
    ensures
        t@ == seq![digit_char(d as int)],
{
    proof {
        reveal_strlit("0");
        reveal_strlit("1");
        reveal_strlit("2");
        reveal_strlit("3");
        reveal_strlit("4");
        reveal_strlit("5");
        reveal_strlit("6");
        reveal_strlit("7");
        reveal_strlit("8");
        reveal_strlit("9");
    }
    match d {
        0 => "0",
        1 => "1",
        2 => "2",
        3 => "3",
        4 => "4",
        5 => "5",
        6 => "6",
        7 => "7",
        8 => "8",
        _ => "9",
    }
}

/// Writes `n` as a decimal numeral.
pub fn decimal_text(n: u128) -> (text: String)
    ensures
        text@ == decimal(n as nat),
    decreases n,
{
    if n < 10 {
        let d: u8 = n as u8;
        String::from_str(digit_text(d))
    } else {
        let d: u8 = (n % 10) as u8;
        let mut text: String = decimal_text(n / 10);
        text.append(digit_text(d));
        text
    }
}

/// The value one on the scale on which binary64 quantities are held here: a
/// quantity `x >= 1` stands as the natural number `x * 2^52`, which is whole
/// for every binary64 value of that range.
pub const ONE: u128 = 0x10_0000_0000_0000;

/// The end of the range of a binary64 significand, 2^53.
pub const SIGNIFICAND_END: u128 = 0x20_0000_0000_0000;

/// The distance between neighbouring binary64 values around a quantity that
/// stands as `n`: the least power of two `u` with `n / u < 2^53`.
pub open spec fn spacing(n: nat) -> nat
    decreases n,
{
    if n < SIGNIFICAND_END {
        1
    } else {
        2 * spacing(n / 2)
    }
}

/// The whole number nearest to `n / d`; a fraction of exactly one half goes
/// to the even neighbour.
pub open spec fn round_half_even(n: nat, d: nat) -> nat {
    let q = n / d;
    let r = n % d;
    if 2 * r < d || (2 * r == d && q % 2 == 0) {
        q
    } else {
        q + 1
    }
}

/// The binary64 value nearest to `n / d`, ties to the even significand, for
/// `n / d` that stands for one or more.
pub open spec fn nearest(n: nat, d: nat) -> nat {
    let u = spacing(n / d);
    round_half_even(n, d * u) * u
}

/// Divides `v` by one thousand, in binary64 arithmetic, until it is below one
/// thousand or the last unit is reached; `unit` counts the divisions.
pub open spec fn scaled(v: nat, unit: nat) -> (nat, nat)
    decreases 3 - unit,
{
    if unit < 3 && v >= 1000 * ONE {
        scaled(nearest(v, 1000), unit + 1)
    } else {
        (v, unit)
    }
}

/// The quantity that stands as `v`, in tenths, rounded half to even.
pub open spec fn tenths(v: nat) -> nat {
    round_half_even(10 * v, ONE as nat)
}

/// The numeral of `t` tenths with one digit behind the point.
pub open spec fn one_decimal(t: nat) -> Seq<char> {
    decimal(t / 10).push('.').push(digit_char((t % 10) as int))
}

/// The name of the unit reached after `unit` divisions by one thousand.
pub open spec fn unit_name(unit: nat) -> Seq<char> {
    if unit == 0 {
        seq!['B']
    } else if unit == 1 {
        seq!['k', 'B']
    } else if unit == 2 {
        seq!['M', 'B']
    } else {
        seq!['G', 'B']
    }
}

/// The text of a byte count: below one thousand the bare count and `B`; from
/// there on the count in kB, MB or GB (steps of one thousand) with one
/// decimal digit. The scaled figure is the one that IEEE 754 binary64
/// arithmetic gives, so that the text agrees digit for digit with what a
/// floating-point formatter prints: the count is converted to binary64,
/// each division is rounded to the nearest value, and the decimal digit is
/// rounded half to even.
pub open spec fn size_text(bytes: nat) -> Seq<char> {
    if bytes < 1000 {
        decimal(bytes) + unit_name(0)
    } else {
        let (v, unit) = scaled(nearest(bytes * (ONE as nat), 1), 0);
        one_decimal(tenths(v)) + unit_name(unit)
    }
}

/// The text of a transfer rate in whole bytes per second: a rate below one
/// is `0 B/s`, any other is the size text of the rate followed by `/s`.
pub open spec fn speed_text(bytes_per_sec: nat) -> Seq<char> {
    if bytes_per_sec < 1 {
        seq!['0', ' ', 'B', '/', 's']
    } else {
        size_text(bytes_per_sec) + seq!['/', 's']
    }
}

/// Every character of a decimal numeral is a digit.
pub proof fn lemma_decimal_is_digits(n: nat)
    ensures
        decimal(n).len() >= 1,
        forall|i: int| 0 <= i < decimal(n).len() ==> '0' <= #[trigger] decimal(n)[i] <= '9',
    decreases n,
{
    if n >= 10 {
        lemma_decimal_is_digits(n / 10);
    }
}

/// The text of a byte count is written with digits, a point and the letters
/// of its unit, so that it stands on one line.
pub proof fn lemma_size_text_on_one_line(bytes: nat)
    ensures
        forall|i: int| 0 <= i < size_text(bytes).len() ==> #[trigger] size_text(bytes)[i] != '\n',
{
    if bytes < 1000 {
        lemma_decimal_is_digits(bytes);
        let digits = decimal(bytes);
        assert forall|i: int| 0 <= i < size_text(bytes).len() implies #[trigger] size_text(
            bytes,
        )[i] != '\n' by {
            if i < digits.len() {
                assert(size_text(bytes)[i] == digits[i]);
            }
        }
    } else {
        let (v, unit) = scaled(nearest(bytes * (ONE as nat), 1), 0);
        let t = tenths(v);
        lemma_decimal_is_digits(t / 10);
        let digits = decimal(t / 10);
        let figure = one_decimal(t);
        assert forall|i: int| 0 <= i < figure.len() implies #[trigger] figure[i] != '\n' by {
            if i < digits.len() {
                assert(figure[i] == digits[i]);
            }
        }
        assert forall|i: int| 0 <= i < size_text(bytes).len() implies #[trigger] size_text(
            bytes,
        )[i] != '\n' by {
            if i < figure.len() {
                assert(size_text(bytes)[i] == figure[i]);
            } else {
                assert(size_text(bytes)[i] == unit_name(unit)[i - figure.len()]);
            }
        }
    }
}

/// The distance between neighbouring values is one at least, and no more
/// than the quantity itself.
proof fn lemma_spacing_bounds(n: nat)
    ensures
        1 <= spacing(n),
        n >= 1 ==> spacing(n) <= n,
    decreases n,
{
    if n >= SIGNIFICAND_END {
        lemma_spacing_bounds(n / 2);
    }
}

/// Around a quantity of one or more, the binary64 values lie no further
/// apart than the quantity divided by 2^52.
proof fn lemma_spacing_is_fine(n: nat)
    requires
        n >= ONE,
    ensures
        spacing(n) * ONE <= n,
    decreases n,
{
    if n >= SIGNIFICAND_END {
        lemma_spacing_is_fine(n / 2);
    }
}

/// The division by one thousand is never counted back.
proof fn lemma_scaled_counts_up(v: nat, unit: nat)
    ensures
        scaled(v, unit).1 >= unit,
    decreases 3 - unit,
{
    if unit < 3 && v >= 1000 * ONE {
        lemma_scaled_counts_up(nearest(v, 1000), unit + 1);
    }
}

/// A count of one thousand bytes or more is never shown in bytes: its text
/// has the unit kB, MB or GB.
pub proof fn lemma_large_counts_are_scaled(bytes: nat)
    requires
        1000 <= bytes <= u64::MAX,
    ensures
        scaled(nearest(bytes * (ONE as nat), 1), 0).1 >= 1,
{
    let n = bytes * (ONE as nat);
    let u = spacing(n);
    let v = nearest(n, 1);
    lemma_spacing_bounds(n);
    assert(v >= (n / u) * u) by (nonlinear_arith)
        requires
            v == round_half_even(n, u) * u,
            round_half_even(n, u) >= n / u,
            u >= 1,
    ;
    assert((n / u) * u > n - u) by (nonlinear_arith)
        requires
            u >= 1,
    ;
    if bytes < 1024 {
        assert(u == 512) by {
            reveal_with_fuel(spacing, 11);
        }
        assert((n / 512) * 512 == n) by (nonlinear_arith)
            requires
                n % 512 == 0,
        ;
    } else {
        lemma_spacing_is_fine(n);
    }
    lemma_scaled_counts_up(nearest(v, 1000), 1);
}

/// The distance between neighbouring binary64 values, see [`spacing`].
fn spacing_of(n: u128) -> (u: u128)
    ensures
        u == spacing(n as nat),
        1 <= u,
        n >= 1 ==> u <= n,
    decreases n,
{
    proof {
        lemma_spacing_bounds(n as nat);
    }
    if n < SIGNIFICAND_END {
        1
    } else {
        let half: u128 = spacing_of(n / 2);
        2 * half
    }
}

/// Divides and rounds to the nearest whole number, see [`round_half_even`].
pub fn round_div(n: u128, d: u128) -> (q: u128)
    requires
        0 < d,
        2 * d <= u128::MAX,
        n / d < u128::MAX,
    ensures
        q == round_half_even(n as nat, d as nat),
        n / d <= q <= n / d + 1,
{
    let q: u128 = n / d;
    let r: u128 = n % d;
    if 2 * r < d || (2 * r == d && q % 2 == 0) {
        q
    } else {
        q + 1
    }
}

/// The binary64 value nearest to a quotient, see [`nearest`].
fn nearest_of(n: u128, d: u128) -> (v: u128)
    requires
        1 <= d <= 1000,
        d <= n,
        n <= 0x100_0000_0000_0000_0000_0000_0000_0000,
    ensures
        v == nearest(n as nat, d as nat),
        v <= 2 * n,
{
    let whole: u128 = n / d;
    assert(1 <= whole && whole * d <= n) by (nonlinear_arith)
        requires
            1 <= d <= n,
            whole == n / d,
    ;
    let u: u128 = spacing_of(whole);
    assert(1 <= d * u <= n) by (nonlinear_arith)
        requires
            1 <= d,
            1 <= u <= whole,
            whole * d <= n,
    ;
    let step: u128 = d * u;
    assert(n / step <= n / u && (n / u) * u <= n) by (nonlinear_arith)
        requires
            step == d * u,
            1 <= d,
            1 <= u,
    ;
    let q: u128 = round_div(n, step);
    assert(q * u <= 2 * n) by (nonlinear_arith)
        requires
            q <= n / step + 1,
            n / step <= n / u,
            (n / u) * u <= n,
            1 <= u <= n,
    ;
    q * u
}

/// Writes `t` tenths with one digit behind the point.
pub fn one_decimal_text(t: u128) -> (text: String)
    ensures
        text@ == one_decimal(t as nat),
{
    proof {
        reveal_strlit(".");
    }
    let digit: u8 = (t % 10) as u8;
    let mut text: String = decimal_text(t / 10);
    text.append(".");
    text.append(digit_text(digit));
    text
}

/// The text of a byte count, see [`size_text`].
pub fn format_bytes(bytes: u64) -> (text: String)
    ensures
        text@ == size_text(bytes as nat),
{
    proof {
        reveal_strlit("B");
        reveal_strlit("kB");
        reveal_strlit("MB");
        reveal_strlit("GB");
    }
    if bytes < 1000 {
        let mut text: String = decimal_text(bytes as u128);
        text.append("B");
        return text;
    }
    let wide: u128 = bytes as u128;
    assert(wide * ONE <= 0x1_0000_0000_0000_0000 * ONE) by (nonlinear_arith)
        requires
            wide <= 0xffff_ffff_ffff_ffff,
    ;
    let start: u128 = nearest_of(wide * ONE, 1);
    let mut v: u128 = start;
    let mut unit: usize = 0;
    while unit < 3 && v >= 1000 * ONE
        invariant
            unit <= 3,
            unit == 0 ==> v <= 0x20_0000_0000_0000_0000_0000_0000_0000,
            unit == 1 ==> v <= 0x40_0000_0000_0000_0000_0000_0000_0000,
            unit == 2 ==> v <= 0x80_0000_0000_0000_0000_0000_0000_0000,
            v <= 0x100_0000_0000_0000_0000_0000_0000_0000,
            scaled(v as nat, unit as nat) == scaled(start as nat, 0),
        decreases 3 - unit,
    {
        v = nearest_of(v, 1000);
        unit = unit + 1;
    }
    let t: u128 = round_div(10 * v, ONE);
    let mut text: String = one_decimal_text(t);
    proof {
        lemma_large_counts_are_scaled(bytes as nat);
    }
    let name: &'static str = match unit {
        1 => "kB",
        2 => "MB",
        _ => "GB",
    };
    text.append(name);
    text
}

/// The text of a transfer rate, see [`speed_text`].
pub fn format_speed(bytes_per_sec: u64) -> (text: String)
    ensures
        text@ == speed_text(bytes_per_sec as nat),
{
    proof {
        reveal_strlit("0 B/s");
        reveal_strlit("/s");
    }
    if bytes_per_sec < 1 {
        String::from_str("0 B/s")
    } else {
        let mut text: String = format_bytes(bytes_per_sec);
        text.append("/s");
        text
    }
}

} // verus!
