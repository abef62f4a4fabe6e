//! Decimal text of integers and of fixed-point quantities.

use crate::fixed::{magnitude, magnitude_of, DIVISOR_LIMIT};
use vstd::prelude::*;

verus! {

/// The largest magnitude of a numerator that `push_quantity` takes: two to
/// the power 100.
pub const NUMERATOR_LIMIT: i128 = 0x10_0000_0000_0000_0000_0000_0000;

/// The character of a decimal digit.
pub open spec fn digit(d: int) -> char {
    if d == 0 {
        '0'
    } else if d == 1 {
        '1'
    } else if d == 2 {
        '2'
    } else if d == 3 {
        '3'
    } else if d == 4 {
        '4'
    } else if d == 5 {
        '5'
    } else if d == 6 {
        '6'
    } else if d == 7 {
        '7'
    } else if d == 8 {
        '8'
    } else {
        '9'
    }
}

/// The decimal digits of a natural number, without leading zeros.
pub open spec fn decimal(n: nat) -> Seq<char>
    decreases n,
{
    if n < 10 {
        seq![digit(n as int)]
    } else {
        decimal(n / 10).push(digit((n % 10) as int))
    }
}

/// The last `width` decimal digits of a natural number, zeros included.
pub open spec fn padded(n: nat, width: nat) -> Seq<char>
    decreases width,
{
    if width == 0 {
        Seq::empty()
    } else {
        padded(n / 10, (width - 1) as nat).push(digit((n % 10) as int))
    }
}

/// Ten to the power `e`.
pub open spec fn pow10(e: nat) -> nat
    decreases e,
{
    if e == 0 {
        1
    } else {
        10 * pow10((e - 1) as nat)
    }
}

/// The quotient `num / den` rounded to the nearest integer, a tie to the even one.
pub open spec fn round_half_even(num: nat, den: nat) -> nat
    recommends
        den > 0,
{
    let q = num / den;
    let r = num % den;
    if 2 * r < den || (2 * r == den && q % 2 == 0) {
        q
    } else {
        q + 1
    }
}

/// The text of `scaled / 10^decimals` with exactly `decimals` digits after the
/// point, and no point where there are none; `negative` puts a minus sign first.
pub open spec fn fixed_text(negative: bool, scaled: nat, decimals: nat) -> Seq<char> {
    let sign = if negative {
        seq!['-']
    } else {
        Seq::<char>::empty()
    };
    let whole = decimal(scaled / pow10(decimals));
    let fraction = if decimals == 0 {
        Seq::<char>::empty()
    } else {
        seq!['.'] + padded(scaled % pow10(decimals), decimals)
    };
    sign + whole + fraction
}

/// The text of the quantity `num / den` with `decimals` digits after the
/// point, rounded to the nearest, a tie to the even digit. A negative
/// quantity keeps its sign even where it rounds to zero.
pub open spec fn quantity_text(num: int, den: int, decimals: nat) -> Seq<char> {
    fixed_text(
        num < 0,
        round_half_even((magnitude(num) * pow10(decimals)) as nat, den as nat),
        decimals,
    )
}

/// Appends one decimal digit.
pub fn push_digit(out: &mut String, d: u128)
    requires
        d < 10,
    ensures
        final(out)@ == old(out)@.push(digit(d as int)),
{
    proof {
        reveal_strlit("0");
        reveal_strlit("1");
        reveal_strlit("2");
        reveal_strlit("3");
        reveal_strlit("4");
        reveal_strlit("5");
        reveal_strlit("6");
        reveal_strlit("7");
        reveal_strlit("8");
        reveal_strlit("9");
    }
    let ghost before = out@;
    if d == 0 {
        out.append("0");
    } else if d == 1 {
        out.append("1");
    } else if d == 2 {
        out.append("2");
    } else if d == 3 {
        out.append("3");
    } else if d == 4 {
        out.append("4");
    } else if d == 5 {
        out.append("5");
    } else if d == 6 {
        out.append("6");
    } else if d == 7 {
        out.append("7");
    } else if d == 8 {
        out.append("8");
    } else {
        out.append("9");
    }
    assert(out@ =~= before.push(digit(d as int)));
}

/// Appends the decimal digits of `n`.
pub fn push_decimal(out: &mut String, n: u128)
    ensures
        final(out)@ == old(out)@ + decimal(n as nat),
    decreases n,
{
    let ghost before = out@;
    if n < 10 {
        push_digit(out, n);
        assert(out@ =~= before + decimal(n as nat));
    } else {
        push_decimal(out, n / 10);
        push_digit(out, n % 10);
        assert(out@ =~= before + decimal(n as nat));
    }
}

/// Appends the last `width` decimal digits of `n`, zeros included.
pub fn push_padded(out: &mut String, n: u128, width: u32)
    ensures
        final(out)@ == old(out)@ + padded(n as nat, width as nat),
    decreases width,
{
    let ghost before = out@;
    if width == 0 {
        assert(out@ =~= before + padded(n as nat, width as nat));
    } else {
        push_padded(out, n / 10, width - 1);
        push_digit(out, n % 10);
        assert(out@ =~= before + padded(n as nat, width as nat));
    }
}

/// Ten to the power `e`, for the powers that fit.
pub fn power_of_ten(e: u32) -> (p: u128)
    requires
        e <= 6,
    ensures
        p == pow10(e as nat),
        1 <= p <= 1_000_000,
{
    reveal_with_fuel(pow10, 7);
    if e == 0 {
        1
    } else if e == 1 {
        10
    } else if e == 2 {
        100
    } else if e == 3 {
        1_000
    } else if e == 4 {
        10_000
    } else if e == 5 {
        100_000
    } else {
        1_000_000
    }
}

/// Divides, rounding to the nearest integer and a tie to the even one.
pub fn round_div(num: u128, den: u128) -> (q: u128)
    requires
        0 < den <= DIVISOR_LIMIT,
    ensures
        q == round_half_even(num as nat, den as nat),
{
    let q: u128 = num / den;
    let r: u128 = num % den;
    if 2 * r < den || (2 * r == den && q % 2 == 0) {
        q
    } else {
        assert(q < u128::MAX) by (nonlinear_arith)
            requires
                q == num as int / den as int,
                r == num as int % den as int,
                2 * r >= den,
                den > 0,
                num <= u128::MAX,
        ;
        q + 1
    }
}

/// Appends the text of `scaled / 10^decimals`.
#[verifier::rlimit(30)]
pub fn push_fixed(out: &mut String, negative: bool, scaled: u128, decimals: u32)
    requires
        decimals <= 6,
    ensures
        final(out)@ == old(out)@ + fixed_text(negative, scaled as nat, decimals as nat),
{
    let ghost before = out@;
    let unit: u128 = power_of_ten(decimals);
    if negative {
        out.append("-");
    }
    push_decimal(out, scaled / unit);
    if decimals > 0 {
        out.append(".");
        push_padded(out, scaled % unit, decimals);
    }
    proof {
        reveal_strlit("-");
        reveal_strlit(".");
        assert("-"@ =~= seq!['-']);
        assert("."@ =~= seq!['.']);
        assert(out@ =~= before + fixed_text(negative, scaled as nat, decimals as nat));
    }
}

/// Appends the text of the quantity `num / den` with `decimals` digits after
/// the point.
pub fn push_quantity(out: &mut String, num: i128, den: u128, decimals: u32)
    requires
        -NUMERATOR_LIMIT <= num <= NUMERATOR_LIMIT,
        0 < den <= DIVISOR_LIMIT,
        decimals <= 6,
    ensures
        final(out)@ == old(out)@ + quantity_text(num as int, den as int, decimals as nat),
{
    let unit: u128 = power_of_ten(decimals);
    let size: u128 = magnitude_of(num);
    assert(size * unit <= NUMERATOR_LIMIT * 1_000_000) by (nonlinear_arith)
        requires
            0 <= size <= NUMERATOR_LIMIT,
            0 <= unit <= 1_000_000,
    ;
    let scaled: u128 = round_div(size * unit, den);
    push_fixed(out, num < 0, scaled, decimals);
}

} // verus!
