//! Fixed-point arithmetic: exact integer formulas with a single, stated rounding.

use vstd::prelude::*;

verus! {

/// How many stored units make one: quantities are counted in millionths.
pub const MICRO: i64 = 1_000_000;

/// The largest divisor that the rounding divisions take: two to the power 120.
pub const DIVISOR_LIMIT: u128 = 0x0100_0000_0000_0000_0000_0000_0000_0000;

/// The quotient `a / b` rounded toward zero, for a positive divisor.
pub open spec fn trunc_div(a: int, b: int) -> int
    recommends
        b > 0,
{
    if a >= 0 {
        a / b
    } else {
        -((-a) / b)
    }
}

/// The magnitude of an integer.
pub open spec fn magnitude(a: int) -> int {
    if a >= 0 {
        a
    } else {
        -a
    }
}

/// An integer cut to the range of a colour channel: below 0 gives 0, above 255 gives 255.
pub open spec fn to_channel(x: int) -> u8 {
    if x <= 0 {
        0u8
    } else if x >= 255 {
        255u8
    } else {
        x as u8
    }
}

/// Rounding toward zero never moves a quotient away from zero nor past the dividend.
pub proof fn lemma_trunc_div_bounds(a: int, b: int)
    requires
        b > 0,
    ensures
        a >= 0 ==> 0 <= trunc_div(a, b) <= a,
        a <= 0 ==> a <= trunc_div(a, b) <= 0,
        magnitude(trunc_div(a, b)) <= magnitude(a),
{
    let m = magnitude(a);
    assert(0 <= m / b <= m) by (nonlinear_arith)
        requires
            m >= 0,
            b > 0,
    ;
}

/// Dividends two divisors apart or more have different quotients, in the
/// same order, however the quotients are rounded.
pub proof fn lemma_trunc_div_separates(a: int, b: int, d: int)
    requires
        d > 0,
        a - b >= 2 * d,
    ensures
        trunc_div(a, d) > trunc_div(b, d),
{
    assert(trunc_div(a, d) > trunc_div(b, d)) by (nonlinear_arith)
        requires
            d > 0,
            a - b >= 2 * d,
    ;
}

/// A quotient of at least `k * b` by `b` is at least `k`.
pub proof fn lemma_div_at_least(x: int, b: int, k: int)
    requires
        b > 0,
        x >= k * b,
    ensures
        x / b >= k,
{
    assert(x / b >= k) by (nonlinear_arith)
        requires
            b > 0,
            x >= k * b,
    ;
}

/// A quotient below `k * b` by `b` is below `k`.
pub proof fn lemma_div_below(x: int, b: int, k: int)
    requires
        b > 0,
        0 <= x < k * b,
    ensures
        0 <= x / b < k,
{
    assert(0 <= x / b < k) by (nonlinear_arith)
        requires
            b > 0,
            0 <= x < k * b,
    ;
}

/// Cuts an integer to a colour channel.
pub fn channel_from(x: i128) -> (c: u8)
    ensures
        c == to_channel(x as int),
{
    if x <= 0 {
        0
    } else if x >= 255 {
        255
    } else {
        x as u8
    }
}

/// The magnitude of an integer, which always fits the unsigned type.
pub fn magnitude_of(a: i128) -> (m: u128)
    ensures
        m == magnitude(a as int),
{
    if a < 0 {
        ((-(a + 1)) as u128) + 1
    } else {
        a as u128
    }
}

/// The channel `255 * v * w / den`, rounded toward zero and cut to 0..=255, for
/// factors of any size: the product is never formed where it would not fit.
pub fn product_channel(v: i128, w: i128, den: u128) -> (c: u8)
    requires
        0 < den <= DIVISOR_LIMIT,
    ensures
        c == to_channel(trunc_div(255 * (v * w), den as int)),
{
    let same_sign: bool = (v > 0 && w > 0) || (v < 0 && w < 0);
    if !same_sign {
        proof {
            assert(v * w <= 0) by (nonlinear_arith)
                requires
                    !((v > 0 && w > 0) || (v < 0 && w < 0)),
            ;
            lemma_trunc_div_bounds(255 * (v * w), den as int);
        }
        return 0;
    }
    let a: u128 = magnitude_of(v);
    let b: u128 = magnitude_of(w);
    proof {
        assert(a * b == v * w && a * b > 0) by (nonlinear_arith)
            requires
                a == magnitude(v as int),
                b == magnitude(w as int),
                (v > 0 && w > 0) || (v < 0 && w < 0),
        ;
    }
    match a.checked_mul(b) {
        Some(p) => {
            if p >= den {
                proof {
                    lemma_div_at_least(255 * (p as int), den as int, 255);
                }
                255
            } else {
                proof {
                    lemma_div_below(255 * (p as int), den as int, 255);
                }
                let q: u128 = (255 * p) / den;
                q as u8
            }
        },
        None => {
            proof {
                lemma_div_at_least(255 * (a * b), den as int, 255);
            }
            255
        },
    }
}

} // verus!
