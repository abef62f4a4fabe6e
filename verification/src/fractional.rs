//! The power 0.65 of a fixed-point number, exact to the last stored digit.

use crate::fixed::MICRO;
use crate::wide::{
    lemma_power_adds, lemma_power_grows_with_base, less_or_equal, mul_power, one, power, value,
};
use vstd::prelude::*;

verus! {

/// `p` (in millionths) is at most the power 0.65 of `r` (in millionths):
/// `(p / 10^6)^20 <= (r / 10^6)^13`, that is `p^20 <= 10^42 * r^13`.
pub open spec fn within_power_065(p: nat, r: nat) -> bool {
    power(p, 20) <= power(MICRO as nat, 7) * power(r, 13)
}

/// `p` is the power 0.65 of `r` rounded down to a millionth: it is within the
/// power, and the next millionth is not.
pub open spec fn is_power_065(p: nat, r: nat) -> bool {
    within_power_065(p, r) && !within_power_065(p + 1, r)
}

/// The power 0.65 of `r`, both in millionths, rounded down.
pub open spec fn spec_power_065(r: nat) -> nat {
    choose|p: nat| is_power_065(p, r)
}

/// What is within the power stays within it going down.
pub proof fn lemma_within_power_is_downward(p: nat, q: nat, r: nat)
    requires
        p <= q,
        within_power_065(q, r),
    ensures
        within_power_065(p, r),
{
    if p < q {
        lemma_power_grows_with_base(p, q, 20);
    }
}

/// Only one number is the power rounded down.
pub proof fn lemma_power_065_is_unique(p: nat, q: nat, r: nat)
    requires
        is_power_065(p, r),
        is_power_065(q, r),
    ensures
        p == q,
{
    if p < q {
        lemma_within_power_is_downward(p + 1, q, r);
    }
    if q < p {
        lemma_within_power_is_downward(q + 1, p, r);
    }
}

/// Above both one and `r` nothing is within the power: below one the power
/// is below one, and from one up it is at most `r`.
proof fn lemma_ceiling(hi: nat, r: nat)
    requires
        hi > MICRO,
        hi >= r,
        hi > r || r > MICRO,
    ensures
        !within_power_065(hi, r),
{
    lemma_power_adds(hi, 7, 13);
    lemma_power_grows_with_base(MICRO as nat, hi, 7);
    let a = power(hi, 7);
    let b = power(hi, 13);
    let c = power(MICRO as nat, 7);
    let d = power(r, 13);
    lemma_power_grows_with_base(0, hi, 13);
    if hi > r {
        lemma_power_grows_with_base(r, hi, 13);
    }
    assert(a * b > c * d) by (nonlinear_arith)
        requires
            a > c,
            b >= d,
            b > 0,
    ;
}

/// Nothing is below the power.
proof fn lemma_floor(r: nat)
    ensures
        within_power_065(0, r),
{
    reveal_with_fuel(power, 2);
    assert(power(0, 20) == 0 * power(0, 19));
}

/// Raises a number in millionths to the power 0.65, rounding down to a millionth.
pub fn power_065(r: u64) -> (p: u64)
    ensures
        p == spec_power_065(r as nat),
        is_power_065(p as nat, r as nat),
{
    let mut bound: Vec<u64> = one();
    mul_power(&mut bound, MICRO as u64, 7);
    mul_power(&mut bound, r, 13);
    proof {
        let m = power(MICRO as nat, 7);
        assert(1 * m * power(r as nat, 13) == m * power(r as nat, 13)) by (nonlinear_arith);
    }
    let mut lo: u64 = 0;
    let mut hi: u64 = if r > MICRO as u64 {
        r
    } else {
        MICRO as u64 + 1
    };
    proof {
        lemma_floor(r as nat);
        lemma_ceiling(hi as nat, r as nat);
    }
    while hi - lo > 1
        invariant
            lo < hi,
            bound@.len() == 21,
            value(bound@) == power(MICRO as nat, 7) * power(r as nat, 13),
            within_power_065(lo as nat, r as nat),
            !within_power_065(hi as nat, r as nat),
        decreases hi - lo,
    {
        let mid: u64 = lo + (hi - lo) / 2;
        let mut trial: Vec<u64> = one();
        mul_power(&mut trial, mid, 20);
        proof {
            assert(1 * power(mid as nat, 20) == power(mid as nat, 20)) by (nonlinear_arith);
        }
        if less_or_equal(&trial, &bound) {
            lo = mid;
        } else {
            hi = mid;
        }
    }
    proof {
        lemma_power_065_is_unique(lo as nat, spec_power_065(r as nat), r as nat);
    }
    lo
}

} // verus!
