//! Natural numbers of any size, as limbs of 64 bits with the least significant
//! first: just enough arithmetic to compare products of many factors exactly.

use vstd::prelude::*;

verus! {

/// The base of the limbs: two to the power 64.
pub open spec fn base() -> nat {
    0x1_0000_0000_0000_0000
}

/// The weight of limb `i`: the base to the power `i`.
pub open spec fn weight(i: nat) -> nat
    decreases i,
{
    if i == 0 {
        1
    } else {
        base() * weight((i - 1) as nat)
    }
}

/// The number that the limbs stand for.
pub open spec fn value(limbs: Seq<u64>) -> nat
    decreases limbs.len(),
{
    if limbs.len() == 0 {
        0
    } else {
        value(limbs.drop_last()) + limbs.last() as nat * weight((limbs.len() - 1) as nat)
    }
}

/// `b` to the power `e`.
pub open spec fn power(b: nat, e: nat) -> nat
    decreases e,
{
    if e == 0 {
        1
    } else {
        b * power(b, (e - 1) as nat)
    }
}

/// One more limb on top adds its value times its weight.
pub proof fn lemma_value_push(limbs: Seq<u64>, top: u64)
    ensures
        value(limbs.push(top)) == value(limbs) + top as nat * weight(limbs.len()),
{
    assert(limbs.push(top).drop_last() =~= limbs);
}

/// A number of `n` limbs is below the weight of limb `n`.
pub proof fn lemma_value_bound(limbs: Seq<u64>)
    ensures
        value(limbs) < weight(limbs.len()),
    decreases limbs.len(),
{
    if limbs.len() > 0 {
        lemma_value_bound(limbs.drop_last());
        let low = value(limbs.drop_last());
        let top = limbs.last() as nat;
        let w = weight((limbs.len() - 1) as nat);
        assert(low + top * w < base() * w) by (nonlinear_arith)
            requires
                low < w,
                top < base(),
        ;
    }
}

/// Powers multiply where exponents add.
pub proof fn lemma_power_adds(b: nat, e1: nat, e2: nat)
    ensures
        power(b, e1 + e2) == power(b, e1) * power(b, e2),
    decreases e1,
{
    if e1 == 0 {
        assert(power(b, e1) * power(b, e2) == power(b, e2)) by (nonlinear_arith)
            requires
                power(b, e1) == 1,
        ;
    } else {
        lemma_power_adds(b, (e1 - 1) as nat, e2);
        let lower = power(b, (e1 - 1) as nat);
        let other = power(b, e2);
        assert(b * (lower * other) == (b * lower) * other) by (nonlinear_arith);
    }
}

/// A larger base has a larger power, for every exponent but zero.
pub proof fn lemma_power_grows_with_base(a: nat, b: nat, e: nat)
    requires
        a < b,
        e > 0,
    ensures
        power(a, e) < power(b, e),
        0 < power(b, e),
    decreases e,
{
    if e == 1 {
        assert(power(a, 0) == 1 && power(b, 0) == 1);
        assert(power(a, 1) == a * 1 && power(b, 1) == b * 1);
    } else {
        lemma_power_grows_with_base(a, b, (e - 1) as nat);
        let pa = power(a, (e - 1) as nat);
        let pb = power(b, (e - 1) as nat);
        assert(a * pa < b * pb && 0 < b * pb) by (nonlinear_arith)
            requires
                a < b,
                pa < pb,
        ;
    }
}

/// Multiplies a number by a single limb, in place; the product has one limb more.
pub fn mul_small(limbs: &mut Vec<u64>, k: u64)
    ensures
        final(limbs)@.len() == old(limbs)@.len() + 1,
        value(final(limbs)@) == value(old(limbs)@) * k,
{
    let ghost given = limbs@;
    let n: usize = limbs.len();
    let mut carry: u128 = 0;
    let mut i: usize = 0;
    proof {
        assert(given.take(0) =~= limbs@.take(0));
        assert(value(given.take(0)) * k == 0) by (nonlinear_arith)
            requires
                value(given.take(0)) == 0,
        ;
    }
    while i < n
        invariant
            i <= n,
            n == given.len(),
            limbs@.len() == n,
            carry < base(),
            forall|j: int| i <= j < n ==> limbs@[j] == given[j],
            value(limbs@.take(i as int)) + carry * weight(i as nat) == value(given.take(i as int))
                * k,
        decreases n - i,
    {
        let limb: u64 = limbs[i];
        assert((limb as u128) * (k as u128) + carry <= u128::MAX) by (nonlinear_arith)
            requires
                limb <= u64::MAX,
                k <= u64::MAX,
                carry < base(),
        ;
        let prod: u128 = (limb as u128) * (k as u128) + carry;
        let low: u64 = (prod % 0x1_0000_0000_0000_0000u128) as u64;
        let high: u128 = prod / 0x1_0000_0000_0000_0000u128;
        let ghost done = limbs@.take(i as int);
        limbs.set(i, low);
        proof {
            let before = given.take(i as int);
            assert(given.take(i + 1) =~= before.push(limb));
            assert(limbs@.take(i + 1) =~= done.push(low));
            lemma_value_push(before, limb);
            lemma_value_push(done, low);
            let w = weight(i as nat);
            let vo = value(done);
            let vt = value(before);
            assert(vo + low * w + high * (base() * w) == (vt + limb * w) * k) by (nonlinear_arith)
                requires
                    prod == limb * k + carry,
                    prod == low + base() * high,
                    vo + carry * w == vt * k,
            ;
        }
        carry = high;
        i += 1;
    }
    proof {
        assert(given.take(n as int) =~= given);
        assert(limbs@.take(n as int) =~= limbs@);
        lemma_value_push(limbs@, carry as u64);
    }
    limbs.push(carry as u64);
}

/// Multiplies a number `n` times by a single limb, in place; the product has
/// `n` limbs more.
pub fn mul_power(limbs: &mut Vec<u64>, k: u64, n: usize)
    ensures
        final(limbs)@.len() == old(limbs)@.len() + n,
        value(final(limbs)@) == value(old(limbs)@) * power(k as nat, n as nat),
{
    let ghost given = limbs@;
    let mut i: usize = 0;
    proof {
        assert(value(given) * power(k as nat, 0) == value(given)) by (nonlinear_arith)
            requires
                power(k as nat, 0) == 1,
        ;
    }
    while i < n
        invariant
            i <= n,
            limbs@.len() == given.len() + i,
            value(limbs@) == value(given) * power(k as nat, i as nat),
        decreases n - i,
    {
        proof {
            let v = value(given);
            let p = power(k as nat, i as nat);
            assert((v * p) * k == v * (k * p)) by (nonlinear_arith);
        }
        mul_small(limbs, k);
        i += 1;
    }
}

/// The number one, as a single limb.
pub fn one() -> (limbs: Vec<u64>)
    ensures
        limbs@.len() == 1,
        value(limbs@) == 1,
{
    let mut limbs: Vec<u64> = Vec::new();
    limbs.push(1);
    proof {
        lemma_value_push(Seq::<u64>::empty(), 1);
        assert(limbs@ =~= Seq::<u64>::empty().push(1u64));
    }
    limbs
}

/// Tells whether one number is at most another of as many limbs.
pub fn less_or_equal(a: &Vec<u64>, b: &Vec<u64>) -> (le: bool)
    requires
        a@.len() == b@.len(),
    ensures
        le == (value(a@) <= value(b@)),
{
    let mut j: usize = a.len();
    proof {
        assert(a@.take(j as int) =~= a@);
        assert(b@.take(j as int) =~= b@);
    }
    while j > 0
        invariant
            j <= a@.len(),
            a@.len() == b@.len(),
            value(a@) - value(b@) == value(a@.take(j as int)) - value(b@.take(j as int)),
        decreases j,
    {
        let x: u64 = a[j - 1];
        let y: u64 = b[j - 1];
        proof {
            let lower_a = a@.take(j - 1);
            let lower_b = b@.take(j - 1);
            assert(a@.take(j as int) =~= lower_a.push(x));
            assert(b@.take(j as int) =~= lower_b.push(y));
            lemma_value_push(lower_a, x);
            lemma_value_push(lower_b, y);
            lemma_value_bound(lower_a);
            lemma_value_bound(lower_b);
            let w = weight((j - 1) as nat);
            let va = value(lower_a);
            let vb = value(lower_b);
            if x < y {
                assert(va + x * w < vb + y * w) by (nonlinear_arith)
                    requires
                        va < w,
                        0 <= vb,
                        x < y,
                ;
            }
            if x > y {
                assert(va + x * w > vb + y * w) by (nonlinear_arith)
                    requires
                        vb < w,
                        0 <= va,
                        x > y,
                ;
            }
        }
        if x != y {
            return x < y;
        }
        j -= 1;
    }
    assert(a@.take(0) =~= b@.take(0));
    true
}

} // verus!
