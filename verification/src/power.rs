//! Powers of natural numbers.

use vstd::prelude::*;

verus! {

/// `base` raised to `exponent`.
pub open spec fn power(base: nat, exponent: nat) -> nat
    decreases exponent,
{
    if exponent == 0 {
        1
    } else {
        base * power(base, (exponent - 1) as nat)
    }
}

/// One more in the exponent is one more factor.
pub proof fn law_power(base: nat, exponent: nat)
    ensures
        power(base, 0) == 1,
        power(base, exponent + 1) == base * power(base, exponent),
{
}

/// A power of a positive base is positive.
pub proof fn lemma_power_positive(base: nat, exponent: nat)
    requires
        base > 0,
    ensures
        power(base, exponent) > 0,
    decreases exponent,
{
    if exponent > 0 {
        lemma_power_positive(base, (exponent - 1) as nat);
        assert(base * power(base, (exponent - 1) as nat) > 0) by (nonlinear_arith)
            requires
                base > 0,
                power(base, (exponent - 1) as nat) > 0,
        ;
    }
}

/// Exponents add up under multiplication.
pub proof fn lemma_power_adds(base: nat, first: nat, second: nat)
    ensures
        power(base, first + second) == power(base, first) * power(base, second),
    decreases first,
{
    if first == 0 {
        assert(power(base, first) == 1);
    } else {
        lemma_power_adds(base, (first - 1) as nat, second);
        let rest = power(base, (first - 1) as nat);
        let tail = power(base, second);
        assert((first + second - 1) as nat == (first - 1) as nat + second);
        assert(base * (rest * tail) == (base * rest) * tail) by (nonlinear_arith);
    }
}

/// Powers of a positive base do not decrease as the exponent grows.
pub proof fn lemma_power_monotone(base: nat, small: nat, large: nat)
    requires
        base > 0,
        small <= large,
    ensures
        power(base, small) <= power(base, large),
{
    let rest = (large - small) as nat;
    lemma_power_adds(base, small, rest);
    lemma_power_positive(base, rest);
    assert(power(base, small) <= power(base, small) * power(base, rest)) by (nonlinear_arith)
        requires
            power(base, rest) > 0,
    ;
}

/// `base` raised to `exponent`, where the result fits.
pub fn power_u64(base: u64, exponent: u32) -> (result: u64)
    requires
        base > 0,
        power(base as nat, exponent as nat) <= u64::MAX,
    ensures
        result == power(base as nat, exponent as nat),
{
    let mut result: u64 = 1;
    let mut done: u32 = 0;
    while done < exponent
        invariant
            base > 0,
            done <= exponent,
            power(base as nat, exponent as nat) <= u64::MAX,
            result == power(base as nat, done as nat),
        decreases exponent - done,
    {
        proof {
            lemma_power_monotone(base as nat, (done + 1) as nat, exponent as nat);
            assert(power(base as nat, (done + 1) as nat) == base as nat * power(
                base as nat,
                done as nat,
            ));
            assert(result as nat * base as nat == base as nat * result as nat) by (nonlinear_arith);
        }
        result = result * base;
        done = done + 1;
    }
    result
}

} // verus!
