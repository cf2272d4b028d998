//! Natural numbers of any size.
//!
//! The arithmetic is `num_bigint`'s. Each private function below hands one
//! operation to it, from digits in base 2^32 to digits in base 2^32.

use num_bigint::BigUint;
use num_traits::{One, ToPrimitive, Zero};
use vstd::prelude::*;

use crate::power::power;

verus! {

/// The number that `limbs` spells in base 2^32, least significant digit first.
pub open spec fn limbs_value(limbs: Seq<u32>) -> nat
    decreases limbs.len(),
{
    if limbs.len() == 0 {
        0
    } else {
        limbs[0] as nat + 0x1_0000_0000 * limbs_value(limbs.drop_first())
    }
}

/// `BigUint::from(u64)` is the number itself.
#[verifier::external_body]
fn limbs_from_u64(value: u64) -> (limbs: Vec<u32>)
    ensures
        limbs_value(limbs@) == value,
{
    BigUint::from(value).to_u32_digits()
}

/// `num_traits::Zero::zero` of `BigUint` is the number zero.
#[verifier::external_body]
fn limbs_zero() -> (limbs: Vec<u32>)
    ensures
        limbs_value(limbs@) == 0,
{
    BigUint::zero().to_u32_digits()
}

/// `num_traits::One::one` of `BigUint` is the number one.
#[verifier::external_body]
fn limbs_one() -> (limbs: Vec<u32>)
    ensures
        limbs_value(limbs@) == 1,
{
    BigUint::one().to_u32_digits()
}

/// `num_traits::Zero::is_zero` of `BigUint` tells whether the number is zero.
#[verifier::external_body]
fn limbs_is_zero(limbs: &[u32]) -> (answer: bool)
    ensures
        answer == (limbs_value(limbs@) == 0),
{
    BigUint::from_slice(limbs).is_zero()
}

/// `num_traits::ToPrimitive::to_u64` of `BigUint` gives the number where a `u64`
/// can hold it, and `None` where none can.
#[verifier::external_body]
fn limbs_to_u64(limbs: &[u32]) -> (small: Option<u64>)
    ensures
        limbs_value(limbs@) <= u64::MAX ==> small == Some(limbs_value(limbs@) as u64),
        limbs_value(limbs@) > u64::MAX ==> small is None,
{
    BigUint::from_slice(limbs).to_u64()
}

/// `BigUint + BigUint` is the sum.
#[verifier::external_body]
fn limbs_add(left: &[u32], right: &[u32]) -> (limbs: Vec<u32>)
    ensures
        limbs_value(limbs@) == limbs_value(left@) + limbs_value(right@),
{
    (BigUint::from_slice(left) + BigUint::from_slice(right)).to_u32_digits()
}

/// `BigUint - BigUint` is the difference. It panics where that would be negative.
#[verifier::external_body]
fn limbs_sub(left: &[u32], right: &[u32]) -> (limbs: Vec<u32>)
    requires
        limbs_value(right@) <= limbs_value(left@),
    ensures
        limbs_value(limbs@) == limbs_value(left@) - limbs_value(right@),
{
    (BigUint::from_slice(left) - BigUint::from_slice(right)).to_u32_digits()
}

/// `BigUint * BigUint` is the product.
#[verifier::external_body]
fn limbs_mul(left: &[u32], right: &[u32]) -> (limbs: Vec<u32>)
    ensures
        limbs_value(limbs@) == limbs_value(left@) * limbs_value(right@),
{
    (BigUint::from_slice(left) * BigUint::from_slice(right)).to_u32_digits()
}

/// `BigUint * u64` is the product.
#[verifier::external_body]
fn limbs_mul_u64(left: &[u32], right: u64) -> (limbs: Vec<u32>)
    ensures
        limbs_value(limbs@) == limbs_value(left@) * right,
{
    (BigUint::from_slice(left) * right).to_u32_digits()
}

/// `BigUint / u64` is the quotient rounded down. It panics on a zero divisor.
#[verifier::external_body]
fn limbs_div_u64(left: &[u32], right: u64) -> (limbs: Vec<u32>)
    requires
        right > 0,
    ensures
        limbs_value(limbs@) == limbs_value(left@) / right as nat,
{
    (BigUint::from_slice(left) / right).to_u32_digits()
}

/// `BigUint % u64` is the remainder. It panics on a zero divisor.
#[verifier::external_body]
fn limbs_rem_u64(left: &[u32], right: u64) -> (limbs: Vec<u32>)
    requires
        right > 0,
    ensures
        limbs_value(limbs@) == limbs_value(left@) % right as nat,
{
    (BigUint::from_slice(left) % right).to_u32_digits()
}

/// `BigUint::pow` is the power. The exponent is kept small enough for the result
/// to fit in memory.
#[verifier::external_body]
fn limbs_pow(base: &[u32], exponent: u32) -> (limbs: Vec<u32>)
    requires
        base@.len() <= 2,
        exponent <= 256,
    ensures
        limbs_value(limbs@) == power(limbs_value(base@), exponent as nat),
{
    BigUint::from_slice(base).pow(exponent).to_u32_digits()
}

/// `==` on `BigUint` tells whether the two numbers are equal.
#[verifier::external_body]
fn limbs_equal(left: &[u32], right: &[u32]) -> (answer: bool)
    ensures
        answer == (limbs_value(left@) == limbs_value(right@)),
{
    BigUint::from_slice(left) == BigUint::from_slice(right)
}

/// `<` on `BigUint` tells whether the first number is smaller.
#[verifier::external_body]
fn limbs_less(left: &[u32], right: &[u32]) -> (answer: bool)
    ensures
        answer == (limbs_value(left@) < limbs_value(right@)),
{
    BigUint::from_slice(left) < BigUint::from_slice(right)
}

/// A natural number, held as its digits in base 2^32, least significant first.
/// Zeros at the most significant end do not matter.
#[derive(Debug)]
pub struct Natural {
    pub limbs: Vec<u32>,
}

impl View for Natural {
    type V = nat;

    open spec fn view(&self) -> nat {
        limbs_value(self.limbs@)
    }
}

impl Clone for Natural {
    fn clone(&self) -> (copy: Self)
        ensures
            copy@ == self@,
    {
        let limbs = self.limbs.clone();
        assert(limbs@ =~= self.limbs@);
        Natural { limbs }
    }
}

impl Natural {
    pub fn from_u64(value: u64) -> (number: Self)
        ensures
            number@ == value,
    {
        Natural { limbs: limbs_from_u64(value) }
    }

    pub fn zero() -> (number: Self)
        ensures
            number@ == 0,
    {
        Natural { limbs: limbs_zero() }
    }

    pub fn one() -> (number: Self)
        ensures
            number@ == 1,
    {
        Natural { limbs: limbs_one() }
    }

    pub fn is_zero(&self) -> (answer: bool)
        ensures
            answer == (self@ == 0),
    {
        limbs_is_zero(self.limbs.as_slice())
    }

    /// The number as a `u64`, where one can hold it.
    pub fn to_u64(&self) -> (small: Option<u64>)
        ensures
            self@ <= u64::MAX ==> small == Some(self@ as u64),
            self@ > u64::MAX ==> small is None,
    {
        limbs_to_u64(self.limbs.as_slice())
    }

    pub fn plus(&self, other: &Natural) -> (sum: Self)
        ensures
            sum@ == self@ + other@,
    {
        Natural { limbs: limbs_add(self.limbs.as_slice(), other.limbs.as_slice()) }
    }

    pub fn minus(&self, other: &Natural) -> (difference: Self)
        requires
            other@ <= self@,
        ensures
            difference@ == self@ - other@,
    {
        Natural { limbs: limbs_sub(self.limbs.as_slice(), other.limbs.as_slice()) }
    }

    pub fn times(&self, other: &Natural) -> (product: Self)
        ensures
            product@ == self@ * other@,
    {
        Natural { limbs: limbs_mul(self.limbs.as_slice(), other.limbs.as_slice()) }
    }

    pub fn times_u64(&self, factor: u64) -> (product: Self)
        ensures
            product@ == self@ * factor,
    {
        Natural { limbs: limbs_mul_u64(self.limbs.as_slice(), factor) }
    }

    pub fn divided_by(&self, divisor: u64) -> (quotient: Self)
        requires
            divisor > 0,
        ensures
            quotient@ == self@ / divisor as nat,
    {
        Natural { limbs: limbs_div_u64(self.limbs.as_slice(), divisor) }
    }

    pub fn modulo(&self, divisor: u64) -> (remainder: Self)
        requires
            divisor > 0,
        ensures
            remainder@ == self@ % divisor as nat,
    {
        Natural { limbs: limbs_rem_u64(self.limbs.as_slice(), divisor) }
    }

    /// `base` raised to `exponent`.
    pub fn power_of(base: u32, exponent: u32) -> (number: Self)
        requires
            exponent <= 256,
        ensures
            number@ == power(base as nat, exponent as nat),
    {
        let digits: [u32; 1] = [base];
        proof {
            assert(digits@.drop_first().len() == 0);
            reveal_with_fuel(limbs_value, 2);
        }
        Natural { limbs: limbs_pow(digits.as_slice(), exponent) }
    }

    pub fn equals(&self, other: &Natural) -> (answer: bool)
        ensures
            answer == (self@ == other@),
    {
        limbs_equal(self.limbs.as_slice(), other.limbs.as_slice())
    }

    pub fn less_than(&self, other: &Natural) -> (answer: bool)
        ensures
            answer == (self@ < other@),
    {
        limbs_less(self.limbs.as_slice(), other.limbs.as_slice())
    }
}

} // verus!
