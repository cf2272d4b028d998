use num_bigint::BigUint;
use rho_call::natural::Natural;
use rho_call::power::power_u64;

fn big(number: &Natural) -> BigUint {
    BigUint::from_slice(&number.limbs)
}

fn large(exponent: u32) -> Natural {
    Natural::power_of(13, exponent)
}

#[test]
fn small_numbers_come_back() {
    for value in [0u64, 1, 12, 13, 0xffff_ffff, 0x1_0000_0000, u64::MAX] {
        assert_eq!(Natural::from_u64(value).to_u64(), Some(value));
        assert_eq!(big(&Natural::from_u64(value)), BigUint::from(value));
    }
}

#[test]
fn zero_and_one() {
    assert_eq!(Natural::zero().to_u64(), Some(0));
    assert_eq!(Natural::one().to_u64(), Some(1));
    assert!(Natural::zero().is_zero());
    assert!(!Natural::one().is_zero());
    assert!(Natural { limbs: vec![0, 0, 0] }.is_zero());
    assert!(!Natural { limbs: vec![0, 0, 1] }.is_zero());
}

#[test]
fn large_numbers_have_no_small_form() {
    assert_eq!(Natural { limbs: vec![0, 0, 1] }.to_u64(), None);
    assert_eq!(Natural { limbs: vec![7, 1, 0] }.to_u64(), Some(0x1_0000_0007));
    assert_eq!(large(64).to_u64(), None);
}

#[test]
fn powers() {
    assert_eq!(Natural::power_of(13, 0).to_u64(), Some(1));
    assert_eq!(Natural::power_of(13, 4).to_u64(), Some(28561));
    assert_eq!(Natural::power_of(9, 4).to_u64(), Some(6561));
    assert_eq!(Natural::power_of(0, 3).to_u64(), Some(0));
    assert_eq!(power_u64(13, 4), 28561);
    assert_eq!(power_u64(9, 0), 1);
    let mut product = Natural::one();
    for _ in 0..64 {
        product = product.times_u64(13);
    }
    assert!(product.equals(&large(64)));
}

#[test]
fn sums_and_differences() {
    let sum = Natural::from_u64(u64::MAX).plus(&Natural::from_u64(5));
    assert_eq!(sum.limbs, vec![4, 0, 1]);
    assert_eq!(sum.minus(&Natural::from_u64(6)).to_u64(), Some(u64::MAX - 1));
    assert!(sum.minus(&sum).is_zero());
}

#[test]
fn products() {
    let square = Natural::from_u64(0x1_0000_0001).times(&Natural::from_u64(0x1_0000_0001));
    assert_eq!(square.limbs, vec![1, 2, 1]);
    assert!(large(64).times_u64(0).is_zero());
    assert!(large(40).times(&large(24)).equals(&large(64)));
}

#[test]
fn quotients_and_remainders() {
    let number = large(64).plus(&Natural::from_u64(7));
    assert_eq!(number.modulo(13).to_u64(), Some(7));
    assert!(number.divided_by(13).equals(&large(63)));
    assert_eq!(Natural::from_u64(12).divided_by(13).to_u64(), Some(0));
    assert_eq!(Natural::from_u64(12).modulo(13).to_u64(), Some(12));
}

#[test]
fn comparisons() {
    assert!(large(63).less_than(&large(64)));
    assert!(!large(64).less_than(&large(64)));
    assert!(!large(64).less_than(&large(63)));
    assert!(!large(64).equals(&large(63)));
    assert!(Natural { limbs: vec![5, 0] }.equals(&Natural::from_u64(5)));
    assert!(large(64).clone().equals(&large(64)));
}
