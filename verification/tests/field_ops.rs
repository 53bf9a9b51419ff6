//! Exact values of the base-field and extension-field operations.

use sp1_core::extension::ExtFelt;
use sp1_core::field::Felt;
use sp1_core::field::FIELD_PRIME;

fn felt(x: u64) -> Felt {
    Felt { value: x }
}

fn ext(a: u64, b: u64, c: u64, d: u64) -> ExtFelt {
    ExtFelt { c0: felt(a), c1: felt(b), c2: felt(c), c3: felt(d) }
}

#[test]
fn felt_add_wraps_at_the_prime() {
    assert_eq!(felt(5).add(felt(7)).value, 12);
    assert_eq!(felt(FIELD_PRIME - 1).add(felt(1)).value, 0);
    assert_eq!(felt(FIELD_PRIME - 1).add(felt(5)).value, 4);
}

#[test]
fn felt_sub_and_neg() {
    assert_eq!(felt(5).sub(felt(7)).value, FIELD_PRIME - 2);
    assert_eq!(felt(7).sub(felt(5)).value, 2);
    assert_eq!(felt(0).neg().value, 0);
    assert_eq!(felt(1).neg().value, FIELD_PRIME - 1);
}

#[test]
fn felt_mul_exact() {
    assert_eq!(felt(3).mul(felt(5)).value, 15);
    // (P - 1)^2 = P^2 - 2P + 1 = 1 (mod P).
    assert_eq!(felt(FIELD_PRIME - 1).mul(felt(FIELD_PRIME - 1)).value, 1);
}

#[test]
fn felt_from_u32_reduces() {
    assert_eq!(Felt::from_u32(0).value, 0);
    assert_eq!(Felt::from_u32(u32::MAX).value, (u32::MAX as u64) % FIELD_PRIME);
    assert!(Felt::from_u32(u32::MAX).value < FIELD_PRIME);
}

#[test]
fn ext_identities() {
    let x = ext(12, 34, 56, 78);
    assert_eq!(x.add(ExtFelt::zero()), x);
    assert_eq!(x.mul(ExtFelt::one()), x);
    assert_eq!(x.sub(x), ExtFelt::zero());
}

#[test]
fn ext_mul_uses_the_binomial() {
    // x * x^3 = x^4 = 11 in the quartic extension.
    let x1 = ext(0, 1, 0, 0);
    let x3 = ext(0, 0, 0, 1);
    assert_eq!(x1.mul(x3), ext(11, 0, 0, 0));
    // (x^2)^2 = 11 as well.
    let x2 = ext(0, 0, 1, 0);
    assert_eq!(x2.mul(x2), ext(11, 0, 0, 0));
}

#[test]
fn ext_inverse_round_trip() {
    let x = ext(7, 3, 0, 1);
    let inv = x.inverse().unwrap();
    assert_eq!(inv.mul(x), ExtFelt::one());
    assert_eq!(x.mul(inv), ExtFelt::one());
}

#[test]
fn ext_inverse_of_zero_is_none() {
    assert!(ExtFelt::zero().inverse().is_none());
}

#[test]
fn ext_div_exact() {
    let a = ext(10, 20, 30, 40);
    let b = ext(2, 0, 0, 0);
    // Division by the base element 2 halves every coefficient.
    assert_eq!(a.div(b), ext(5, 10, 15, 20));
    // Division by zero produces the inert zero element.
    assert_eq!(a.div(ExtFelt::zero()), ExtFelt::zero());
}

#[test]
fn ext_pow_small_values() {
    let x = ext(3, 0, 0, 0);
    assert_eq!(x.pow(0), ExtFelt::one());
    assert_eq!(x.pow(1), x);
    assert_eq!(x.pow(5), ext(243, 0, 0, 0));
}
