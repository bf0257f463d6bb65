use red_bank::decimal::{
    checked_add_u128, checked_mul_div, checked_mul_u128, Decimal, DECIMAL_SCALE,
};
use red_bank::ledger::{get_descaled_amount, get_scaled_amount, UserAccount};
use red_bank::positions::{get_bit, with_bit_cleared, with_bit_set, User};

#[test]
fn decimal_constants_and_comparisons() {
    assert_eq!(Decimal::zero().atomics, 0);
    assert_eq!(Decimal::one().atomics, DECIMAL_SCALE);
    assert_eq!(Decimal::percent(60).unwrap().atomics, 600_000);
    assert!(Decimal::new(999_999).le(&Decimal::one()));
    assert!(Decimal::new(999_999).le_one());
    assert!(!Decimal::new(1_000_001).le_one());
    assert!(Decimal::zero().is_zero());
}

#[test]
fn decimal_checked_arithmetic() {
    let a = Decimal::new(600_000);
    let b = Decimal::new(500_000);
    // 0.6 * 0.5 == 0.3
    assert_eq!(a.checked_mul(b).unwrap().atomics, 300_000);
    // 0.6 + 0.5 == 1.1
    assert_eq!(a.checked_add(b).unwrap().atomics, 1_100_000);
    assert_eq!(a.sub(b).atomics, 100_000);
    // 1 / 3 truncates toward zero
    assert_eq!(Decimal::checked_from_ratio(1, 3).unwrap().atomics, 333_333);
    assert_eq!(checked_mul_div(10, 7, 3), Some(23));
    assert_eq!(checked_mul_div(u128::MAX, 2, 1), None);
    assert_eq!(checked_mul_u128(1 << 64, 1 << 64), None);
    assert_eq!(checked_add_u128(u128::MAX, 1), None);
    assert_eq!(checked_add_u128(40, 2), Some(42));
}

#[test]
fn scaled_round_trip_at_unit_index_is_exact() {
    let index = Decimal::one();
    let scaled = get_scaled_amount(12_345, index).unwrap();
    assert_eq!(scaled, 12_345);
    let back = get_descaled_amount(scaled, index).unwrap();
    assert_eq!(back, 12_345);
}

#[test]
fn scaled_round_trip_truncates_toward_zero() {
    // index 1.5: scaling 1000 gives 666 scaled units and descaling
    // loses at most the truncation error, always in the pool's favor.
    let index = Decimal::new(1_500_000);
    let scaled = get_scaled_amount(1000, index).unwrap();
    assert_eq!(scaled, 666);
    let back = get_descaled_amount(scaled, index).unwrap();
    assert_eq!(back, 999);
    assert!(back <= 1000);
}

#[test]
fn bit_operations_set_and_clear_single_bits() {
    let bits = with_bit_set(0, 7);
    assert!(get_bit(bits, 7));
    assert!(!get_bit(bits, 6));
    assert!(!get_bit(bits, 8));
    let bits2 = with_bit_set(bits, 127);
    assert!(get_bit(bits2, 127));
    assert!(get_bit(bits2, 7));
    let bits3 = with_bit_cleared(bits2, 7);
    assert!(!get_bit(bits3, 7));
    assert!(get_bit(bits3, 127));
}

#[test]
fn user_membership_tracking() {
    let mut user = User::default();
    assert_eq!(user.borrowed_assets, 0);
    assert_eq!(user.collateral_assets, 0);
    user.set_borrowing(3, true);
    user.set_collateralizing(5, true);
    assert!(user.is_borrowing(3));
    assert!(!user.is_borrowing(5));
    assert!(user.is_collateralizing(5));
    assert!(!user.is_collateralizing(3));
    user.set_borrowing(3, false);
    assert!(!user.is_borrowing(3));
    assert!(user.is_collateralizing(5));
}

#[test]
fn fresh_account_is_empty() {
    let account = UserAccount::new();
    assert_eq!(account.user.borrowed_assets, 0);
    assert_eq!(account.user.collateral_assets, 0);
    assert!(account.debts.iter().all(|d| d.amount_scaled == 0 && !d.uncollateralized));
    assert!(account.collateral.iter().all(|c| *c == 0));
    assert!(account.uncollateralized_limits.iter().all(|l| *l == 0));
}
