use red_bank::decimal::Decimal;
use red_bank::error::{ContractError, FieldName};
use red_bank::market::{AssetType, InitOrUpdateAssetParams, InterestRateStrategy};
use red_bank::pool::Pool;

fn flat_strategy() -> InterestRateStrategy {
    InterestRateStrategy {
        optimal_utilization_rate: Decimal::one(),
        base_rate: Decimal::new(1000),
        slope_1: Decimal::zero(),
        slope_2: Decimal::zero(),
    }
}

fn risk_params(ltv: u128, margin: u128, bonus: u128) -> InitOrUpdateAssetParams {
    InitOrUpdateAssetParams {
        initial_borrow_rate: Some(Decimal::new(1000)),
        max_loan_to_value: Some(Decimal::new(ltv)),
        reserve_factor: Some(Decimal::zero()),
        maintenance_margin: Some(Decimal::new(margin)),
        liquidation_bonus: Some(Decimal::new(bonus)),
        interest_rate_strategy: Some(flat_strategy()),
    }
}

fn new_pool() -> Pool {
    Pool::new(
        String::from("owner"),
        Decimal::new(500_000),
        Decimal::new(100_000),
        Decimal::new(100_000),
    )
    .unwrap()
}

fn unit_prices(n: usize) -> Vec<Decimal> {
    let mut prices = Vec::new();
    for _ in 0..n {
        prices.push(Decimal::one());
    }
    prices
}

#[test]
fn pool_new_rejects_invalid_config() {
    let err = Pool::new(
        String::from("owner"),
        Decimal::new(1_200_000),
        Decimal::zero(),
        Decimal::zero(),
    )
    .unwrap_err();
    assert_eq!(err, ContractError::InvalidConfig { field: FieldName::CloseFactor });
}

#[test]
fn init_asset_is_owner_gated_and_allocates_dense_indices() {
    let mut pool = new_pool();
    let owner = String::from("owner");
    let somebody = String::from("somebody");
    let err = pool
        .init_asset(&somebody, String::from("uluna"), AssetType::Native, risk_params(600_000, 750_000, 100_000), 0)
        .unwrap_err();
    assert_eq!(err, ContractError::Unauthorized);
    let i0 = pool
        .init_asset(&owner, String::from("uluna"), AssetType::Native, risk_params(600_000, 750_000, 100_000), 0)
        .unwrap();
    let i1 = pool
        .init_asset(&owner, String::from("uusd"), AssetType::Token, risk_params(500_000, 600_000, 50_000), 0)
        .unwrap();
    assert_eq!(i0, 0);
    assert_eq!(i1, 1);
    assert_eq!(pool.global_state.market_count, 2);
    // the same asset cannot be registered twice
    let err = pool
        .init_asset(&owner, String::from("uluna"), AssetType::Native, risk_params(600_000, 750_000, 100_000), 0)
        .unwrap_err();
    assert_eq!(err, ContractError::MarketAlreadyExists);
    // a missing mandatory parameter is named
    let mut missing = risk_params(600_000, 750_000, 100_000);
    missing.maintenance_margin = None;
    let err = pool
        .init_asset(&owner, String::from("uatom"), AssetType::Native, missing, 0)
        .unwrap_err();
    assert_eq!(err, ContractError::MissingParam { field: FieldName::MaintenanceMargin });
}

#[test]
fn update_asset_merges_and_revalidates() {
    let mut pool = new_pool();
    let owner = String::from("owner");
    pool.init_asset(&owner, String::from("uluna"), AssetType::Native, risk_params(600_000, 750_000, 100_000), 0)
        .unwrap();
    let unknown = String::from("nosuch");
    let uluna = String::from("uluna");
    let only_reserve = InitOrUpdateAssetParams {
        initial_borrow_rate: None,
        max_loan_to_value: None,
        reserve_factor: Some(Decimal::new(250_000)),
        maintenance_margin: None,
        liquidation_bonus: None,
        interest_rate_strategy: None,
    };
    assert_eq!(
        pool.update_asset(&owner, &unknown, only_reserve.clone()).unwrap_err(),
        ContractError::MarketNotFound
    );
    pool.update_asset(&owner, &uluna, only_reserve).unwrap();
    let market = pool.market(&uluna).unwrap();
    assert_eq!(market.reserve_factor, Decimal::new(250_000));
    assert_eq!(market.max_loan_to_value, Decimal::new(600_000));
    assert_eq!(market.maintenance_margin, Decimal::new(750_000));
    // raising the ceiling above the stored margin is rejected whole
    let only_ltv = InitOrUpdateAssetParams {
        initial_borrow_rate: None,
        max_loan_to_value: Some(Decimal::new(800_000)),
        reserve_factor: None,
        maintenance_margin: None,
        liquidation_bonus: None,
        interest_rate_strategy: None,
    };
    assert_eq!(
        pool.update_asset(&owner, &uluna, only_ltv).unwrap_err(),
        ContractError::InvalidMarketParams { field: FieldName::MaintenanceMargin }
    );
}

#[test]
fn update_config_changes_owner() {
    let mut pool = new_pool();
    let owner = String::from("owner");
    let somebody = String::from("somebody");
    let err = pool.update_config(&somebody, None, None, None, None).unwrap_err();
    assert_eq!(err, ContractError::Unauthorized);
    pool.update_config(&owner, Some(String::from("new_owner")), None, None, None).unwrap();
    assert_eq!(pool.config.owner, String::from("new_owner"));
    // authorization follows the stored owner address
    assert_eq!(
        pool.update_config(&owner, None, None, None, None).unwrap_err(),
        ContractError::Unauthorized
    );
    let new_owner = String::from("new_owner");
    pool.update_config(&new_owner, None, Some(Decimal::new(400_000)), None, None).unwrap();
    assert_eq!(pool.config.close_factor, Decimal::new(400_000));
}

#[test]
fn borrow_against_collateral_enforces_loan_to_value() {
    // collateral 1000 at loan-to-value 0.6: a 700 borrow must fail, 500
    // must succeed
    let mut pool = new_pool();
    let owner = String::from("owner");
    let alice = String::from("alice");
    let uluna = String::from("uluna");
    pool.init_asset(&owner, String::from("uluna"), AssetType::Native, risk_params(600_000, 750_000, 100_000), 0)
        .unwrap();
    pool.deposit(&alice, &uluna, 1000, 0, 0).unwrap();
    let prices = unit_prices(1);
    let err = pool.borrow(&alice, &uluna, 700, 0, 1000, &prices).unwrap_err();
    assert_eq!(err, ContractError::Insolvent);
    pool.borrow(&alice, &uluna, 500, 0, 1000, &prices).unwrap();
    let market = pool.market(&uluna).unwrap();
    let account = pool.account(&alice).unwrap();
    // the market aggregate equals the sum of all users' scaled debt
    assert_eq!(market.debt_total_scaled, 500);
    assert_eq!(account.debts[0].amount_scaled, 500);
    // membership bits track exactly the nonzero scaled balances
    assert!(account.user.is_borrowing(0));
    assert!(account.user.is_collateralizing(0));
}

#[test]
fn withdraw_checks_remaining_health() {
    let mut pool = new_pool();
    let owner = String::from("owner");
    let alice = String::from("alice");
    let uluna = String::from("uluna");
    pool.init_asset(&owner, String::from("uluna"), AssetType::Native, risk_params(600_000, 750_000, 100_000), 0)
        .unwrap();
    pool.deposit(&alice, &uluna, 1000, 0, 0).unwrap();
    let prices = unit_prices(1);
    pool.borrow(&alice, &uluna, 500, 0, 1000, &prices).unwrap();
    // 900 * 0.6 = 540 still covers the 500 debt
    pool.withdraw(&alice, &uluna, 100, 0, 1000, &prices).unwrap();
    // 700 * 0.6 = 420 would no longer cover it
    assert_eq!(
        pool.withdraw(&alice, &uluna, 200, 0, 1000, &prices).unwrap_err(),
        ContractError::Insolvent
    );
    // more than the whole balance is an insufficient-balance error
    assert_eq!(
        pool.withdraw(&alice, &uluna, 10_000, 0, 1000, &prices).unwrap_err(),
        ContractError::InsufficientBalance
    );
    let account = pool.account(&alice).unwrap();
    assert_eq!(account.collateral[0], 900);
}

#[test]
fn repay_reduces_debt_and_clears_the_bit() {
    let mut pool = new_pool();
    let owner = String::from("owner");
    let alice = String::from("alice");
    let uluna = String::from("uluna");
    pool.init_asset(&owner, String::from("uluna"), AssetType::Native, risk_params(600_000, 750_000, 100_000), 0)
        .unwrap();
    pool.deposit(&alice, &uluna, 1000, 0, 0).unwrap();
    let prices = unit_prices(1);
    pool.borrow(&alice, &uluna, 500, 0, 1000, &prices).unwrap();
    pool.repay(&alice, &uluna, 200, 0, 1000).unwrap();
    assert_eq!(pool.account(&alice).unwrap().debts[0].amount_scaled, 300);
    assert_eq!(pool.market(&uluna).unwrap().debt_total_scaled, 300);
    // repaying more than is owed is refused
    assert_eq!(
        pool.repay(&alice, &uluna, 600, 0, 1000).unwrap_err(),
        ContractError::InsufficientBalance
    );
    pool.repay(&alice, &uluna, 300, 0, 1000).unwrap();
    let account = pool.account(&alice).unwrap();
    assert_eq!(account.debts[0].amount_scaled, 0);
    assert!(!account.user.is_borrowing(0));
    assert_eq!(pool.market(&uluna).unwrap().debt_total_scaled, 0);
    // a stranger has no record to repay from
    let bob = String::from("bob");
    assert_eq!(
        pool.repay(&bob, &uluna, 1, 0, 1000).unwrap_err(),
        ContractError::UserRecordNotFound
    );
}

#[test]
fn credit_line_overrides_collateral_check() {
    let mut pool = new_pool();
    let owner = String::from("owner");
    let bob = String::from("bob");
    let uusd = String::from("uusd");
    pool.init_asset(&owner, String::from("uusd"), AssetType::Native, risk_params(600_000, 750_000, 100_000), 0)
        .unwrap();
    let somebody = String::from("somebody");
    assert_eq!(
        pool.update_uncollateralized_loan_limit(&somebody, &bob, &uusd, 1000).unwrap_err(),
        ContractError::Unauthorized
    );
    pool.update_uncollateralized_loan_limit(&owner, &bob, &uusd, 1000).unwrap();
    let prices = unit_prices(1);
    // no collateral at all, but the credit line covers 800
    pool.borrow(&bob, &uusd, 800, 0, 1000, &prices).unwrap();
    let account = pool.account(&bob).unwrap();
    assert_eq!(account.debts[0].amount_scaled, 800);
    assert!(account.debts[0].uncollateralized);
    // the next borrow would exceed the line
    assert_eq!(
        pool.borrow(&bob, &uusd, 300, 0, 1000, &prices).unwrap_err(),
        ContractError::Insolvent
    );
}

#[test]
fn deposit_overflow_is_fatal_for_the_call() {
    let mut pool = new_pool();
    let owner = String::from("owner");
    let alice = String::from("alice");
    let uluna = String::from("uluna");
    pool.init_asset(&owner, String::from("uluna"), AssetType::Native, risk_params(600_000, 750_000, 100_000), 0)
        .unwrap();
    assert_eq!(
        pool.deposit(&alice, &uluna, u128::MAX, 0, 0).unwrap_err(),
        ContractError::ArithmeticOverflow
    );
    // the failed call left no user record behind
    assert_eq!(pool.account(&alice).unwrap_err(), ContractError::UserRecordNotFound);
}

#[test]
fn market_capacity_is_a_hard_ceiling() {
    let mut pool = new_pool();
    let owner = String::from("owner");
    for n in 0..128u32 {
        pool.init_asset(
            &owner,
            format!("asset{}", n),
            AssetType::Native,
            risk_params(600_000, 750_000, 100_000),
            0,
        )
        .unwrap();
    }
    assert_eq!(
        pool.init_asset(&owner, String::from("overflowing"), AssetType::Native, risk_params(600_000, 750_000, 100_000), 0)
            .unwrap_err(),
        ContractError::MarketCapacityReached
    );
}
