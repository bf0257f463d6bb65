use red_bank::decimal::Decimal;
use red_bank::error::ContractError;
use red_bank::market::{AssetType, InitOrUpdateAssetParams, InterestRateStrategy};
use red_bank::pool::Pool;

fn flat_strategy() -> InterestRateStrategy {
    InterestRateStrategy {
        optimal_utilization_rate: Decimal::one(),
        base_rate: Decimal::new(1000),
        slope_1: Decimal::zero(),
        slope_2: Decimal::zero(),
    }
}

fn risk_params(ltv: u128, margin: u128, bonus: u128) -> InitOrUpdateAssetParams {
    InitOrUpdateAssetParams {
        initial_borrow_rate: Some(Decimal::new(1000)),
        max_loan_to_value: Some(Decimal::new(ltv)),
        reserve_factor: Some(Decimal::zero()),
        maintenance_margin: Some(Decimal::new(margin)),
        liquidation_bonus: Some(Decimal::new(bonus)),
        interest_rate_strategy: Some(flat_strategy()),
    }
}

/// Collateral market "uluna" (ltv 0.6, margin 0.75, bonus 0.1) and debt
/// market "uusd"; close factor 0.5; all prices 1.0.
fn pool_with_two_markets() -> Pool {
    let owner = String::from("owner");
    let mut pool = Pool::new(
        owner.clone(),
        Decimal::new(500_000),
        Decimal::new(100_000),
        Decimal::new(100_000),
    )
    .unwrap();
    pool.init_asset(&owner, String::from("uluna"), AssetType::Native, risk_params(600_000, 750_000, 100_000), 0)
        .unwrap();
    pool.init_asset(&owner, String::from("uusd"), AssetType::Token, risk_params(500_000, 600_000, 50_000), 0)
        .unwrap();
    pool
}

fn unit_prices(n: usize) -> Vec<Decimal> {
    let mut prices = Vec::new();
    for _ in 0..n {
        prices.push(Decimal::one());
    }
    prices
}

#[test]
fn healthy_positions_cannot_be_liquidated() {
    let mut pool = pool_with_two_markets();
    let alice = String::from("alice");
    let bob = String::from("bob");
    let uluna = String::from("uluna");
    let uusd = String::from("uusd");
    let prices = unit_prices(2);
    pool.deposit(&alice, &uluna, 1000, 0, 0).unwrap();
    pool.borrow(&alice, &uusd, 500, 0, 1000, &prices).unwrap();
    // debt value 500 is under the 750 maintenance threshold
    assert_eq!(
        pool.liquidate(&bob, &alice, &uusd, &uluna, 100, 0, 0, 0, &prices).unwrap_err(),
        ContractError::NotLiquidatable
    );
    // a zero repay is dust
    assert_eq!(
        pool.liquidate(&bob, &alice, &uusd, &uluna, 0, 0, 0, 0, &prices).unwrap_err(),
        ContractError::RepayTooSmall
    );
    // unknown borrower
    let carol = String::from("carol");
    assert_eq!(
        pool.liquidate(&bob, &carol, &uusd, &uluna, 100, 0, 0, 0, &prices).unwrap_err(),
        ContractError::UserRecordNotFound
    );
    // unknown market
    let nosuch = String::from("nosuch");
    assert_eq!(
        pool.liquidate(&bob, &alice, &nosuch, &uluna, 100, 0, 0, 0, &prices).unwrap_err(),
        ContractError::MarketNotFound
    );
}

#[test]
fn liquidation_clamps_repay_and_pays_the_bonus() {
    let mut pool = pool_with_two_markets();
    let alice = String::from("alice");
    let bob = String::from("bob");
    let uluna = String::from("uluna");
    let uusd = String::from("uusd");
    let prices = unit_prices(2);
    // alice posts 1000 collateral and borrows 500 at time 0
    pool.deposit(&alice, &uluna, 1000, 0, 0).unwrap();
    pool.borrow(&alice, &uusd, 500, 0, 1000, &prices).unwrap();
    // at full utilization the flat curve charges 0.001 per second: after
    // 600 seconds the borrow index is 1.6 and the debt value 800, above
    // the 750 maintenance threshold
    let (actual_repay, seized) = pool
        .liquidate(&bob, &alice, &uusd, &uluna, 1000, 600, 0, 0, &prices)
        .unwrap();
    // the repay is clamped to close_factor * debt value = 0.5 * 800
    assert_eq!(actual_repay, 400);
    // the liquidator receives the repaid value plus the 10% bonus
    assert_eq!(seized, 440);
    // 400 repaid at index 1.6 removes 250 scaled debt units
    let alice_account = pool.account(&alice).unwrap();
    assert_eq!(alice_account.debts[1].amount_scaled, 250);
    assert_eq!(alice_account.collateral[0], 560);
    let bob_account = pool.account(&bob).unwrap();
    assert_eq!(bob_account.collateral[0], 440);
    assert!(bob_account.user.is_collateralizing(0));
    // the market aggregate tracks the sum of scaled debts
    assert_eq!(pool.market(&uusd).unwrap().debt_total_scaled, 250);
    // the borrower's health improved and is no longer liquidatable
    let health = pool.compute_health(&alice, &prices).unwrap();
    assert_eq!(health.debt_value, 400);
    assert_eq!(health.collateral_value, 560);
    assert_eq!(health.liquidation_threshold_value, 420);
    assert!(health.debt_value <= health.liquidation_threshold_value);
}

#[test]
fn liquidation_requires_collateral_in_the_named_market() {
    let owner = String::from("owner");
    let mut pool = pool_with_two_markets();
    pool.init_asset(&owner, String::from("uatom"), AssetType::Native, risk_params(600_000, 750_000, 100_000), 0)
        .unwrap();
    let alice = String::from("alice");
    let bob = String::from("bob");
    let uluna = String::from("uluna");
    let uusd = String::from("uusd");
    let uatom = String::from("uatom");
    let prices = unit_prices(3);
    pool.deposit(&alice, &uluna, 1000, 0, 0).unwrap();
    pool.borrow(&alice, &uusd, 500, 0, 1000, &prices).unwrap();
    // grow the debt beyond the threshold, then name a collateral market
    // in which the borrower holds nothing
    assert_eq!(
        pool.liquidate(&bob, &alice, &uusd, &uatom, 1000, 600, 0, 0, &prices).unwrap_err(),
        ContractError::ExceedsCollateral
    );
}

#[test]
fn binding_collateral_cap_reduces_the_realized_repay() {
    let owner = String::from("owner");
    let mut pool = pool_with_two_markets();
    pool.init_asset(&owner, String::from("uatom"), AssetType::Native, risk_params(600_000, 750_000, 100_000), 0)
        .unwrap();
    let alice = String::from("alice");
    let bob = String::from("bob");
    let uluna = String::from("uluna");
    let uatom = String::from("uatom");
    let uusd = String::from("uusd");
    let prices = unit_prices(3);
    // alice splits 1000 of collateral over two markets and borrows 500
    pool.deposit(&alice, &uluna, 300, 0, 0).unwrap();
    pool.deposit(&alice, &uatom, 700, 0, 0).unwrap();
    pool.borrow(&alice, &uusd, 500, 0, 1000, &prices).unwrap();
    // after 600 seconds the debt value is 800, above the 750 threshold;
    // the clamped repay of 400 would earn 440 of "uluna" collateral, but
    // only 300 exist there: the whole slot is seized and the realized
    // repay shrinks to 300 / 1.1 = 272
    let (actual_repay, seized) = pool
        .liquidate(&bob, &alice, &uusd, &uluna, 1000, 600, 0, 0, &prices)
        .unwrap();
    assert_eq!(seized, 300);
    assert_eq!(actual_repay, 272);
    let alice_account = pool.account(&alice).unwrap();
    // 272 repaid at borrow index 1.6 removes 170 scaled debt units
    assert_eq!(alice_account.debts[1].amount_scaled, 330);
    // the "uluna" slot is emptied and its membership bit cleared
    assert_eq!(alice_account.collateral[0], 0);
    assert!(!alice_account.user.is_collateralizing(0));
    assert!(alice_account.user.is_collateralizing(2));
    assert_eq!(pool.account(&bob).unwrap().collateral[0], 300);
    // a second borrower: the market aggregate stays the sum of all debts
    pool.borrow(&bob, &uusd, 100, 600, 1000, &prices).unwrap();
    let bob_account = pool.account(&bob).unwrap();
    assert_eq!(bob_account.debts[1].amount_scaled, 62);
    assert_eq!(pool.market(&uusd).unwrap().debt_total_scaled, 330 + 62);
}

#[test]
fn degenerate_liquidation_calls_are_refused() {
    let mut pool = pool_with_two_markets();
    let alice = String::from("alice");
    let bob = String::from("bob");
    let uluna = String::from("uluna");
    let uusd = String::from("uusd");
    let prices = unit_prices(2);
    pool.deposit(&alice, &uluna, 1000, 0, 0).unwrap();
    pool.borrow(&alice, &uusd, 500, 0, 1000, &prices).unwrap();
    // one market cannot serve as both debt and collateral
    assert_eq!(
        pool.liquidate(&bob, &alice, &uusd, &uusd, 100, 600, 0, 0, &prices).unwrap_err(),
        ContractError::InvalidLiquidation
    );
    // a borrower cannot liquidate their own position
    assert_eq!(
        pool.liquidate(&alice, &alice, &uusd, &uluna, 100, 600, 0, 0, &prices).unwrap_err(),
        ContractError::InvalidLiquidation
    );
}

#[test]
fn zero_collateral_price_is_an_arithmetic_fault() {
    let mut pool = pool_with_two_markets();
    let alice = String::from("alice");
    let bob = String::from("bob");
    let uluna = String::from("uluna");
    let uusd = String::from("uusd");
    let prices = unit_prices(2);
    pool.deposit(&alice, &uluna, 1000, 0, 0).unwrap();
    pool.borrow(&alice, &uusd, 500, 0, 1000, &prices).unwrap();
    // the collateral price divides the seizure computation: zero is fatal
    let mut bad_prices = unit_prices(2);
    bad_prices[0] = Decimal::zero();
    assert_eq!(
        pool.liquidate(&bob, &alice, &uusd, &uluna, 1000, 600, 0, 0, &bad_prices).unwrap_err(),
        ContractError::ArithmeticOverflow
    );
}
