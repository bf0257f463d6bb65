use red_bank::config::Config;
use red_bank::decimal::Decimal;
use red_bank::error::{ContractError, FieldName};
use red_bank::governance::{Basecamp, ProposalStatus, ProposalVoteOption};
use red_bank::market::{AssetType, InitOrUpdateAssetParams, InterestRateStrategy, Market};

fn flat_strategy() -> InterestRateStrategy {
    InterestRateStrategy {
        optimal_utilization_rate: Decimal::one(),
        base_rate: Decimal::new(1000),
        slope_1: Decimal::zero(),
        slope_2: Decimal::zero(),
    }
}

fn full_params() -> InitOrUpdateAssetParams {
    InitOrUpdateAssetParams {
        initial_borrow_rate: Some(Decimal::new(1000)),
        max_loan_to_value: Some(Decimal::new(600_000)),
        reserve_factor: Some(Decimal::new(200_000)),
        maintenance_margin: Some(Decimal::new(750_000)),
        liquidation_bonus: Some(Decimal::new(100_000)),
        interest_rate_strategy: Some(flat_strategy()),
    }
}

#[test]
fn config_validation_accepts_valid_shares() {
    let config = Config {
        owner: String::from("owner"),
        close_factor: Decimal::new(500_000),
        insurance_fund_fee_share: Decimal::new(100_000),
        treasury_fee_share: Decimal::new(100_000),
    };
    assert!(config.validate().is_ok());
}

#[test]
fn config_validation_names_first_bad_field() {
    let mut config = Config {
        owner: String::from("owner"),
        close_factor: Decimal::new(1_500_000),
        insurance_fund_fee_share: Decimal::new(100_000),
        treasury_fee_share: Decimal::new(100_000),
    };
    assert_eq!(
        config.validate().unwrap_err(),
        ContractError::InvalidConfig { field: FieldName::CloseFactor }
    );
    config.close_factor = Decimal::new(500_000);
    config.insurance_fund_fee_share = Decimal::new(2_000_000);
    assert_eq!(
        config.validate().unwrap_err(),
        ContractError::InvalidConfig { field: FieldName::InsuranceFundFeeShare }
    );
    // each share is fine alone but the combined share exceeds one
    config.insurance_fund_fee_share = Decimal::new(600_000);
    config.treasury_fee_share = Decimal::new(600_000);
    assert_eq!(
        config.validate().unwrap_err(),
        ContractError::InvalidConfig { field: FieldName::FeeShareSum }
    );
}

#[test]
fn market_create_requires_every_parameter() {
    // a missing parameter is an error naming that parameter
    let mut params = full_params();
    params.liquidation_bonus = None;
    assert_eq!(
        Market::create(0, 0, AssetType::Native, params).unwrap_err(),
        ContractError::MissingParam { field: FieldName::LiquidationBonus }
    );
    let mut params = full_params();
    params.initial_borrow_rate = None;
    assert_eq!(
        Market::create(0, 0, AssetType::Native, params).unwrap_err(),
        ContractError::MissingParam { field: FieldName::InitialBorrowRate }
    );
}

#[test]
fn market_create_initializes_indices_and_aggregates() {
    let market = Market::create(42, 3, AssetType::Token, full_params()).unwrap();
    assert_eq!(market.index, 3);
    assert_eq!(market.asset_type, AssetType::Token);
    assert_eq!(market.borrow_index, Decimal::one());
    assert_eq!(market.liquidity_index, Decimal::one());
    assert_eq!(market.borrow_rate, Decimal::new(1000));
    assert_eq!(market.liquidity_rate, Decimal::zero());
    assert_eq!(market.interests_last_updated, 42);
    assert_eq!(market.debt_total_scaled, 0);
    assert_eq!(market.protocol_income_to_distribute, 0);
}

#[test]
fn market_create_rejects_fraction_above_one() {
    let mut params = full_params();
    params.max_loan_to_value = Some(Decimal::new(1_200_000));
    params.maintenance_margin = Some(Decimal::new(1_300_000));
    assert_eq!(
        Market::create(0, 0, AssetType::Native, params).unwrap_err(),
        ContractError::InvalidMarketParams { field: FieldName::MaxLoanToValue }
    );
}

#[test]
fn market_create_rejects_margin_not_above_ceiling() {
    let mut params = full_params();
    params.maintenance_margin = Some(Decimal::new(600_000));
    assert_eq!(
        Market::create(0, 0, AssetType::Native, params).unwrap_err(),
        ContractError::InvalidMarketParams { field: FieldName::MaintenanceMargin }
    );
}

#[test]
fn strategy_rejects_zero_kink() {
    let mut params = full_params();
    params.interest_rate_strategy = Some(InterestRateStrategy {
        optimal_utilization_rate: Decimal::zero(),
        base_rate: Decimal::zero(),
        slope_1: Decimal::zero(),
        slope_2: Decimal::zero(),
    });
    assert_eq!(
        Market::create(0, 0, AssetType::Native, params).unwrap_err(),
        ContractError::InvalidMarketParams { field: FieldName::OptimalUtilizationRate }
    );
}

#[test]
fn market_update_keeps_unsupplied_fields() {
    // supplying only the reserve factor leaves every other field as it
    // was and re-validates against the existing values
    let market = Market::create(0, 0, AssetType::Native, full_params()).unwrap();
    let update = InitOrUpdateAssetParams {
        initial_borrow_rate: None,
        max_loan_to_value: None,
        reserve_factor: Some(Decimal::new(300_000)),
        maintenance_margin: None,
        liquidation_bonus: None,
        interest_rate_strategy: None,
    };
    let updated = market.clone().update_with(update).unwrap();
    assert_eq!(updated.reserve_factor, Decimal::new(300_000));
    assert_eq!(updated.max_loan_to_value, Decimal::new(600_000));
    assert_eq!(updated.maintenance_margin, Decimal::new(750_000));
    assert_eq!(updated.liquidation_bonus, Decimal::new(100_000));
    assert_eq!(updated.borrow_index, market.borrow_index);
    assert_eq!(updated.interests_last_updated, market.interests_last_updated);
}

#[test]
fn market_update_revalidates_against_existing_margin() {
    // raising only the loan-to-value ceiling above the stored maintenance
    // margin is rejected as a whole
    let market = Market::create(0, 0, AssetType::Native, full_params()).unwrap();
    let update = InitOrUpdateAssetParams {
        initial_borrow_rate: None,
        max_loan_to_value: Some(Decimal::new(800_000)),
        reserve_factor: None,
        maintenance_margin: None,
        liquidation_bonus: None,
        interest_rate_strategy: None,
    };
    assert_eq!(
        market.update_with(update).unwrap_err(),
        ContractError::InvalidMarketParams { field: FieldName::MaintenanceMargin }
    );
}

#[test]
fn accrual_compounds_indices_exactly() {
    let mut market = Market::create(0, 0, AssetType::Native, full_params()).unwrap();
    // base rate 0.001 per second, zero utilization: after 100 seconds the
    // borrow index grows by exactly 1 + 0.001 * 100 = 1.1
    market.apply_accrued_interests(100, 0).unwrap();
    assert_eq!(market.borrow_index.atomics, 1_100_000);
    assert_eq!(market.liquidity_index.atomics, 1_000_000);
    assert_eq!(market.interests_last_updated, 100);
    assert_eq!(market.borrow_rate.atomics, 1000);
    assert_eq!(market.liquidity_rate.atomics, 0);
}

#[test]
fn accrual_is_idempotent_at_one_timestamp() {
    let mut market = Market::create(0, 0, AssetType::Native, full_params()).unwrap();
    market.apply_accrued_interests(100, 50).unwrap();
    let snapshot = market.clone();
    // a second accrual at the same timestamp changes nothing
    market.apply_accrued_interests(100, 50).unwrap();
    assert_eq!(market, snapshot);
}

#[test]
fn accrual_indices_never_decrease() {
    let mut market = Market::create(0, 0, AssetType::Native, full_params()).unwrap();
    let mut last_borrow = market.borrow_index.atomics;
    let mut last_liquidity = market.liquidity_index.atomics;
    for step in 1..6u64 {
        market.apply_accrued_interests(step * 100, 1000).unwrap();
        assert!(market.borrow_index.atomics >= last_borrow);
        assert!(market.liquidity_index.atomics >= last_liquidity);
        last_borrow = market.borrow_index.atomics;
        last_liquidity = market.liquidity_index.atomics;
    }
}

#[test]
fn accrual_collects_protocol_income() {
    // reserve factor 0.2, flat 0.001 borrow rate, 500 scaled debt at
    // half utilization: over 1000 seconds the borrow index doubles, the
    // debt grows by 500 real units, and the protocol keeps 100 of them
    let mut params = full_params();
    params.reserve_factor = Some(Decimal::new(200_000));
    let mut market = Market::create(0, 0, AssetType::Native, params).unwrap();
    market.debt_total_scaled = 500;
    market.apply_accrued_interests(1000, 500).unwrap();
    assert_eq!(market.borrow_index.atomics, 2_000_000);
    // the depositors' side compounds at rate * utilization * (1 - 0.2)
    assert_eq!(market.liquidity_index.atomics, 1_400_000);
    assert_eq!(market.borrow_rate.atomics, 1000);
    assert_eq!(market.liquidity_rate.atomics, 500);
    assert_eq!(market.protocol_income_to_distribute, 100);
    assert_eq!(market.debt_total_scaled, 500);
}

#[test]
fn field_names_spell_the_parameter() {
    assert_eq!(FieldName::MaintenanceMargin.as_text(), "maintenance_margin");
    assert_eq!(FieldName::MaxLoanToValue.as_text(), "max_loan_to_value");
    assert_eq!(FieldName::CloseFactor.as_text(), "close_factor");
    assert_eq!(FieldName::InitialBorrowRate.as_text(), "initial_borrow_rate");
}

#[test]
fn governance_records_hold_plain_data() {
    let camp = Basecamp { proposal_count: 7 };
    assert_eq!(camp.proposal_count, 7);
    assert_eq!(ProposalVoteOption::For.as_text(), "for");
    assert_eq!(ProposalVoteOption::Against.as_text(), "against");
    assert_ne!(ProposalStatus::Active, ProposalStatus::Executed);
}
