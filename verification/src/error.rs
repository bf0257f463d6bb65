//! Typed failures surfaced by the lending pool core.
//!
//! Every command either fully succeeds or returns one of these errors; an
//! error never leaves residual partial state.

use vstd::prelude::*;

verus! {

/// Name of a configuration or market parameter, carried inside validation
/// errors so the caller learns which check failed first.
#[derive(Clone, Copy, Debug, PartialEq, Eq, Structural)]
pub enum FieldName {
    CloseFactor,
    InsuranceFundFeeShare,
    TreasuryFeeShare,
    FeeShareSum,
    InitialBorrowRate,
    MaxLoanToValue,
    ReserveFactor,
    MaintenanceMargin,
    LiquidationBonus,
    InterestRateStrategy,
    OptimalUtilizationRate,
}

/// Failure taxonomy of the core. Each command surfaces exactly one of these
/// and aborts without mutating the pool.
#[derive(Clone, Copy, Debug, PartialEq, Eq, Structural)]
pub enum ContractError {
    /// The caller is not the owner of an owner-gated action.
    Unauthorized,
    /// A global configuration rule is violated; names the first bad field.
    InvalidConfig { field: FieldName },
    /// A market parameter rule is violated; names the first bad field.
    InvalidMarketParams { field: FieldName },
    /// A required market parameter was absent at initialization.
    MissingParam { field: FieldName },
    /// An asset with the same identifier already has a market.
    MarketAlreadyExists,
    /// The bitmap capacity ceiling on the number of markets is reached.
    MarketCapacityReached,
    /// No market is registered for the given asset or index.
    MarketNotFound,
    /// No record exists for the given user address.
    UserRecordNotFound,
    /// A decrease would drive a scaled balance negative.
    InsufficientBalance,
    /// Liquidation was attempted on a healthy position.
    NotLiquidatable,
    /// A liquidation names one market as both debt and collateral, or
    /// the borrower as their own liquidator.
    InvalidLiquidation,
    /// The requested collateral market holds nothing for the borrower.
    ExceedsCollateral,
    /// A repay amount of zero is below the dust threshold.
    RepayTooSmall,
    /// A borrow or withdraw would leave the position unhealthy.
    Insolvent,
    /// A fixed-point computation would overflow.
    ArithmeticOverflow,
}

impl FieldName {
    /// The parameter's name as it appears in messages.
    pub fn as_text(&self) -> (r: &'static str)
        ensures
            *self == FieldName::CloseFactor ==> r@ == "close_factor"@,
            *self == FieldName::InsuranceFundFeeShare ==> r@ == "insurance_fund_fee_share"@,
            *self == FieldName::TreasuryFeeShare ==> r@ == "treasury_fee_share"@,
            *self == FieldName::FeeShareSum ==> r@ == "fee_share_sum"@,
            *self == FieldName::InitialBorrowRate ==> r@ == "initial_borrow_rate"@,
            *self == FieldName::MaxLoanToValue ==> r@ == "max_loan_to_value"@,
            *self == FieldName::ReserveFactor ==> r@ == "reserve_factor"@,
            *self == FieldName::MaintenanceMargin ==> r@ == "maintenance_margin"@,
            *self == FieldName::LiquidationBonus ==> r@ == "liquidation_bonus"@,
            *self == FieldName::InterestRateStrategy ==> r@ == "interest_rate_strategy"@,
            *self == FieldName::OptimalUtilizationRate ==> r@ == "optimal_utilization_rate"@,
    {
        match self {
            FieldName::CloseFactor => "close_factor",
            FieldName::InsuranceFundFeeShare => "insurance_fund_fee_share",
            FieldName::TreasuryFeeShare => "treasury_fee_share",
            FieldName::FeeShareSum => "fee_share_sum",
            FieldName::InitialBorrowRate => "initial_borrow_rate",
            FieldName::MaxLoanToValue => "max_loan_to_value",
            FieldName::ReserveFactor => "reserve_factor",
            FieldName::MaintenanceMargin => "maintenance_margin",
            FieldName::LiquidationBonus => "liquidation_bonus",
            FieldName::InterestRateStrategy => "interest_rate_strategy",
            FieldName::OptimalUtilizationRate => "optimal_utilization_rate",
        }
    }
}

} // verus!
