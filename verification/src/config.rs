//! Global pool configuration and its validator.

use vstd::prelude::*;

use crate::decimal::{Decimal, DECIMAL_SCALE};
use crate::error::{ContractError, FieldName};

verus! {

/// Lending pool global configuration.
#[derive(Clone, Debug, PartialEq)]
pub struct Config {
    /// Contract owner; the only caller allowed to mutate configuration,
    /// markets and credit lines.
    pub owner: String,
    /// Maximum fraction of outstanding debt one liquidation may repay.
    pub close_factor: Decimal,
    /// Fraction of protocol fees sent to the insurance fund.
    pub insurance_fund_fee_share: Decimal,
    /// Fraction of protocol fees sent to the treasury.
    pub treasury_fee_share: Decimal,
}

/// Every fee share and the close factor are at most 1, and the two fee
/// shares together do not exceed 1.
pub open spec fn config_valid(c: Config) -> bool {
    &&& c.close_factor.atomics <= DECIMAL_SCALE
    &&& c.insurance_fund_fee_share.atomics <= DECIMAL_SCALE
    &&& c.treasury_fee_share.atomics <= DECIMAL_SCALE
    &&& c.insurance_fund_fee_share.atomics + c.treasury_fee_share.atomics <= DECIMAL_SCALE
}

/// The error an invalid configuration earns, honoring the check order.
/// Meaningful only when `config_valid` fails.
pub open spec fn config_validation_error(c: Config) -> ContractError {
    if c.close_factor.atomics > DECIMAL_SCALE {
        ContractError::InvalidConfig { field: FieldName::CloseFactor }
    } else if c.insurance_fund_fee_share.atomics > DECIMAL_SCALE {
        ContractError::InvalidConfig { field: FieldName::InsuranceFundFeeShare }
    } else if c.treasury_fee_share.atomics > DECIMAL_SCALE {
        ContractError::InvalidConfig { field: FieldName::TreasuryFeeShare }
    } else {
        ContractError::InvalidConfig { field: FieldName::FeeShareSum }
    }
}

impl Config {
    /// Checks each fraction bound in a fixed order, then the combined fee
    /// share, naming the first violated rule.
    pub fn validate(&self) -> (r: Result<(), ContractError>)
        ensures
            r is Ok <==> config_valid(*self),
            r matches Err(e) ==> e == config_validation_error(*self),
    {
        if self.close_factor.atomics > DECIMAL_SCALE {
            return Err(ContractError::InvalidConfig { field: FieldName::CloseFactor });
        }
        if self.insurance_fund_fee_share.atomics > DECIMAL_SCALE {
            return Err(ContractError::InvalidConfig { field: FieldName::InsuranceFundFeeShare });
        }
        if self.treasury_fee_share.atomics > DECIMAL_SCALE {
            return Err(ContractError::InvalidConfig { field: FieldName::TreasuryFeeShare });
        }
        if self.insurance_fund_fee_share.atomics + self.treasury_fee_share.atomics > DECIMAL_SCALE {
            return Err(ContractError::InvalidConfig { field: FieldName::FeeShareSum });
        }
        Ok(())
    }
}

} // verus!
