//! Markets: one ledger entry per supported asset, with its risk parameters,
//! compounding interest indices and aggregate scaled debt.

use vstd::prelude::*;

use crate::decimal::{
    Decimal, DECIMAL_SCALE, checked_mul_div, checked_mul_u128, checked_add_u128,
    checked_mul_amount, lemma_mul_div_ge, lemma_div_ordered,
};
use crate::error::{ContractError, FieldName};
use vstd::arithmetic::mul::lemma_mul_inequality;
use vstd::arithmetic::div_mod::{lemma_div_is_ordered, lemma_div_multiples_vanish};

verus! {

/// Whether the asset is native to the host chain or an external token
/// contract.
#[derive(Clone, Copy, Debug, PartialEq, Eq, Structural)]
pub enum AssetType {
    Native,
    Token,
}

/// Parameters of the kinked linear interest-rate curve. Below the optimal
/// utilization the borrow rate climbs from `base_rate` with `slope_1`;
/// above it, `slope_2` takes over.
#[derive(Clone, Copy, Debug, PartialEq, Eq, Structural)]
pub struct InterestRateStrategy {
    /// Utilization at which the curve kinks; in (0, 1].
    pub optimal_utilization_rate: Decimal,
    /// Borrow rate at zero utilization.
    pub base_rate: Decimal,
    /// Rate increase per unit of utilization below the kink.
    pub slope_1: Decimal,
    /// Rate increase per unit of utilization above the kink.
    pub slope_2: Decimal,
}

/// A strategy is valid when its kink lies strictly above zero and at most
/// at full utilization.
pub open spec fn strategy_valid(s: InterestRateStrategy) -> bool {
    0 < s.optimal_utilization_rate.atomics <= DECIMAL_SCALE
}

/// Borrow rate of the kinked curve at utilization `u` (in atomics),
/// truncating at every step; `None` when an intermediate product would
/// exceed `u128::MAX`.
pub open spec fn spec_borrow_rate(s: InterestRateStrategy, u: int) -> Option<int> {
    let scale = DECIMAL_SCALE as int;
    let opt = s.optimal_utilization_rate.atomics as int;
    let base = s.base_rate.atomics as int;
    let sl1 = s.slope_1.atomics as int;
    let sl2 = s.slope_2.atomics as int;
    if u <= opt {
        if opt == 0 {
            None
        } else if u * scale <= u128::MAX {
            let ratio = u * scale / opt;
            if sl1 * ratio <= u128::MAX {
                let part = sl1 * ratio / scale;
                if base + part <= u128::MAX {
                    Some(base + part)
                } else {
                    None
                }
            } else {
                None
            }
        } else {
            None
        }
    } else {
        if opt >= scale {
            None
        } else if base + sl1 > u128::MAX {
            None
        } else if (u - opt) * scale <= u128::MAX {
            let ratio = (u - opt) * scale / (scale - opt);
            if sl2 * ratio <= u128::MAX {
                let part = sl2 * ratio / scale;
                if base + sl1 + part <= u128::MAX {
                    Some(base + sl1 + part)
                } else {
                    None
                }
            } else {
                None
            }
        } else {
            None
        }
    }
}

/// Both rates at utilization `u`: the borrow rate from the curve and the
/// deposit rate `borrow_rate * u`, truncating.
pub open spec fn spec_rates(s: InterestRateStrategy, u: int) -> Option<(int, int)> {
    match spec_borrow_rate(s, u) {
        None => None,
        Some(br) => if br * u <= u128::MAX {
            Some((br, br * u / DECIMAL_SCALE as int))
        } else {
            None
        },
    }
}

impl InterestRateStrategy {
    /// Checks the strategy's own invariant, naming the offending field.
    pub fn validate(&self) -> (r: Result<(), ContractError>)
        ensures
            r is Ok <==> strategy_valid(*self),
            r matches Err(e) ==> e == (ContractError::InvalidMarketParams {
                field: FieldName::OptimalUtilizationRate,
            }),
    {
        if self.optimal_utilization_rate.atomics == 0
            || self.optimal_utilization_rate.atomics > DECIMAL_SCALE {
            Err(ContractError::InvalidMarketParams { field: FieldName::OptimalUtilizationRate })
        } else {
            Ok(())
        }
    }

    /// Recomputes the borrow and deposit rates for utilization `u`,
    /// exactly as `spec_rates` states; fails only on overflow.
    pub fn get_updated_rates(&self, u: Decimal) -> (r: Result<(Decimal, Decimal), ContractError>)
        requires
            strategy_valid(*self),
            u.atomics <= DECIMAL_SCALE,
        ensures
            r is Ok <==> spec_rates(*self, u.atomics as int) is Some,
            r matches Ok((br, lr)) ==> spec_rates(*self, u.atomics as int) == Some(
                (br.atomics as int, lr.atomics as int),
            ),
            r matches Err(e) ==> e == ContractError::ArithmeticOverflow,
    {
        let opt = self.optimal_utilization_rate;
        let borrow_rate_atomics: u128;
        if u.atomics <= opt.atomics {
            let ratio = match crate::decimal::checked_mul_div(u.atomics, DECIMAL_SCALE, opt.atomics) {
                Some(v) => v,
                None => { return Err(ContractError::ArithmeticOverflow); },
            };
            let part = match crate::decimal::checked_mul_div(
                self.slope_1.atomics,
                ratio,
                DECIMAL_SCALE,
            ) {
                Some(v) => v,
                None => { return Err(ContractError::ArithmeticOverflow); },
            };
            borrow_rate_atomics = match crate::decimal::checked_add_u128(
                self.base_rate.atomics,
                part,
            ) {
                Some(v) => v,
                None => { return Err(ContractError::ArithmeticOverflow); },
            };
        } else {
            let low_part = match crate::decimal::checked_add_u128(
                self.base_rate.atomics,
                self.slope_1.atomics,
            ) {
                Some(v) => v,
                None => { return Err(ContractError::ArithmeticOverflow); },
            };
            let ratio = match crate::decimal::checked_mul_div(
                u.atomics - opt.atomics,
                DECIMAL_SCALE,
                DECIMAL_SCALE - opt.atomics,
            ) {
                Some(v) => v,
                None => { return Err(ContractError::ArithmeticOverflow); },
            };
            let part = match crate::decimal::checked_mul_div(
                self.slope_2.atomics,
                ratio,
                DECIMAL_SCALE,
            ) {
                Some(v) => v,
                None => { return Err(ContractError::ArithmeticOverflow); },
            };
            borrow_rate_atomics = match crate::decimal::checked_add_u128(low_part, part) {
                Some(v) => v,
                None => { return Err(ContractError::ArithmeticOverflow); },
            };
        }
        let liquidity_rate_atomics = match crate::decimal::checked_mul_div(
            borrow_rate_atomics,
            u.atomics,
            DECIMAL_SCALE,
        ) {
            Some(v) => v,
            None => { return Err(ContractError::ArithmeticOverflow); },
        };
        Ok((Decimal { atomics: borrow_rate_atomics }, Decimal { atomics: liquidity_rate_atomics }))
    }
}

/// Pool-wide counters.
#[derive(Clone, Copy, Debug, PartialEq, Eq, Structural)]
pub struct GlobalState {
    /// Number of markets created so far; the next market takes this value
    /// as its dense index.
    pub market_count: u32,
}

/// Risk and rate parameters supplied at market creation (all mandatory)
/// or update (any subset).
#[derive(Clone, Copy, Debug, PartialEq)]
pub struct InitOrUpdateAssetParams {
    /// Borrow rate the market starts with; read only at creation.
    pub initial_borrow_rate: Option<Decimal>,
    /// Collateral ratio ceiling for opening new borrows.
    pub max_loan_to_value: Option<Decimal>,
    /// Fraction of borrower interest kept by the protocol.
    pub reserve_factor: Option<Decimal>,
    /// Collateral ratio below which the position is liquidatable.
    pub maintenance_margin: Option<Decimal>,
    /// Extra collateral fraction awarded to a liquidator.
    pub liquidation_bonus: Option<Decimal>,
    /// Parameters of the interest-rate curve.
    pub interest_rate_strategy: Option<InterestRateStrategy>,
}

/// One market per supported asset; a market value itself is plain data.
/// The asset identifier lives in the registry's reference table beside
/// the market list. The address of the token contract representing pool
/// shares is not stored here: minting and burning those shares is the
/// share-token collaborator's business, outside this core.
#[derive(Clone, Copy, Debug, PartialEq, Eq, Structural)]
pub struct Market {
    /// Dense index: bit position in the user bitmaps, stable for the
    /// market's lifetime.
    pub index: u32,
    /// Whether the asset is native or an external token.
    pub asset_type: AssetType,
    /// Compounding factor of borrower interest; starts at 1.0.
    pub borrow_index: Decimal,
    /// Compounding factor of depositor interest; starts at 1.0.
    pub liquidity_index: Decimal,
    /// Current per-second rate charged to borrowers.
    pub borrow_rate: Decimal,
    /// Current per-second rate paid to depositors.
    pub liquidity_rate: Decimal,
    /// Max fraction of collateral value that can be borrowed.
    pub max_loan_to_value: Decimal,
    /// Fraction of borrower interest retained by the protocol.
    pub reserve_factor: Decimal,
    /// Collateral fraction at which the loan is under-collateralized.
    pub maintenance_margin: Decimal,
    /// Price bonus for liquidators buying the collateral.
    pub liquidation_bonus: Decimal,
    /// Timestamp (seconds) of the last index/rate update.
    pub interests_last_updated: u64,
    /// Sum of all users' scaled debt in this market.
    pub debt_total_scaled: u128,
    /// Accrued, undistributed protocol revenue in real units.
    pub protocol_income_to_distribute: u128,
    /// Interest-rate curve used to recompute the two rates.
    pub interest_rate_strategy: InterestRateStrategy,
}

/// The market parameter invariant: every risk fraction is at most 1, the
/// liquidation threshold is strictly stricter than the borrowing ceiling,
/// and the rate curve is valid.
pub open spec fn valid_market_params(m: Market) -> bool {
    &&& strategy_valid(m.interest_rate_strategy)
    &&& m.max_loan_to_value.atomics <= DECIMAL_SCALE
    &&& m.reserve_factor.atomics <= DECIMAL_SCALE
    &&& m.maintenance_margin.atomics <= DECIMAL_SCALE
    &&& m.liquidation_bonus.atomics <= DECIMAL_SCALE
    &&& m.maintenance_margin.atomics > m.max_loan_to_value.atomics
}

/// The error `Market::validate` reports, honoring the check order: the
/// strategy first, then each fraction bound, then the margin/ceiling
/// relation. Meaningful only when the parameters are invalid.
pub open spec fn spec_market_validation_error(m: Market) -> ContractError {
    if !strategy_valid(m.interest_rate_strategy) {
        ContractError::InvalidMarketParams { field: FieldName::OptimalUtilizationRate }
    } else if m.max_loan_to_value.atomics > DECIMAL_SCALE {
        ContractError::InvalidMarketParams { field: FieldName::MaxLoanToValue }
    } else if m.reserve_factor.atomics > DECIMAL_SCALE {
        ContractError::InvalidMarketParams { field: FieldName::ReserveFactor }
    } else if m.maintenance_margin.atomics > DECIMAL_SCALE {
        ContractError::InvalidMarketParams { field: FieldName::MaintenanceMargin }
    } else if m.liquidation_bonus.atomics > DECIMAL_SCALE {
        ContractError::InvalidMarketParams { field: FieldName::LiquidationBonus }
    } else {
        ContractError::InvalidMarketParams { field: FieldName::MaintenanceMargin }
    }
}

/// The first missing mandatory creation parameter, if any, in declaration
/// order.
pub open spec fn spec_missing_param(p: InitOrUpdateAssetParams) -> Option<FieldName> {
    if p.initial_borrow_rate is None {
        Some(FieldName::InitialBorrowRate)
    } else if p.max_loan_to_value is None {
        Some(FieldName::MaxLoanToValue)
    } else if p.reserve_factor is None {
        Some(FieldName::ReserveFactor)
    } else if p.maintenance_margin is None {
        Some(FieldName::MaintenanceMargin)
    } else if p.liquidation_bonus is None {
        Some(FieldName::LiquidationBonus)
    } else if p.interest_rate_strategy is None {
        Some(FieldName::InterestRateStrategy)
    } else {
        None
    }
}

/// Validity of a full parameter set (all fields present), as creation
/// checks it on the market it builds.
pub open spec fn params_valid(p: InitOrUpdateAssetParams) -> bool {
    &&& strategy_valid(p.interest_rate_strategy.unwrap())
    &&& p.max_loan_to_value.unwrap().atomics <= DECIMAL_SCALE
    &&& p.reserve_factor.unwrap().atomics <= DECIMAL_SCALE
    &&& p.maintenance_margin.unwrap().atomics <= DECIMAL_SCALE
    &&& p.liquidation_bonus.unwrap().atomics <= DECIMAL_SCALE
    &&& p.maintenance_margin.unwrap().atomics > p.max_loan_to_value.unwrap().atomics
}

/// The validation error a full parameter set earns, in the fixed check
/// order; meaningful only when `params_valid` fails.
pub open spec fn params_validation_error(p: InitOrUpdateAssetParams) -> ContractError {
    if !strategy_valid(p.interest_rate_strategy.unwrap()) {
        ContractError::InvalidMarketParams { field: FieldName::OptimalUtilizationRate }
    } else if p.max_loan_to_value.unwrap().atomics > DECIMAL_SCALE {
        ContractError::InvalidMarketParams { field: FieldName::MaxLoanToValue }
    } else if p.reserve_factor.unwrap().atomics > DECIMAL_SCALE {
        ContractError::InvalidMarketParams { field: FieldName::ReserveFactor }
    } else if p.maintenance_margin.unwrap().atomics > DECIMAL_SCALE {
        ContractError::InvalidMarketParams { field: FieldName::MaintenanceMargin }
    } else if p.liquidation_bonus.unwrap().atomics > DECIMAL_SCALE {
        ContractError::InvalidMarketParams { field: FieldName::LiquidationBonus }
    } else {
        ContractError::InvalidMarketParams { field: FieldName::MaintenanceMargin }
    }
}

/// The risk parameters an update leaves in place: each supplied field
/// replaces the stored one, the rest keep their values.
pub open spec fn merged_max_loan_to_value(m: Market, p: InitOrUpdateAssetParams) -> Decimal {
    if p.max_loan_to_value is Some {
        p.max_loan_to_value.unwrap()
    } else {
        m.max_loan_to_value
    }
}

pub open spec fn merged_reserve_factor(m: Market, p: InitOrUpdateAssetParams) -> Decimal {
    if p.reserve_factor is Some {
        p.reserve_factor.unwrap()
    } else {
        m.reserve_factor
    }
}

pub open spec fn merged_maintenance_margin(m: Market, p: InitOrUpdateAssetParams) -> Decimal {
    if p.maintenance_margin is Some {
        p.maintenance_margin.unwrap()
    } else {
        m.maintenance_margin
    }
}

pub open spec fn merged_liquidation_bonus(m: Market, p: InitOrUpdateAssetParams) -> Decimal {
    if p.liquidation_bonus is Some {
        p.liquidation_bonus.unwrap()
    } else {
        m.liquidation_bonus
    }
}

pub open spec fn merged_strategy(m: Market, p: InitOrUpdateAssetParams) -> InterestRateStrategy {
    if p.interest_rate_strategy is Some {
        p.interest_rate_strategy.unwrap()
    } else {
        m.interest_rate_strategy
    }
}

/// Validity of the merged result of an update, re-checking every rule
/// against the overlay of the supplied fields on the stored market.
pub open spec fn merged_valid(m: Market, p: InitOrUpdateAssetParams) -> bool {
    &&& strategy_valid(merged_strategy(m, p))
    &&& merged_max_loan_to_value(m, p).atomics <= DECIMAL_SCALE
    &&& merged_reserve_factor(m, p).atomics <= DECIMAL_SCALE
    &&& merged_maintenance_margin(m, p).atomics <= DECIMAL_SCALE
    &&& merged_liquidation_bonus(m, p).atomics <= DECIMAL_SCALE
    &&& merged_maintenance_margin(m, p).atomics > merged_max_loan_to_value(m, p).atomics
}

/// The validation error of the merged result, in the fixed check order;
/// meaningful only when `merged_valid` fails.
pub open spec fn merged_validation_error(m: Market, p: InitOrUpdateAssetParams) -> ContractError {
    if !strategy_valid(merged_strategy(m, p)) {
        ContractError::InvalidMarketParams { field: FieldName::OptimalUtilizationRate }
    } else if merged_max_loan_to_value(m, p).atomics > DECIMAL_SCALE {
        ContractError::InvalidMarketParams { field: FieldName::MaxLoanToValue }
    } else if merged_reserve_factor(m, p).atomics > DECIMAL_SCALE {
        ContractError::InvalidMarketParams { field: FieldName::ReserveFactor }
    } else if merged_maintenance_margin(m, p).atomics > DECIMAL_SCALE {
        ContractError::InvalidMarketParams { field: FieldName::MaintenanceMargin }
    } else if merged_liquidation_bonus(m, p).atomics > DECIMAL_SCALE {
        ContractError::InvalidMarketParams { field: FieldName::LiquidationBonus }
    } else {
        ContractError::InvalidMarketParams { field: FieldName::MaintenanceMargin }
    }
}

impl Market {
    /// Checks the market parameter invariant, reporting the first
    /// violated field in the fixed check order.
    pub fn validate(&self) -> (r: Result<(), ContractError>)
        ensures
            r is Ok <==> valid_market_params(*self),
            r matches Err(e) ==> e == spec_market_validation_error(*self),
    {
        match self.interest_rate_strategy.validate() {
            Ok(()) => (),
            Err(e) => { return Err(e); },
        }
        if self.max_loan_to_value.atomics > DECIMAL_SCALE {
            return Err(ContractError::InvalidMarketParams { field: FieldName::MaxLoanToValue });
        }
        if self.reserve_factor.atomics > DECIMAL_SCALE {
            return Err(ContractError::InvalidMarketParams { field: FieldName::ReserveFactor });
        }
        if self.maintenance_margin.atomics > DECIMAL_SCALE {
            return Err(ContractError::InvalidMarketParams { field: FieldName::MaintenanceMargin });
        }
        if self.liquidation_bonus.atomics > DECIMAL_SCALE {
            return Err(ContractError::InvalidMarketParams { field: FieldName::LiquidationBonus });
        }
        if self.maintenance_margin.atomics <= self.max_loan_to_value.atomics {
            return Err(ContractError::InvalidMarketParams { field: FieldName::MaintenanceMargin });
        }
        Ok(())
    }

    /// Initializes a new market. Every risk parameter must be present:
    /// absence is an error naming the parameter, not a default. The merged
    /// market is validated before it is returned.
    pub fn create(
        block_time: u64,
        index: u32,
        asset_type: AssetType,
        params: InitOrUpdateAssetParams,
    ) -> (r: Result<Market, ContractError>)
        ensures
            spec_missing_param(params) matches Some(f) ==> r == Err::<Market, _>(
                ContractError::MissingParam { field: f },
            ),
            r matches Ok(m) ==> {
                &&& spec_missing_param(params) is None
                &&& valid_market_params(m)
                &&& m.index == index
                &&& m.asset_type == asset_type
                &&& m.borrow_index.atomics == DECIMAL_SCALE
                &&& m.liquidity_index.atomics == DECIMAL_SCALE
                &&& m.borrow_rate == params.initial_borrow_rate.unwrap()
                &&& m.liquidity_rate.atomics == 0
                &&& m.max_loan_to_value == params.max_loan_to_value.unwrap()
                &&& m.reserve_factor == params.reserve_factor.unwrap()
                &&& m.maintenance_margin == params.maintenance_margin.unwrap()
                &&& m.liquidation_bonus == params.liquidation_bonus.unwrap()
                &&& m.interests_last_updated == block_time
                &&& m.debt_total_scaled == 0
                &&& m.protocol_income_to_distribute == 0
                &&& m.interest_rate_strategy == params.interest_rate_strategy.unwrap()
            },
            r is Ok <==> spec_missing_param(params) is None && params_valid(params),
            r matches Err(e) ==> (spec_missing_param(params) matches Some(f) && e
                == (ContractError::MissingParam { field: f })) || (spec_missing_param(params)
                is None && e == params_validation_error(params)),
    {
        let initial_borrow_rate = match params.initial_borrow_rate {
            Some(v) => v,
            None => {
                return Err(ContractError::MissingParam { field: FieldName::InitialBorrowRate });
            },
        };
        let max_loan_to_value = match params.max_loan_to_value {
            Some(v) => v,
            None => { return Err(ContractError::MissingParam { field: FieldName::MaxLoanToValue }) },
        };
        let reserve_factor = match params.reserve_factor {
            Some(v) => v,
            None => { return Err(ContractError::MissingParam { field: FieldName::ReserveFactor }) },
        };
        let maintenance_margin = match params.maintenance_margin {
            Some(v) => v,
            None => {
                return Err(ContractError::MissingParam { field: FieldName::MaintenanceMargin });
            },
        };
        let liquidation_bonus = match params.liquidation_bonus {
            Some(v) => v,
            None => {
                return Err(ContractError::MissingParam { field: FieldName::LiquidationBonus });
            },
        };
        let interest_rate_strategy = match params.interest_rate_strategy {
            Some(v) => v,
            None => {
                return Err(ContractError::MissingParam { field: FieldName::InterestRateStrategy });
            },
        };
        let new_market = Market {
            index,
            asset_type,
            borrow_index: Decimal::one(),
            liquidity_index: Decimal::one(),
            borrow_rate: initial_borrow_rate,
            liquidity_rate: Decimal::zero(),
            max_loan_to_value,
            reserve_factor,
            maintenance_margin,
            liquidation_bonus,
            interests_last_updated: block_time,
            debt_total_scaled: 0,
            protocol_income_to_distribute: 0,
            interest_rate_strategy,
        };
        proof {
            assert(valid_market_params(new_market) == params_valid(params));
            assert(spec_market_validation_error(new_market) == params_validation_error(params));
        }
        match new_market.validate() {
            Ok(()) => Ok(new_market),
            Err(e) => Err(e),
        }
    }

    /// Overlays only the supplied parameters on this market and re-runs
    /// full validation on the merged result; the initial borrow rate is
    /// ignored on update.
    pub fn update_with(self, params: InitOrUpdateAssetParams) -> (r: Result<Market, ContractError>)
        ensures
            r is Ok <==> merged_valid(self, params),
            r matches Ok(m) ==> {
                &&& valid_market_params(m)
                &&& m.max_loan_to_value == merged_max_loan_to_value(self, params)
                &&& m.reserve_factor == merged_reserve_factor(self, params)
                &&& m.maintenance_margin == merged_maintenance_margin(self, params)
                &&& m.liquidation_bonus == merged_liquidation_bonus(self, params)
                &&& m.interest_rate_strategy == merged_strategy(self, params)
                &&& m.index == self.index
                &&& m.asset_type == self.asset_type
                &&& m.borrow_index == self.borrow_index
                &&& m.liquidity_index == self.liquidity_index
                &&& m.borrow_rate == self.borrow_rate
                &&& m.liquidity_rate == self.liquidity_rate
                &&& m.interests_last_updated == self.interests_last_updated
                &&& m.debt_total_scaled == self.debt_total_scaled
                &&& m.protocol_income_to_distribute == self.protocol_income_to_distribute
            },
            r matches Err(e) ==> e == merged_validation_error(self, params),
    {
        let updated_market = Market {
            max_loan_to_value: match params.max_loan_to_value {
                Some(v) => v,
                None => self.max_loan_to_value,
            },
            reserve_factor: match params.reserve_factor {
                Some(v) => v,
                None => self.reserve_factor,
            },
            maintenance_margin: match params.maintenance_margin {
                Some(v) => v,
                None => self.maintenance_margin,
            },
            liquidation_bonus: match params.liquidation_bonus {
                Some(v) => v,
                None => self.liquidation_bonus,
            },
            interest_rate_strategy: match params.interest_rate_strategy {
                Some(v) => v,
                None => self.interest_rate_strategy,
            },
            ..self
        };
        match updated_market.validate() {
            Ok(()) => Ok(updated_market),
            Err(e) => Err(e),
        }
    }
}

/// Pool utilization of a market (in atomics): total real debt over total
/// real debt plus available liquidity, truncating; `None` on overflow.
pub open spec fn spec_utilization(m: Market, available_liquidity: u128) -> Option<int> {
    let scale = DECIMAL_SCALE as int;
    let d = m.debt_total_scaled as int;
    let bi = m.borrow_index.atomics as int;
    if d * bi <= u128::MAX {
        let debt_real = d * bi / scale;
        if debt_real == 0 {
            Some(0)
        } else if debt_real + available_liquidity <= u128::MAX {
            if debt_real * scale <= u128::MAX {
                Some(debt_real * scale / (debt_real + available_liquidity as int))
            } else {
                None
            }
        } else {
            None
        }
    } else {
        None
    }
}

/// One compounding step of an index: `idx * (1 + rate * dt)`, truncating;
/// `None` when any intermediate product leaves `u128`.
pub open spec fn spec_compound(idx: int, rate: int, dt: int) -> Option<int> {
    let scale = DECIMAL_SCALE as int;
    if rate * dt <= u128::MAX {
        if scale + rate * dt <= u128::MAX {
            if idx * (scale + rate * dt) <= u128::MAX {
                Some(idx * (scale + rate * dt) / scale)
            } else {
                None
            }
        } else {
            None
        }
    } else {
        None
    }
}

/// Protocol revenue a borrow-index advance earns: the reserve-factor share
/// of the interest accrued on the market's total scaled debt, added to the
/// undistributed total; `None` on overflow.
pub open spec fn spec_income_total(m: Market, bi_new: int) -> Option<int> {
    let scale = DECIMAL_SCALE as int;
    let d = m.debt_total_scaled as int;
    let bi_old = m.borrow_index.atomics as int;
    if d * bi_new <= u128::MAX {
        let interest = d * bi_new / scale - d * bi_old / scale;
        if interest * m.reserve_factor.atomics <= u128::MAX {
            let income = interest * m.reserve_factor.atomics / scale;
            if m.protocol_income_to_distribute + income <= u128::MAX {
                Some(m.protocol_income_to_distribute + income)
            } else {
                None
            }
        } else {
            None
        }
    } else {
        None
    }
}

/// The market after one accrual to `now`: a no-op at the same timestamp,
/// otherwise recomputed rates, compounded indices and collected protocol
/// income; `None` when any step overflows.
pub open spec fn spec_accrue(m: Market, now: u64, available_liquidity: u128) -> Option<Market> {
    let scale = DECIMAL_SCALE as int;
    if now == m.interests_last_updated {
        Some(m)
    } else {
        let dt = now - m.interests_last_updated;
        match spec_utilization(m, available_liquidity) {
            None => None,
            Some(u) => match spec_rates(m.interest_rate_strategy, u) {
                None => None,
                Some((br, lr)) => {
                    let lr_eff = lr * (scale - m.reserve_factor.atomics) / scale;
                    if lr * (scale - m.reserve_factor.atomics) <= u128::MAX {
                        match spec_compound(m.borrow_index.atomics as int, br, dt) {
                            None => None,
                            Some(bi_new) => match spec_compound(
                                m.liquidity_index.atomics as int,
                                lr_eff,
                                dt,
                            ) {
                                None => None,
                                Some(li_new) => match spec_income_total(m, bi_new) {
                                    None => None,
                                    Some(income_total) => Some(
                                        Market {
                                            borrow_index: Decimal { atomics: bi_new as u128 },
                                            liquidity_index: Decimal { atomics: li_new as u128 },
                                            borrow_rate: Decimal { atomics: br as u128 },
                                            liquidity_rate: Decimal { atomics: lr as u128 },
                                            interests_last_updated: now,
                                            protocol_income_to_distribute: income_total as u128,
                                            ..m
                                        },
                                    ),
                                },
                            },
                        }
                    } else {
                        None
                    }
                },
            },
        }
    }
}

/// A ratio of a nonnegative numerator over a no-smaller positive
/// denominator is at most 1.0 after scaling and truncation.
proof fn lemma_ratio_le_one(n: int, d: int)
    requires
        0 <= n <= d,
        0 < d,
    ensures
        n * DECIMAL_SCALE as int / d <= DECIMAL_SCALE,
{
    let scale = DECIMAL_SCALE as int;
    lemma_mul_inequality(n, d, scale);
    lemma_div_is_ordered(n * scale, d * scale, d);
    lemma_div_multiples_vanish(scale, d);
    assert(d * scale == scale * d) by (nonlinear_arith);
}

/// Compounds an index by `1 + rate * dt`, truncating, exactly as
/// `spec_compound` states; the result never falls below the index.
fn compound_index(idx: u128, rate: u128, dt: u64) -> (r: Option<u128>)
    ensures
        r is Some <==> spec_compound(idx as int, rate as int, dt as int) is Some,
        r matches Some(v) ==> spec_compound(idx as int, rate as int, dt as int) == Some(v as int)
            && v >= idx,
{
    let rdt = match checked_mul_u128(rate, dt as u128) {
        Some(v) => v,
        None => { return None; },
    };
    let factor = match checked_add_u128(DECIMAL_SCALE, rdt) {
        Some(v) => v,
        None => { return None; },
    };
    let new_idx = match checked_mul_div(idx, factor, DECIMAL_SCALE) {
        Some(v) => v,
        None => { return None; },
    };
    proof {
        lemma_mul_div_ge(idx as int, factor as int);
    }
    Some(new_idx)
}

impl Market {
    /// Advances the market from `interests_last_updated` to `now`: a no-op
    /// at the same timestamp, otherwise it recomputes both rates from the
    /// current utilization, compounds both indices, and collects the
    /// reserve-factor share of borrower interest as protocol income.
    /// Indices never decrease, and accruing twice at one timestamp leaves
    /// the market as one accrual does.
    pub fn apply_accrued_interests(&mut self, now: u64, available_liquidity: u128) -> (r: Result<
        (),
        ContractError,
    >)
        requires
            old(self).interests_last_updated <= now,
            valid_market_params(*old(self)),
        ensures
            r is Ok <==> spec_accrue(*old(self), now, available_liquidity) is Some,
            r is Ok ==> spec_accrue(*old(self), now, available_liquidity) == Some(*final(self)),
            r matches Err(e) ==> *final(self) == *old(self) && e
                == ContractError::ArithmeticOverflow,
            r is Ok ==> final(self).borrow_index.atomics >= old(self).borrow_index.atomics
                && final(self).liquidity_index.atomics >= old(self).liquidity_index.atomics,
            now == old(self).interests_last_updated ==> r is Ok && *final(self) == *old(self),
            r is Ok ==> final(self).interests_last_updated == now,
            final(self).index == old(self).index && final(self).asset_type == old(self).asset_type
                && final(self).debt_total_scaled == old(self).debt_total_scaled
                && final(self).max_loan_to_value == old(self).max_loan_to_value
                && final(self).reserve_factor == old(self).reserve_factor
                && final(self).maintenance_margin == old(self).maintenance_margin
                && final(self).liquidation_bonus == old(self).liquidation_bonus
                && final(self).interest_rate_strategy == old(self).interest_rate_strategy,
            valid_market_params(*final(self)),
    {
        if now == self.interests_last_updated {
            return Ok(());
        }
        let dt: u64 = now - self.interests_last_updated;
        let debt_real = match checked_mul_amount(self.debt_total_scaled, self.borrow_index) {
            Some(v) => v,
            None => { return Err(ContractError::ArithmeticOverflow); },
        };
        let utilization: Decimal;
        if debt_real == 0 {
            utilization = Decimal::zero();
        } else {
            let total = match checked_add_u128(debt_real, available_liquidity) {
                Some(v) => v,
                None => { return Err(ContractError::ArithmeticOverflow); },
            };
            utilization = match Decimal::checked_from_ratio(debt_real, total) {
                Some(v) => v,
                None => { return Err(ContractError::ArithmeticOverflow); },
            };
            proof {
                lemma_ratio_le_one(debt_real as int, total as int);
            }
        }
        let (borrow_rate, liquidity_rate) = match self.interest_rate_strategy.get_updated_rates(
            utilization,
        ) {
            Ok(p) => p,
            Err(_) => { return Err(ContractError::ArithmeticOverflow); },
        };
        let lr_eff = match checked_mul_div(
            liquidity_rate.atomics,
            DECIMAL_SCALE - self.reserve_factor.atomics,
            DECIMAL_SCALE,
        ) {
            Some(v) => v,
            None => { return Err(ContractError::ArithmeticOverflow); },
        };
        let bi_new = match compound_index(self.borrow_index.atomics, borrow_rate.atomics, dt) {
            Some(v) => v,
            None => { return Err(ContractError::ArithmeticOverflow); },
        };
        let li_new = match compound_index(self.liquidity_index.atomics, lr_eff, dt) {
            Some(v) => v,
            None => { return Err(ContractError::ArithmeticOverflow); },
        };
        let new_debt_real = match checked_mul_div(self.debt_total_scaled, bi_new, DECIMAL_SCALE) {
            Some(v) => v,
            None => { return Err(ContractError::ArithmeticOverflow); },
        };
        proof {
            lemma_mul_inequality(
                self.borrow_index.atomics as int,
                bi_new as int,
                self.debt_total_scaled as int,
            );
            assert(self.debt_total_scaled as int * self.borrow_index.atomics as int
                == self.borrow_index.atomics as int * self.debt_total_scaled as int)
                by (nonlinear_arith);
            assert(self.debt_total_scaled as int * bi_new as int == bi_new as int
                * self.debt_total_scaled as int) by (nonlinear_arith);
            lemma_div_ordered(
                self.debt_total_scaled as int * self.borrow_index.atomics as int,
                self.debt_total_scaled as int * bi_new as int,
                DECIMAL_SCALE as int,
            );
        }
        let interest = new_debt_real - debt_real;
        let income = match checked_mul_div(interest, self.reserve_factor.atomics, DECIMAL_SCALE) {
            Some(v) => v,
            None => { return Err(ContractError::ArithmeticOverflow); },
        };
        let income_total = match checked_add_u128(self.protocol_income_to_distribute, income) {
            Some(v) => v,
            None => { return Err(ContractError::ArithmeticOverflow); },
        };
        self.borrow_index = Decimal::new(bi_new);
        self.liquidity_index = Decimal::new(li_new);
        self.borrow_rate = borrow_rate;
        self.liquidity_rate = liquidity_rate;
        self.interests_last_updated = now;
        self.protocol_income_to_distribute = income_total;
        Ok(())
    }
}

} // verus!
