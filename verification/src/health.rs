//! Solvency accounting: values a user's whole position at supplied oracle
//! prices and aggregates the risk-weighted thresholds.
//!
//! A position is healthy when its debt value stays within the
//! loan-to-value-weighted collateral value, and liquidatable when the debt
//! value exceeds the maintenance-margin-weighted collateral value. Every
//! product truncates toward zero; every step is overflow-checked.

use vstd::prelude::*;

use crate::decimal::{Decimal, DECIMAL_SCALE, checked_mul_div, checked_add_u128};
use crate::error::ContractError;
use crate::ledger::{UserAccount, debt_scaled_of, collateral_scaled_of};
use crate::market::Market;

verus! {

/// Aggregated position values at current prices.
#[derive(Clone, Copy, Debug, PartialEq, Eq, Structural)]
pub struct HealthTotals {
    /// Value of all collateral, before risk weighting.
    pub collateral_value: u128,
    /// Value of all debt.
    pub debt_value: u128,
    /// Sum of collateral values weighted by each market's
    /// max-loan-to-value: the borrowing ceiling.
    pub max_borrow_value: u128,
    /// Sum of collateral values weighted by each market's maintenance
    /// margin: the liquidation threshold.
    pub liquidation_threshold_value: u128,
}

/// Adds one market's contribution to the running totals: the collateral
/// value (scaled balance descaled by the liquidity index, then priced),
/// its two risk-weighted forms, and the debt value (descaled by the
/// borrow index, then priced). `None` when any step overflows.
pub open spec fn spec_health_step(
    m: Market,
    a: UserAccount,
    price: Decimal,
    i: int,
    t: HealthTotals,
) -> Option<HealthTotals> {
    let scale = DECIMAL_SCALE as int;
    let cs = collateral_scaled_of(a, i);
    let ds = debt_scaled_of(a, i);
    if cs * m.liquidity_index.atomics > u128::MAX {
        None
    } else {
        let coll_real = cs * m.liquidity_index.atomics / scale;
        if coll_real * price.atomics > u128::MAX {
            None
        } else {
            let coll_val = coll_real * price.atomics / scale;
            if t.collateral_value + coll_val > u128::MAX {
                None
            } else if coll_val * m.max_loan_to_value.atomics > u128::MAX {
                None
            } else {
                let ltv_part = coll_val * m.max_loan_to_value.atomics / scale;
                if t.max_borrow_value + ltv_part > u128::MAX {
                    None
                } else if coll_val * m.maintenance_margin.atomics > u128::MAX {
                    None
                } else {
                    let margin_part = coll_val * m.maintenance_margin.atomics / scale;
                    if t.liquidation_threshold_value + margin_part > u128::MAX {
                        None
                    } else if ds * m.borrow_index.atomics > u128::MAX {
                        None
                    } else {
                        let debt_real = ds * m.borrow_index.atomics / scale;
                        if debt_real * price.atomics > u128::MAX {
                            None
                        } else {
                            let debt_val = debt_real * price.atomics / scale;
                            if t.debt_value + debt_val > u128::MAX {
                                None
                            } else {
                                Some(
                                    HealthTotals {
                                        collateral_value: (t.collateral_value + coll_val) as u128,
                                        debt_value: (t.debt_value + debt_val) as u128,
                                        max_borrow_value: (t.max_borrow_value + ltv_part) as u128,
                                        liquidation_threshold_value: (t.liquidation_threshold_value
                                            + margin_part) as u128,
                                    },
                                )
                            }
                        }
                    }
                }
            }
        }
    }
}

/// Totals over the first `n` markets.
pub open spec fn spec_health_up_to(
    markets: Seq<Market>,
    a: UserAccount,
    prices: Seq<Decimal>,
    n: int,
) -> Option<HealthTotals>
    decreases n,
{
    if n <= 0 {
        Some(
            HealthTotals {
                collateral_value: 0,
                debt_value: 0,
                max_borrow_value: 0,
                liquidation_threshold_value: 0,
            },
        )
    } else {
        match spec_health_up_to(markets, a, prices, n - 1) {
            None => None,
            Some(t) => spec_health_step(markets[n - 1], a, prices[n - 1], n - 1, t),
        }
    }
}

/// Totals over all markets: what `compute_health` returns.
pub open spec fn spec_health(markets: Seq<Market>, a: UserAccount, prices: Seq<Decimal>) -> Option<
    HealthTotals,
> {
    spec_health_up_to(markets, a, prices, markets.len() as int)
}

/// An overflow at any prefix poisons every longer prefix.
pub proof fn lemma_health_none_propagates(
    markets: Seq<Market>,
    a: UserAccount,
    prices: Seq<Decimal>,
    n1: int,
    n2: int,
)
    requires
        0 <= n1 <= n2,
        spec_health_up_to(markets, a, prices, n1) is None,
    ensures
        spec_health_up_to(markets, a, prices, n2) is None,
    decreases n2,
{
    if n2 > n1 {
        lemma_health_none_propagates(markets, a, prices, n1, n2 - 1);
    }
}

/// A position with no balances values to zero at any prices: every step
/// contributes nothing and cannot overflow.
pub proof fn lemma_health_of_empty_account(
    markets: Seq<Market>,
    a: UserAccount,
    prices: Seq<Decimal>,
    n: int,
)
    requires
        forall|m: int| debt_scaled_of(a, m) == 0,
        forall|m: int| collateral_scaled_of(a, m) == 0,
        0 <= n,
    ensures
        spec_health_up_to(markets, a, prices, n) == Some(
            HealthTotals {
                collateral_value: 0,
                debt_value: 0,
                max_borrow_value: 0,
                liquidation_threshold_value: 0,
            },
        ),
    decreases n,
{
    if n > 0 {
        lemma_health_of_empty_account(markets, a, prices, n - 1);
        let scale = DECIMAL_SCALE as int;
        let m = markets[n - 1];
        let price = prices[n - 1];
        assert(collateral_scaled_of(a, n - 1) == 0);
        assert(debt_scaled_of(a, n - 1) == 0);
        assert(0 * m.liquidity_index.atomics as int == 0) by (nonlinear_arith);
        assert(0 * m.borrow_index.atomics as int == 0) by (nonlinear_arith);
        assert(0 * price.atomics as int == 0) by (nonlinear_arith);
        assert(0 * m.max_loan_to_value.atomics as int == 0) by (nonlinear_arith);
        assert(0 * m.maintenance_margin.atomics as int == 0) by (nonlinear_arith);
        vstd::arithmetic::div_mod::lemma_div_basics(scale);
    }
}

/// The position is healthy: its debt value stays within the
/// loan-to-value-weighted collateral value. An overflowing valuation is
/// never healthy.
pub open spec fn spec_healthy(markets: Seq<Market>, a: UserAccount, prices: Seq<Decimal>) -> bool {
    match spec_health(markets, a, prices) {
        Some(t) => t.debt_value <= t.max_borrow_value,
        None => false,
    }
}

/// The position may be liquidated: its debt value exceeds the
/// maintenance-margin-weighted collateral value.
pub open spec fn spec_liquidatable(
    markets: Seq<Market>,
    a: UserAccount,
    prices: Seq<Decimal>,
) -> bool {
    match spec_health(markets, a, prices) {
        Some(t) => t.debt_value > t.liquidation_threshold_value,
        None => false,
    }
}

/// One market's contribution, exactly as `spec_health_step` states.
fn health_step(m: &Market, a: &UserAccount, price: Decimal, i: usize, t: HealthTotals) -> (r:
    Option<HealthTotals>)
    requires
        i < 128,
    ensures
        r == spec_health_step(*m, *a, price, i as int, t),
{
    let cs = a.collateral[i];
    let ds = a.debts[i].amount_scaled;
    let coll_real = match checked_mul_div(cs, m.liquidity_index.atomics, DECIMAL_SCALE) {
        Some(v) => v,
        None => { return None; },
    };
    let coll_val = match checked_mul_div(coll_real, price.atomics, DECIMAL_SCALE) {
        Some(v) => v,
        None => { return None; },
    };
    let collateral_value = match checked_add_u128(t.collateral_value, coll_val) {
        Some(v) => v,
        None => { return None; },
    };
    let ltv_part = match checked_mul_div(coll_val, m.max_loan_to_value.atomics, DECIMAL_SCALE) {
        Some(v) => v,
        None => { return None; },
    };
    let max_borrow_value = match checked_add_u128(t.max_borrow_value, ltv_part) {
        Some(v) => v,
        None => { return None; },
    };
    let margin_part = match checked_mul_div(coll_val, m.maintenance_margin.atomics, DECIMAL_SCALE) {
        Some(v) => v,
        None => { return None; },
    };
    let liquidation_threshold_value = match checked_add_u128(
        t.liquidation_threshold_value,
        margin_part,
    ) {
        Some(v) => v,
        None => { return None; },
    };
    let debt_real = match checked_mul_div(ds, m.borrow_index.atomics, DECIMAL_SCALE) {
        Some(v) => v,
        None => { return None; },
    };
    let debt_val = match checked_mul_div(debt_real, price.atomics, DECIMAL_SCALE) {
        Some(v) => v,
        None => { return None; },
    };
    let debt_value = match checked_add_u128(t.debt_value, debt_val) {
        Some(v) => v,
        None => { return None; },
    };
    Some(HealthTotals { collateral_value, debt_value, max_borrow_value, liquidation_threshold_value })
}

/// Values a whole position across every market at the supplied prices,
/// exactly as `spec_health` states; fails only on overflow. The scan
/// walks every dense index rather than the user's membership sets; it is
/// bounded by the fixed market capacity, and markets where the user holds
/// nothing contribute zero, so the totals are those of the membership
/// walk.
pub fn health_of_account(markets: &Vec<Market>, a: &UserAccount, prices: &Vec<Decimal>) -> (r:
    Result<HealthTotals, ContractError>)
    requires
        prices@.len() == markets@.len(),
        markets@.len() <= 128,
    ensures
        r is Ok <==> spec_health(markets@, *a, prices@) is Some,
        r matches Ok(h) ==> spec_health(markets@, *a, prices@) == Some(h),
        r matches Err(e) ==> e == ContractError::ArithmeticOverflow,
{
    let n = markets.len();
    let mut totals = HealthTotals {
        collateral_value: 0,
        debt_value: 0,
        max_borrow_value: 0,
        liquidation_threshold_value: 0,
    };
    let mut j: usize = 0;
    while j < n
        invariant
            n == markets@.len() <= 128,
            prices@.len() == markets@.len(),
            j <= n,
            spec_health_up_to(markets@, *a, prices@, j as int) == Some(totals),
        decreases n - j,
    {
        totals = match health_step(&markets[j], a, prices[j], j, totals) {
            Some(t) => t,
            None => {
                proof {
                    lemma_health_none_propagates(markets@, *a, prices@, j + 1, n as int);
                }
                return Err(ContractError::ArithmeticOverflow);
            },
        };
        j += 1;
    }
    Ok(totals)
}

/// A copy of the market list, used to value positions against a market
/// whose accrual has not been committed yet.
pub fn copy_markets(markets: &Vec<Market>) -> (r: Vec<Market>)
    ensures
        r@ == markets@,
{
    let n = markets.len();
    let mut out: Vec<Market> = Vec::new();
    let mut j: usize = 0;
    while j < n
        invariant
            n == markets@.len(),
            j <= n,
            out@ =~= markets@.subrange(0, j as int),
        decreases n - j,
    {
        out.push(markets[j]);
        proof {
            assert(out@ =~= markets@.subrange(0, j + 1));
        }
        j += 1;
    }
    proof {
        assert(out@ =~= markets@);
    }
    out
}

} // verus!
