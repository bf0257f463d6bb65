//! The lending pool: market registry, scaled-balance ledger, position
//! tracker and the owner-gated configuration commands.
//!
//! The pool's well-formedness invariant ties everything together: dense
//! unique market indices, validated parameters, indices at or above 1.0,
//! bitmap bits set exactly where scaled balances are nonzero, and each
//! market's `debt_total_scaled` equal to the sum of its users' scaled
//! debts. Every command preserves it, and a failing command leaves the
//! pool untouched.

use vstd::prelude::*;

use crate::config::{Config, config_valid, config_validation_error};
use crate::decimal::{Decimal, DECIMAL_SCALE};
use crate::error::ContractError;
use crate::ledger::{
    UserAccount, Debt, debt_scaled_of, collateral_scaled_of, limit_of, account_wf, sum_debt,
    lemma_sum_debt_push, lemma_sum_debt_update, lemma_sum_debt_zero, lemma_sum_debt_bound,
    with_debt_slot, with_collateral_slot, get_scaled_amount, get_descaled_amount,
};
use crate::market::{
    Market, GlobalState, AssetType, InitOrUpdateAssetParams, valid_market_params, spec_accrue,
    spec_missing_param, params_valid, params_validation_error, merged_valid,
    merged_validation_error, merged_max_loan_to_value, merged_reserve_factor,
    merged_maintenance_margin, merged_liquidation_bonus, merged_strategy,
};
use crate::health::{
    HealthTotals, spec_health, spec_healthy, spec_liquidatable, health_of_account, copy_markets,
};
use crate::decimal::{checked_add_u128, checked_mul_div};

verus! {

/// The entire persisted state of the lending pool core.
#[derive(Debug)]
pub struct Pool {
    /// Global configuration, including the owner address.
    pub config: Config,
    /// Pool-wide counters.
    pub global_state: GlobalState,
    /// Markets, in dense-index order: `markets[i].index == i`.
    pub markets: Vec<Market>,
    /// Asset identifier of each market, parallel to `markets`; the
    /// index-to-asset and asset-to-index lookups of the registry.
    pub market_refs: Vec<String>,
    /// Addresses of all known users; positions are parallel.
    pub users: Vec<String>,
    /// Ledger record of each user, parallel to `users`.
    pub accounts: Vec<UserAccount>,
}

/// Per-market slice of the pool invariant: the dense index matches the
/// position, the risk parameters validate, and both compounding indices
/// are at least 1.0.
pub open spec fn market_wf(m: Market, i: int) -> bool {
    &&& m.index == i
    &&& valid_market_params(m)
    &&& m.borrow_index.atomics >= DECIMAL_SCALE
    &&& m.liquidity_index.atomics >= DECIMAL_SCALE
}

/// True when some market is registered under this asset identifier.
pub open spec fn has_market(p: Pool, asset: Seq<char>) -> bool {
    exists|i: int| 0 <= i < p.markets@.len() && p.market_refs@[i]@ == asset
}

/// The dense index of the market registered under this asset identifier;
/// meaningful only when `has_market` holds (it is unique then).
pub open spec fn market_index_of(p: Pool, asset: Seq<char>) -> int {
    choose|i: int| 0 <= i < p.markets@.len() && p.market_refs@[i]@ == asset
}

/// True when a record exists for this user address.
pub open spec fn has_user(p: Pool, addr: Seq<char>) -> bool {
    exists|k: int| 0 <= k < p.users@.len() && p.users@[k]@ == addr
}

/// The record index of this user address; meaningful only when
/// `has_user` holds (it is unique then).
pub open spec fn user_index_of(p: Pool, addr: Seq<char>) -> int {
    choose|k: int| 0 <= k < p.users@.len() && p.users@[k]@ == addr
}

impl Pool {
    /// The pool invariant; every command requires and preserves it.
    pub open spec fn wf(self) -> bool {
        &&& self.global_state.market_count == self.markets@.len()
        &&& self.markets@.len() == self.market_refs@.len()
        &&& self.markets@.len() <= 128
        &&& config_valid(self.config)
        &&& forall|i: int|
            0 <= i < self.markets@.len() ==> market_wf(#[trigger] self.markets@[i], i)
        &&& forall|i: int, j: int|
            0 <= i < j < self.market_refs@.len() ==> self.market_refs@[i]@
                != self.market_refs@[j]@
        &&& self.users@.len() == self.accounts@.len()
        &&& forall|k: int, l: int|
            0 <= k < l < self.users@.len() ==> self.users@[k]@ != self.users@[l]@
        &&& forall|k: int| 0 <= k < self.accounts@.len() ==> account_wf(#[trigger] self.accounts@[k])
        &&& forall|k: int, m: int|
            0 <= k < self.accounts@.len() && self.markets@.len() <= m < 128
                ==> #[trigger] debt_scaled_of(self.accounts@[k], m) == 0
        &&& forall|k: int, m: int|
            0 <= k < self.accounts@.len() && self.markets@.len() <= m < 128
                ==> #[trigger] collateral_scaled_of(self.accounts@[k], m) == 0
        &&& forall|k: int, m: int|
            0 <= k < self.accounts@.len() && self.markets@.len() <= m < 128
                ==> #[trigger] limit_of(self.accounts@[k], m) == 0
        &&& forall|i: int|
            0 <= i < self.markets@.len() ==> (#[trigger] self.markets@[i]).debt_total_scaled
                == sum_debt(self.accounts@, i)
    }

    /// Creates an empty pool under a validated configuration.
    pub fn new(
        owner: String,
        close_factor: Decimal,
        insurance_fund_fee_share: Decimal,
        treasury_fee_share: Decimal,
    ) -> (r: Result<Pool, ContractError>)
        ensures
            r is Ok <==> config_valid(
                Config { owner, close_factor, insurance_fund_fee_share, treasury_fee_share },
            ),
            r matches Ok(p) ==> {
                &&& p.wf()
                &&& p.config.owner@ == owner@
                &&& p.config.close_factor == close_factor
                &&& p.config.insurance_fund_fee_share == insurance_fund_fee_share
                &&& p.config.treasury_fee_share == treasury_fee_share
                &&& p.markets@.len() == 0
                &&& p.users@.len() == 0
                &&& p.global_state.market_count == 0
            },
            r matches Err(e) ==> e == config_validation_error(
                Config { owner, close_factor, insurance_fund_fee_share, treasury_fee_share },
            ),
    {
        let config = Config { owner, close_factor, insurance_fund_fee_share, treasury_fee_share };
        match config.validate() {
            Ok(()) => (),
            Err(e) => { return Err(e); },
        }
        Ok(
            Pool {
                config,
                global_state: GlobalState { market_count: 0 },
                markets: Vec::new(),
                market_refs: Vec::new(),
                users: Vec::new(),
                accounts: Vec::new(),
            },
        )
    }

    /// Looks up the dense index of the market for an asset.
    pub fn find_market_index(&self, asset: &String) -> (r: Option<usize>)
        requires
            self.wf(),
        ensures
            r is Some <==> has_market(*self, asset@),
            r matches Some(i) ==> i < self.markets@.len() && self.market_refs@[i as int]@ == asset@
                && i as int == market_index_of(*self, asset@),
    {
        let n = self.market_refs.len();
        let mut j: usize = 0;
        while j < n
            invariant
                n == self.market_refs@.len(),
                self.wf(),
                j <= n,
                forall|i: int| 0 <= i < j ==> self.market_refs@[i]@ != asset@,
            decreases n - j,
        {
            if self.market_refs[j] == *asset {
                proof {
                    let witness = market_index_of(*self, asset@);
                    assert(0 <= witness < self.markets@.len() && self.market_refs@[witness]@
                        == asset@);
                    if witness != j as int {
                        assert(self.market_refs@[witness]@ != self.market_refs@[j as int]@);
                    }
                }
                return Some(j);
            }
            j += 1;
        }
        None
    }

    /// Looks up the record index of a user address.
    pub fn find_user_index(&self, addr: &String) -> (r: Option<usize>)
        requires
            self.wf(),
        ensures
            r is Some <==> has_user(*self, addr@),
            r matches Some(k) ==> k < self.users@.len() && self.users@[k as int]@ == addr@
                && k as int == user_index_of(*self, addr@),
    {
        let n = self.users.len();
        let mut j: usize = 0;
        while j < n
            invariant
                n == self.users@.len(),
                self.wf(),
                j <= n,
                forall|k: int| 0 <= k < j ==> self.users@[k]@ != addr@,
            decreases n - j,
        {
            if self.users[j] == *addr {
                proof {
                    let witness = user_index_of(*self, addr@);
                    assert(0 <= witness < self.users@.len() && self.users@[witness]@ == addr@);
                    if witness != j as int {
                        assert(self.users@[witness]@ != self.users@[j as int]@);
                    }
                }
                return Some(j);
            }
            j += 1;
        }
        None
    }

    /// Returns the record index for an address, creating an empty record
    /// lazily on first use.
    fn ensure_user(&mut self, addr: &String) -> (k: usize)
        requires
            old(self).wf(),
        ensures
            final(self).wf(),
            final(self).config == old(self).config,
            final(self).global_state == old(self).global_state,
            final(self).markets@ == old(self).markets@,
            final(self).market_refs@ == old(self).market_refs@,
            (k as int) < final(self).users@.len(),
            final(self).users@[k as int]@ == addr@,
            k as int == user_index_of(*final(self), addr@),
            forall|k2: int|
                0 <= k2 < old(self).users@.len() ==> final(self).users@[k2] == old(self).users@[k2] && final(self).accounts@[k2] == old(self).accounts@[k2],
            has_user(*old(self), addr@) ==> *final(self) == *old(self) && k as int == user_index_of(
                *old(self),
                addr@,
            ),
            !has_user(*old(self), addr@) ==> {
                &&& final(self).users@.len() == old(self).users@.len() + 1
                &&& k as int == old(self).users@.len()
                &&& final(self).accounts@[k as int].user.borrowed_assets == 0
                &&& final(self).accounts@[k as int].user.collateral_assets == 0
                &&& forall|m: int| debt_scaled_of(final(self).accounts@[k as int], m) == 0
                &&& forall|m: int| collateral_scaled_of(final(self).accounts@[k as int], m) == 0
                &&& forall|m: int| limit_of(final(self).accounts@[k as int], m) == 0
            },
    {
        match self.find_user_index(addr) {
            Some(k) => k,
            None => {
                let k = self.users.len();
                let fresh = UserAccount::new();
                self.users.push(addr.clone());
                self.accounts.push(fresh);
                proof {
                    assert forall|m: int| 0 <= m < self.markets@.len() implies sum_debt(
                        self.accounts@,
                        m,
                    ) == sum_debt(old(self).accounts@, m) + debt_scaled_of(fresh, m) by {
                        lemma_sum_debt_push(old(self).accounts@, fresh, m);
                        assert(self.accounts@ =~= old(self).accounts@.push(fresh));
                    }
                    assert forall|k2: int|
                        0 <= k2 < old(self).users@.len() implies old(self).users@[k2]@
                        != addr@ by {
                        if old(self).users@[k2]@ == addr@ {
                            assert(has_user(*old(self), addr@));
                        }
                    }
                    assert(self.users@[k as int]@ == addr@);
                    assert(has_user(*self, addr@));
                    let witness = user_index_of(*self, addr@);
                    assert(0 <= witness < self.users@.len() && self.users@[witness]@ == addr@);
                    assert(witness == k as int);
                }
                k
            },
        }
    }

    /// Registers a new market for `asset` (owner only). Every risk
    /// parameter must be present; the market takes the next dense index,
    /// fresh indices at 1.0, and the current block time.
    pub fn init_asset(
        &mut self,
        sender: &String,
        asset: String,
        asset_type: AssetType,
        params: InitOrUpdateAssetParams,
        block_time: u64,
    ) -> (r: Result<u32, ContractError>)
        requires
            old(self).wf(),
        ensures
            final(self).wf(),
            r is Err ==> *final(self) == *old(self),
            sender@ != old(self).config.owner@ <==> r == Err::<u32, _>(ContractError::Unauthorized),
            sender@ == old(self).config.owner@ && has_market(*old(self), asset@) ==> r
                == Err::<u32, _>(ContractError::MarketAlreadyExists),
            sender@ == old(self).config.owner@ && !has_market(*old(self), asset@) && old(self).markets@.len() == 128 ==> r == Err::<u32, _>(ContractError::MarketCapacityReached),
            sender@ == old(self).config.owner@ && !has_market(*old(self), asset@) && old(self).markets@.len() < 128 ==> {
                &&& (r is Ok <==> spec_missing_param(params) is None && params_valid(params))
                &&& (r matches Err(e) ==> (spec_missing_param(params) matches Some(f) && e
                    == (ContractError::MissingParam { field: f })) || (spec_missing_param(params)
                    is None && e == params_validation_error(params)))
            },
            r matches Ok(idx) ==> {
                &&& idx == old(self).global_state.market_count
                &&& final(self).global_state.market_count == old(self).global_state.market_count
                    + 1
                &&& final(self).markets@.len() == old(self).markets@.len() + 1
                &&& forall|i: int|
                    0 <= i < old(self).markets@.len() ==> final(self).markets@[i] == old(self).markets@[i] && final(self).market_refs@[i] == old(self).market_refs@[i]
                &&& final(self).market_refs@[idx as int]@ == asset@
                &&& {
                    let m = final(self).markets@[idx as int];
                    &&& m.index == idx
                    &&& m.asset_type == asset_type
                    &&& m.borrow_index.atomics == DECIMAL_SCALE
                    &&& m.liquidity_index.atomics == DECIMAL_SCALE
                    &&& m.borrow_rate == params.initial_borrow_rate.unwrap()
                    &&& m.liquidity_rate.atomics == 0
                    &&& m.max_loan_to_value == params.max_loan_to_value.unwrap()
                    &&& m.reserve_factor == params.reserve_factor.unwrap()
                    &&& m.maintenance_margin == params.maintenance_margin.unwrap()
                    &&& m.liquidation_bonus == params.liquidation_bonus.unwrap()
                    &&& m.interest_rate_strategy == params.interest_rate_strategy.unwrap()
                    &&& m.interests_last_updated == block_time
                    &&& m.debt_total_scaled == 0
                    &&& m.protocol_income_to_distribute == 0
                }
                &&& final(self).users@ == old(self).users@
                &&& final(self).accounts@ == old(self).accounts@
                &&& final(self).config == old(self).config
            },
    {
        if !(*sender == self.config.owner) {
            return Err(ContractError::Unauthorized);
        }
        if self.find_market_index(&asset).is_some() {
            return Err(ContractError::MarketAlreadyExists);
        }
        let index = self.global_state.market_count;
        if self.markets.len() == 128 {
            return Err(ContractError::MarketCapacityReached);
        }
        let market = match Market::create(block_time, index, asset_type, params) {
            Ok(m) => m,
            Err(e) => { return Err(e); },
        };
        self.markets.push(market);
        self.market_refs.push(asset);
        self.global_state.market_count = index + 1;
        proof {
            assert forall|m: int| 0 <= m < self.markets@.len() implies (
            #[trigger] self.markets@[m]).debt_total_scaled == sum_debt(self.accounts@, m) by {
                if m < self.markets@.len() - 1 {
                    assert(self.markets@[m] == old(self).markets@[m]);
                } else {
                    lemma_sum_debt_zero(self.accounts@, m);
                }
            }
        }
        Ok(index)
    }

    /// Overlays the supplied parameters on an existing market (owner
    /// only) and re-validates the merged result, rejecting the whole
    /// update if any rule is now violated.
    pub fn update_asset(
        &mut self,
        sender: &String,
        asset: &String,
        params: InitOrUpdateAssetParams,
    ) -> (r: Result<(), ContractError>)
        requires
            old(self).wf(),
        ensures
            final(self).wf(),
            r is Err ==> *final(self) == *old(self),
            sender@ != old(self).config.owner@ <==> r == Err::<(), _>(ContractError::Unauthorized),
            sender@ == old(self).config.owner@ && !has_market(*old(self), asset@) ==> r
                == Err::<(), _>(ContractError::MarketNotFound),
            sender@ == old(self).config.owner@ && has_market(*old(self), asset@) ==> {
                let i = market_index_of(*old(self), asset@);
                let m0 = old(self).markets@[i];
                &&& (r is Ok <==> merged_valid(m0, params))
                &&& (r matches Err(e) ==> e == merged_validation_error(m0, params))
                &&& (r is Ok ==> {
                    let m1 = final(self).markets@[i];
                    &&& final(self).markets@ == old(self).markets@.update(i, m1)
                    &&& m1.max_loan_to_value == merged_max_loan_to_value(m0, params)
                    &&& m1.reserve_factor == merged_reserve_factor(m0, params)
                    &&& m1.maintenance_margin == merged_maintenance_margin(m0, params)
                    &&& m1.liquidation_bonus == merged_liquidation_bonus(m0, params)
                    &&& m1.interest_rate_strategy == merged_strategy(m0, params)
                    &&& m1.index == m0.index
                    &&& m1.borrow_index == m0.borrow_index
                    &&& m1.liquidity_index == m0.liquidity_index
                    &&& m1.borrow_rate == m0.borrow_rate
                    &&& m1.liquidity_rate == m0.liquidity_rate
                    &&& m1.interests_last_updated == m0.interests_last_updated
                    &&& m1.debt_total_scaled == m0.debt_total_scaled
                    &&& m1.protocol_income_to_distribute == m0.protocol_income_to_distribute
                    &&& final(self).market_refs@ == old(self).market_refs@
                    &&& final(self).users@ == old(self).users@
                    &&& final(self).accounts@ == old(self).accounts@
                    &&& final(self).config == old(self).config
                    &&& final(self).global_state == old(self).global_state
                })
            },
    {
        if !(*sender == self.config.owner) {
            return Err(ContractError::Unauthorized);
        }
        let i = match self.find_market_index(asset) {
            Some(i) => i,
            None => { return Err(ContractError::MarketNotFound); },
        };
        let market = self.markets[i];
        let updated = match market.update_with(params) {
            Ok(m) => m,
            Err(e) => { return Err(e); },
        };
        self.markets.set(i, updated);
        Ok(())
    }

    /// Replaces any supplied configuration field (owner only) and
    /// re-validates the merged configuration.
    pub fn update_config(
        &mut self,
        sender: &String,
        owner: Option<String>,
        close_factor: Option<Decimal>,
        insurance_fund_fee_share: Option<Decimal>,
        treasury_fee_share: Option<Decimal>,
    ) -> (r: Result<(), ContractError>)
        requires
            old(self).wf(),
        ensures
            final(self).wf(),
            r is Err ==> *final(self) == *old(self),
            sender@ != old(self).config.owner@ <==> r == Err::<(), _>(ContractError::Unauthorized),
            sender@ == old(self).config.owner@ ==> {
                let merged = Config {
                    owner: if owner is Some {
                        owner.unwrap()
                    } else {
                        old(self).config.owner
                    },
                    close_factor: if close_factor is Some {
                        close_factor.unwrap()
                    } else {
                        old(self).config.close_factor
                    },
                    insurance_fund_fee_share: if insurance_fund_fee_share is Some {
                        insurance_fund_fee_share.unwrap()
                    } else {
                        old(self).config.insurance_fund_fee_share
                    },
                    treasury_fee_share: if treasury_fee_share is Some {
                        treasury_fee_share.unwrap()
                    } else {
                        old(self).config.treasury_fee_share
                    },
                };
                &&& (r is Ok <==> config_valid(merged))
                &&& (r matches Err(e) ==> e == config_validation_error(merged))
                &&& (r is Ok ==> final(self).config == merged
                    && final(self).markets@ == old(self).markets@
                    && final(self).market_refs@ == old(self).market_refs@
                    && final(self).users@ == old(self).users@
                    && final(self).accounts@ == old(self).accounts@
                    && final(self).global_state == old(self).global_state)
            },
    {
        if !(*sender == self.config.owner) {
            return Err(ContractError::Unauthorized);
        }
        let new_owner = match owner {
            Some(o) => o,
            None => self.config.owner.clone(),
        };
        let merged = Config {
            owner: new_owner,
            close_factor: match close_factor {
                Some(v) => v,
                None => self.config.close_factor,
            },
            insurance_fund_fee_share: match insurance_fund_fee_share {
                Some(v) => v,
                None => self.config.insurance_fund_fee_share,
            },
            treasury_fee_share: match treasury_fee_share {
                Some(v) => v,
                None => self.config.treasury_fee_share,
            },
        };
        match merged.validate() {
            Ok(()) => (),
            Err(e) => { return Err(e); },
        }
        self.config = merged;
        Ok(())
    }

    /// Sets the uncollateralized borrow ceiling for one (market, user)
    /// pair (owner only); zero removes the credit line.
    pub fn update_uncollateralized_loan_limit(
        &mut self,
        sender: &String,
        user_address: &String,
        asset: &String,
        limit: u128,
    ) -> (r: Result<(), ContractError>)
        requires
            old(self).wf(),
        ensures
            final(self).wf(),
            r is Err ==> *final(self) == *old(self),
            sender@ != old(self).config.owner@ <==> r == Err::<(), _>(ContractError::Unauthorized),
            sender@ == old(self).config.owner@ && !has_market(*old(self), asset@) ==> r
                == Err::<(), _>(ContractError::MarketNotFound),
            sender@ == old(self).config.owner@ && has_market(*old(self), asset@) ==> {
                let i = market_index_of(*old(self), asset@);
                let k = user_index_of(*final(self), user_address@);
                &&& r is Ok
                &&& has_user(*final(self), user_address@)
                &&& limit_of(final(self).accounts@[k], i) == limit
                &&& forall|m: int|
                    m != i ==> limit_of(#[trigger] final(self).accounts@[k], m) == (
                    if has_user(*old(self), user_address@) {
                        limit_of(old(self).accounts@[k], m)
                    } else {
                        0
                    })
                &&& forall|m: int|
                    debt_scaled_of(#[trigger] final(self).accounts@[k], m) == (
                    if has_user(*old(self), user_address@) {
                        debt_scaled_of(old(self).accounts@[k], m)
                    } else {
                        0
                    })
                &&& forall|m: int|
                    collateral_scaled_of(#[trigger] final(self).accounts@[k], m) == (
                    if has_user(*old(self), user_address@) {
                        collateral_scaled_of(old(self).accounts@[k], m)
                    } else {
                        0
                    })
                &&& has_user(*old(self), user_address@) ==> final(self).accounts@[k].user == old(self).accounts@[k].user && k == user_index_of(*old(self), user_address@)
                &&& !has_user(*old(self), user_address@) ==> final(self).accounts@[k].user.borrowed_assets == 0 && final(self).accounts@[k].user.collateral_assets == 0
                &&& forall|k2: int|
                    0 <= k2 < old(self).users@.len() && k2 != k ==> final(self).accounts@[k2]
                        == old(self).accounts@[k2]
                &&& forall|k2: int|
                    0 <= k2 < old(self).users@.len() ==> final(self).users@[k2] == old(self).users@[k2]
                &&& final(self).users@.len() == old(self).users@.len() + (
                if has_user(*old(self), user_address@) {
                    0int
                } else {
                    1int
                })
                &&& final(self).markets@ == old(self).markets@
                &&& final(self).market_refs@ == old(self).market_refs@
                &&& final(self).config == old(self).config
                &&& final(self).global_state == old(self).global_state
            },
    {
        if !(*sender == self.config.owner) {
            return Err(ContractError::Unauthorized);
        }
        let i = match self.find_market_index(asset) {
            Some(i) => i,
            None => { return Err(ContractError::MarketNotFound); },
        };
        let k = self.ensure_user(user_address);
        let ghost mid = *self;
        let mut account = self.accounts[k];
        account.uncollateralized_limits[i] = limit;
        self.accounts.set(k, account);
        proof {
            let ki = k as int;
            let ii = i as int;
            assert(forall|m: int| debt_scaled_of(account, m) == debt_scaled_of(
                mid.accounts@[ki],
                m,
            ));
            assert(forall|m: int| collateral_scaled_of(account, m) == collateral_scaled_of(
                mid.accounts@[ki],
                m,
            ));
            assert(forall|m: int| m != ii ==> limit_of(account, m) == limit_of(
                mid.accounts@[ki],
                m,
            ));
            assert(account_wf(account));
            assert forall|k2: int| 0 <= k2 < self.accounts@.len() implies account_wf(
                #[trigger] self.accounts@[k2],
            ) by {
                if k2 != ki {
                    assert(self.accounts@[k2] == mid.accounts@[k2]);
                }
            }
            assert forall|k2: int, m: int|
                0 <= k2 < self.accounts@.len() && self.markets@.len() <= m < 128 implies
                #[trigger] debt_scaled_of(self.accounts@[k2], m) == 0 by {
                if k2 != ki {
                    assert(self.accounts@[k2] == mid.accounts@[k2]);
                }
                assert(debt_scaled_of(mid.accounts@[k2], m) == 0);
            }
            assert forall|k2: int, m: int|
                0 <= k2 < self.accounts@.len() && self.markets@.len() <= m < 128 implies
                #[trigger] collateral_scaled_of(self.accounts@[k2], m) == 0 by {
                if k2 != ki {
                    assert(self.accounts@[k2] == mid.accounts@[k2]);
                }
                assert(collateral_scaled_of(mid.accounts@[k2], m) == 0);
            }
            assert forall|k2: int, m: int|
                0 <= k2 < self.accounts@.len() && self.markets@.len() <= m < 128 implies
                #[trigger] limit_of(self.accounts@[k2], m) == 0 by {
                if k2 != ki {
                    assert(self.accounts@[k2] == mid.accounts@[k2]);
                }
                assert(limit_of(mid.accounts@[k2], m) == 0);
            }
            assert forall|m: int| 0 <= m < self.markets@.len() implies sum_debt(
                self.accounts@,
                m,
            ) == sum_debt(mid.accounts@, m) by {
                lemma_sum_debt_update(mid.accounts@, ki, account, m);
            }
            assert(self.users@[ki]@ == user_address@);
            assert(has_user(*self, user_address@));
            let w = user_index_of(*self, user_address@);
            assert(0 <= w < self.users@.len() && self.users@[w]@ == user_address@);
            if w != ki {
                assert(self.users@[w]@ != self.users@[ki]@);
            }
            assert(w == ki);
            assert(limit_of(self.accounts@[w], ii) == limit);
        }
        Ok(())
    }

    /// A copy of the market registered for an asset.
    pub fn market(&self, asset: &String) -> (r: Result<Market, ContractError>)
        requires
            self.wf(),
        ensures
            r is Ok <==> has_market(*self, asset@),
            r matches Ok(m) ==> m == self.markets@[market_index_of(*self, asset@)],
            r matches Err(e) ==> e == ContractError::MarketNotFound,
    {
        match self.find_market_index(asset) {
            Some(i) => Ok(self.markets[i]),
            None => Err(ContractError::MarketNotFound),
        }
    }

    /// A copy of a user's ledger record.
    pub fn account(&self, addr: &String) -> (r: Result<UserAccount, ContractError>)
        requires
            self.wf(),
        ensures
            r is Ok <==> has_user(*self, addr@),
            r matches Ok(a) ==> a == self.accounts@[user_index_of(*self, addr@)],
            r matches Err(e) ==> e == ContractError::UserRecordNotFound,
    {
        match self.find_user_index(addr) {
            Some(k) => Ok(self.accounts[k]),
            None => Err(ContractError::UserRecordNotFound),
        }
    }
}

/// Scaled collateral a user holds in market `m`; zero for unknown users.
pub open spec fn user_collateral_scaled(p: Pool, addr: Seq<char>, m: int) -> int {
    if has_user(p, addr) {
        collateral_scaled_of(p.accounts@[user_index_of(p, addr)], m)
    } else {
        0
    }
}

/// Scaled debt a user owes in market `m`; zero for unknown users.
pub open spec fn user_debt_scaled(p: Pool, addr: Seq<char>, m: int) -> int {
    if has_user(p, addr) {
        debt_scaled_of(p.accounts@[user_index_of(p, addr)], m)
    } else {
        0
    }
}

/// Credit-line ceiling of a user in market `m`; zero for unknown users.
pub open spec fn user_limit(p: Pool, addr: Seq<char>, m: int) -> int {
    if has_user(p, addr) {
        limit_of(p.accounts@[user_index_of(p, addr)], m)
    } else {
        0
    }
}

impl Pool {
    /// Commits one market and one account in a single state transition,
    /// re-establishing the pool invariant: the market aggregate must move
    /// exactly as the account's scaled debt in that market does.
    fn commit_position_update(&mut self, i: usize, market: Market, k: usize, account: UserAccount)
        requires
            old(self).wf(),
            i < old(self).markets@.len(),
            k < old(self).accounts@.len(),
            market.index == i,
            valid_market_params(market),
            market.borrow_index.atomics >= DECIMAL_SCALE,
            market.liquidity_index.atomics >= DECIMAL_SCALE,
            account_wf(account),
            market.debt_total_scaled == old(self).markets@[i as int].debt_total_scaled
                - debt_scaled_of(old(self).accounts@[k as int], i as int) + debt_scaled_of(
                account,
                i as int,
            ),
            forall|m: int|
                m != i ==> debt_scaled_of(account, m) == debt_scaled_of(
                    old(self).accounts@[k as int],
                    m,
                ),
            forall|m: int|
                m != i ==> collateral_scaled_of(account, m) == collateral_scaled_of(
                    old(self).accounts@[k as int],
                    m,
                ),
            forall|m: int|
                limit_of(account, m) == limit_of(old(self).accounts@[k as int], m),
        ensures
            final(self).wf(),
            final(self).markets@ == old(self).markets@.update(i as int, market),
            final(self).accounts@ == old(self).accounts@.update(k as int, account),
            final(self).users@ == old(self).users@,
            final(self).market_refs@ == old(self).market_refs@,
            final(self).config == old(self).config,
            final(self).global_state == old(self).global_state,
    {
        let ghost pre = *self;
        self.markets.set(i, market);
        self.accounts.set(k, account);
        proof {
            let ki = k as int;
            let ii = i as int;
            assert forall|k2: int| 0 <= k2 < self.accounts@.len() implies account_wf(
                #[trigger] self.accounts@[k2],
            ) by {
                if k2 != ki {
                    assert(self.accounts@[k2] == pre.accounts@[k2]);
                }
            }
            assert forall|k2: int, m: int|
                0 <= k2 < self.accounts@.len() && self.markets@.len() <= m < 128 implies
                #[trigger] debt_scaled_of(self.accounts@[k2], m) == 0 by {
                if k2 != ki {
                    assert(self.accounts@[k2] == pre.accounts@[k2]);
                }
                assert(debt_scaled_of(pre.accounts@[k2], m) == 0);
            }
            assert forall|k2: int, m: int|
                0 <= k2 < self.accounts@.len() && self.markets@.len() <= m < 128 implies
                #[trigger] collateral_scaled_of(self.accounts@[k2], m) == 0 by {
                if k2 != ki {
                    assert(self.accounts@[k2] == pre.accounts@[k2]);
                }
                assert(collateral_scaled_of(pre.accounts@[k2], m) == 0);
            }
            assert forall|k2: int, m: int|
                0 <= k2 < self.accounts@.len() && self.markets@.len() <= m < 128 implies
                #[trigger] limit_of(self.accounts@[k2], m) == 0 by {
                if k2 != ki {
                    assert(self.accounts@[k2] == pre.accounts@[k2]);
                }
                assert(limit_of(pre.accounts@[k2], m) == 0);
            }
            assert forall|m: int| 0 <= m < self.markets@.len() implies (
            #[trigger] self.markets@[m]).debt_total_scaled == sum_debt(self.accounts@, m) by {
                lemma_sum_debt_update(pre.accounts@, ki, account, m);
                if m != ii {
                    assert(self.markets@[m] == pre.markets@[m]);
                }
            }
            assert forall|m: int| 0 <= m < self.markets@.len() implies market_wf(
                #[trigger] self.markets@[m],
                m,
            ) by {
                if m != ii {
                    assert(self.markets@[m] == pre.markets@[m]);
                }
            }
        }
    }
}

impl Pool {
    /// Values a user's whole position at the supplied oracle prices (one
    /// price per market, by dense index).
    pub fn compute_health(&self, user: &String, prices: &Vec<Decimal>) -> (r: Result<
        HealthTotals,
        ContractError,
    >)
        requires
            self.wf(),
            prices@.len() == self.markets@.len(),
        ensures
            r == Err::<HealthTotals, _>(ContractError::UserRecordNotFound) <==> !has_user(
                *self,
                user@,
            ),
            has_user(*self, user@) ==> {
                let a = self.accounts@[user_index_of(*self, user@)];
                &&& (r is Ok <==> spec_health(self.markets@, a, prices@) is Some)
                &&& (r matches Ok(h) ==> spec_health(self.markets@, a, prices@) == Some(h))
                &&& (r is Err ==> r == Err::<HealthTotals, _>(ContractError::ArithmeticOverflow))
            },
    {
        let k = match self.find_user_index(user) {
            Some(k) => k,
            None => { return Err(ContractError::UserRecordNotFound); },
        };
        let account = self.accounts[k];
        health_of_account(&self.markets, &account, prices)
    }

    /// Deposits `amount` into the market for `asset`: accrues the market,
    /// converts the amount to scaled units at the post-accrual liquidity
    /// index, credits the depositor's collateral and maintains the
    /// membership bit. The host supplies the block time and the market's
    /// available liquidity.
    pub fn deposit(
        &mut self,
        depositor: &String,
        asset: &String,
        amount: u128,
        block_time: u64,
        available_liquidity: u128,
    ) -> (r: Result<(), ContractError>)
        requires
            old(self).wf(),
            forall|i: int|
                0 <= i < old(self).markets@.len() ==> (#[trigger] old(self).markets@[i]).interests_last_updated <= block_time,
        ensures
            final(self).wf(),
            r is Err ==> *final(self) == *old(self),
            r == Err::<(), _>(ContractError::MarketNotFound) <==> !has_market(*old(self), asset@),
            final(self).config == old(self).config,
            final(self).global_state == old(self).global_state,
            final(self).market_refs@ == old(self).market_refs@,
            has_market(*old(self), asset@) ==> {
                let i = market_index_of(*old(self), asset@);
                let accrued = spec_accrue(old(self).markets@[i], block_time, available_liquidity);
                let old_coll = user_collateral_scaled(*old(self), depositor@, i);
                &&& (accrued is None ==> r == Err::<(), _>(ContractError::ArithmeticOverflow))
                &&& (accrued matches Some(am) ==> {
                    let sc = amount as int * DECIMAL_SCALE as int
                        / am.liquidity_index.atomics as int;
                    &&& (amount as int * DECIMAL_SCALE as int > u128::MAX ==> r == Err::<(), _>(
                        ContractError::ArithmeticOverflow,
                    ))
                    &&& (amount as int * DECIMAL_SCALE as int <= u128::MAX && old_coll + sc
                        > u128::MAX ==> r == Err::<(), _>(ContractError::ArithmeticOverflow))
                    &&& (amount as int * DECIMAL_SCALE as int <= u128::MAX && old_coll + sc
                        <= u128::MAX ==> {
                        &&& r is Ok
                        &&& final(self).markets@ == old(self).markets@.update(i, am)
                        &&& has_user(*final(self), depositor@)
                        &&& user_collateral_scaled(*final(self), depositor@, i) == old_coll + sc
                        &&& forall|m: int|
                            m != i ==> #[trigger] user_collateral_scaled(*final(self), depositor@, m)
                                == user_collateral_scaled(*old(self), depositor@, m)
                        &&& forall|m: int|
                            #[trigger] user_debt_scaled(*final(self), depositor@, m)
                                == user_debt_scaled(*old(self), depositor@, m)
                        &&& forall|m: int|
                            #[trigger] user_limit(*final(self), depositor@, m) == user_limit(
                                *old(self),
                                depositor@,
                                m,
                            )
                        &&& forall|k2: int|
                            0 <= k2 < old(self).users@.len() && k2 != user_index_of(
                                *final(self),
                                depositor@,
                            ) ==> final(self).accounts@[k2] == old(self).accounts@[k2]
                        &&& forall|k2: int|
                            0 <= k2 < old(self).users@.len() ==> final(self).users@[k2] == old(self).users@[k2]
                    })
                })
            },
    {
        let i = match self.find_market_index(asset) {
            Some(i) => i,
            None => { return Err(ContractError::MarketNotFound); },
        };
        let mut market = self.markets[i];
        match market.apply_accrued_interests(block_time, available_liquidity) {
            Ok(()) => (),
            Err(e) => { return Err(e); },
        }
        let scaled = match get_scaled_amount(amount, market.liquidity_index) {
            Some(v) => v,
            None => { return Err(ContractError::ArithmeticOverflow); },
        };
        let old_coll: u128 = match self.find_user_index(depositor) {
            Some(k0) => self.accounts[k0].collateral[i],
            None => 0,
        };
        let new_coll = match checked_add_u128(old_coll, scaled) {
            Some(v) => v,
            None => { return Err(ContractError::ArithmeticOverflow); },
        };
        let k = self.ensure_user(depositor);
        let ghost mid = *self;
        let mut account = self.accounts[k];
        account.collateral[i] = new_coll;
        account.user.set_collateralizing(i as u32, new_coll != 0);
        proof {
            let ki = k as int;
            let ii = i as int;
            assert(collateral_scaled_of(mid.accounts@[ki], ii) == old_coll);
            assert(forall|m: int|
                m != ii ==> collateral_scaled_of(account, m) == collateral_scaled_of(
                    mid.accounts@[ki],
                    m,
                ));
            assert(forall|m: int| debt_scaled_of(account, m) == debt_scaled_of(
                mid.accounts@[ki],
                m,
            ));
            assert(forall|m: int| limit_of(account, m) == limit_of(mid.accounts@[ki], m));
            assert(account_wf(account));
        }
        self.commit_position_update(i, market, k, account);
        proof {
            let ki = k as int;
            let ii = i as int;
            assert(self.users@[ki]@ == depositor@);
            assert(has_user(*self, depositor@));
            let w = user_index_of(*self, depositor@);
            assert(0 <= w < self.users@.len() && self.users@[w]@ == depositor@);
            if w != ki {
                assert(self.users@[w]@ != self.users@[ki]@);
            }
            assert(user_collateral_scaled(*self, depositor@, ii) == new_coll);
        }
        Ok(())
    }
}

impl Pool {
    /// Repays `amount` of the user's debt in the market for `asset`:
    /// accrues the market, converts at the post-accrual borrow index, and
    /// decreases both the user's scaled debt and the market aggregate.
    /// Repaying more than is owed is refused.
    pub fn repay(
        &mut self,
        borrower: &String,
        asset: &String,
        amount: u128,
        block_time: u64,
        available_liquidity: u128,
    ) -> (r: Result<(), ContractError>)
        requires
            old(self).wf(),
            forall|i: int|
                0 <= i < old(self).markets@.len() ==> (#[trigger] old(self).markets@[i]).interests_last_updated <= block_time,
        ensures
            final(self).wf(),
            r is Err ==> *final(self) == *old(self),
            r == Err::<(), _>(ContractError::MarketNotFound) <==> !has_market(*old(self), asset@),
            has_market(*old(self), asset@) ==> (r == Err::<(), _>(
                ContractError::UserRecordNotFound,
            ) <==> !has_user(*old(self), borrower@)),
            has_market(*old(self), asset@) && has_user(*old(self), borrower@) ==> {
                let i = market_index_of(*old(self), asset@);
                let k = user_index_of(*old(self), borrower@);
                let a0 = old(self).accounts@[k];
                let accrued = spec_accrue(old(self).markets@[i], block_time, available_liquidity);
                let old_debt = debt_scaled_of(a0, i);
                &&& (accrued is None ==> r == Err::<(), _>(ContractError::ArithmeticOverflow))
                &&& (accrued matches Some(am) ==> {
                    let sc = amount as int * DECIMAL_SCALE as int / am.borrow_index.atomics as int;
                    &&& (amount as int * DECIMAL_SCALE as int > u128::MAX ==> r == Err::<(), _>(
                        ContractError::ArithmeticOverflow,
                    ))
                    &&& (amount as int * DECIMAL_SCALE as int <= u128::MAX && sc > old_debt ==> r
                        == Err::<(), _>(ContractError::InsufficientBalance))
                    &&& (amount as int * DECIMAL_SCALE as int <= u128::MAX && sc <= old_debt ==> {
                        &&& r is Ok
                        &&& final(self).markets@ == old(self).markets@.update(
                            i,
                            Market {
                                debt_total_scaled: (am.debt_total_scaled - sc) as u128,
                                ..am
                            },
                        )
                        &&& final(self).accounts@ == old(self).accounts@.update(
                            k,
                            with_debt_slot(
                                a0,
                                i,
                                (old_debt - sc) as u128,
                                a0.debts@[i].uncollateralized,
                            ),
                        )
                        &&& final(self).users@ == old(self).users@
                    })
                })
            },
            final(self).config == old(self).config,
            final(self).global_state == old(self).global_state,
            final(self).market_refs@ == old(self).market_refs@,
    {
        let i = match self.find_market_index(asset) {
            Some(i) => i,
            None => { return Err(ContractError::MarketNotFound); },
        };
        let k = match self.find_user_index(borrower) {
            Some(k) => k,
            None => { return Err(ContractError::UserRecordNotFound); },
        };
        let mut market = self.markets[i];
        match market.apply_accrued_interests(block_time, available_liquidity) {
            Ok(()) => (),
            Err(e) => { return Err(e); },
        }
        let scaled = match get_scaled_amount(amount, market.borrow_index) {
            Some(v) => v,
            None => { return Err(ContractError::ArithmeticOverflow); },
        };
        let mut account = self.accounts[k];
        let old_debt = account.debts[i].amount_scaled;
        if scaled > old_debt {
            return Err(ContractError::InsufficientBalance);
        }
        let new_debt = old_debt - scaled;
        let keep_flag = account.debts[i].uncollateralized;
        account.debts[i] = Debt { amount_scaled: new_debt, uncollateralized: keep_flag };
        account.user.set_borrowing(i as u32, new_debt != 0);
        proof {
            lemma_sum_debt_bound(old(self).accounts@, k as int, i as int);
        }
        market.debt_total_scaled = market.debt_total_scaled - scaled;
        proof {
            let ii = i as int;
            let a0 = old(self).accounts@[k as int];
            let target = with_debt_slot(a0, ii, new_debt, keep_flag);
            assert(account.debts =~= target.debts);
            assert(account.user == target.user);
            assert(account == target);
            assert(account_wf(account));
        }
        self.commit_position_update(i, market, k, account);
        Ok(())
    }

    /// Withdraws `amount` of collateral from the market for `asset`:
    /// accrues the market, converts at the post-accrual liquidity index,
    /// debits the user's collateral, and refuses the withdrawal when the
    /// remaining position would not be healthy at the supplied prices.
    pub fn withdraw(
        &mut self,
        user: &String,
        asset: &String,
        amount: u128,
        block_time: u64,
        available_liquidity: u128,
        prices: &Vec<Decimal>,
    ) -> (r: Result<(), ContractError>)
        requires
            old(self).wf(),
            prices@.len() == old(self).markets@.len(),
            forall|i: int|
                0 <= i < old(self).markets@.len() ==> (#[trigger] old(self).markets@[i]).interests_last_updated <= block_time,
        ensures
            final(self).wf(),
            r is Err ==> *final(self) == *old(self),
            r == Err::<(), _>(ContractError::MarketNotFound) <==> !has_market(*old(self), asset@),
            has_market(*old(self), asset@) ==> (r == Err::<(), _>(
                ContractError::UserRecordNotFound,
            ) <==> !has_user(*old(self), user@)),
            has_market(*old(self), asset@) && has_user(*old(self), user@) ==> {
                let i = market_index_of(*old(self), asset@);
                let k = user_index_of(*old(self), user@);
                let a0 = old(self).accounts@[k];
                let accrued = spec_accrue(old(self).markets@[i], block_time, available_liquidity);
                let old_coll = collateral_scaled_of(a0, i);
                &&& (accrued is None ==> r == Err::<(), _>(ContractError::ArithmeticOverflow))
                &&& (accrued matches Some(am) ==> {
                    let sc = amount as int * DECIMAL_SCALE as int
                        / am.liquidity_index.atomics as int;
                    &&& (amount as int * DECIMAL_SCALE as int > u128::MAX ==> r == Err::<(), _>(
                        ContractError::ArithmeticOverflow,
                    ))
                    &&& (amount as int * DECIMAL_SCALE as int <= u128::MAX && sc > old_coll ==> r
                        == Err::<(), _>(ContractError::InsufficientBalance))
                    &&& (amount as int * DECIMAL_SCALE as int <= u128::MAX && sc <= old_coll ==> {
                        let a1 = with_collateral_slot(a0, i, (old_coll - sc) as u128);
                        let h = spec_health(old(self).markets@.update(i, am), a1, prices@);
                        &&& (h is None ==> r == Err::<(), _>(ContractError::ArithmeticOverflow))
                        &&& (h matches Some(t) ==> {
                            &&& (t.debt_value > t.max_borrow_value <==> r == Err::<(), _>(
                                ContractError::Insolvent,
                            ))
                            &&& (t.debt_value <= t.max_borrow_value ==> {
                                &&& r is Ok
                                &&& spec_healthy(old(self).markets@.update(i, am), a1, prices@)
                                &&& final(self).markets@ == old(self).markets@.update(i, am)
                                &&& final(self).accounts@ == old(self).accounts@.update(k, a1)
                                &&& final(self).users@ == old(self).users@
                            })
                        })
                    })
                })
            },
            final(self).config == old(self).config,
            final(self).global_state == old(self).global_state,
            final(self).market_refs@ == old(self).market_refs@,
    {
        let i = match self.find_market_index(asset) {
            Some(i) => i,
            None => { return Err(ContractError::MarketNotFound); },
        };
        let k = match self.find_user_index(user) {
            Some(k) => k,
            None => { return Err(ContractError::UserRecordNotFound); },
        };
        let mut market = self.markets[i];
        match market.apply_accrued_interests(block_time, available_liquidity) {
            Ok(()) => (),
            Err(e) => { return Err(e); },
        }
        let scaled = match get_scaled_amount(amount, market.liquidity_index) {
            Some(v) => v,
            None => { return Err(ContractError::ArithmeticOverflow); },
        };
        let mut account = self.accounts[k];
        let old_coll = account.collateral[i];
        if scaled > old_coll {
            return Err(ContractError::InsufficientBalance);
        }
        let new_coll = old_coll - scaled;
        account.collateral[i] = new_coll;
        account.user.set_collateralizing(i as u32, new_coll != 0);
        proof {
            let ii = i as int;
            let a0 = old(self).accounts@[k as int];
            let target = with_collateral_slot(a0, ii, new_coll);
            assert(account.collateral =~= target.collateral);
            assert(account.user == target.user);
            assert(account == target);
            assert(account_wf(account));
        }
        let mut markets_after = copy_markets(&self.markets);
        markets_after.set(i, market);
        proof {
            assert(markets_after@ =~= old(self).markets@.update(i as int, market));
        }
        let totals = match health_of_account(&markets_after, &account, prices) {
            Ok(t) => t,
            Err(e) => { return Err(e); },
        };
        if totals.debt_value > totals.max_borrow_value {
            return Err(ContractError::Insolvent);
        }
        self.commit_position_update(i, market, k, account);
        Ok(())
    }
}

impl Pool {
    /// Borrows `amount` from the market for `asset`: accrues the market,
    /// then either checks the borrower's credit line (when one is set for
    /// this market) or checks that the position stays within its
    /// loan-to-value ceiling at the supplied prices, and finally increases
    /// the scaled debt, the market aggregate and the membership bit.
    pub fn borrow(
        &mut self,
        borrower: &String,
        asset: &String,
        amount: u128,
        block_time: u64,
        available_liquidity: u128,
        prices: &Vec<Decimal>,
    ) -> (r: Result<(), ContractError>)
        requires
            old(self).wf(),
            prices@.len() == old(self).markets@.len(),
            forall|i: int|
                0 <= i < old(self).markets@.len() ==> (#[trigger] old(self).markets@[i]).interests_last_updated <= block_time,
        ensures
            final(self).wf(),
            r is Err ==> *final(self) == *old(self),
            r == Err::<(), _>(ContractError::MarketNotFound) <==> !has_market(*old(self), asset@),
            has_market(*old(self), asset@) && has_user(*old(self), borrower@) ==> {
                let i = market_index_of(*old(self), asset@);
                let k = user_index_of(*old(self), borrower@);
                let a0 = old(self).accounts@[k];
                let accrued = spec_accrue(old(self).markets@[i], block_time, available_liquidity);
                let credit_line = limit_of(a0, i);
                let old_debt = debt_scaled_of(a0, i);
                &&& (accrued is None ==> r == Err::<(), _>(ContractError::ArithmeticOverflow))
                &&& (accrued matches Some(am) ==> {
                    let h = spec_health(old(self).markets@.update(i, am), a0, prices@);
                    let value = amount as int * prices@[i].atomics as int / DECIMAL_SCALE as int;
                    let debt_real = old_debt * am.borrow_index.atomics as int
                        / DECIMAL_SCALE as int;
                    let sc = amount as int * DECIMAL_SCALE as int / am.borrow_index.atomics as int;
                    let solvent = if credit_line == 0 {
                        h matches Some(t) && amount as int * prices@[i].atomics as int
                            <= u128::MAX && t.debt_value + value <= u128::MAX && t.debt_value
                            + value <= t.max_borrow_value
                    } else {
                        old_debt * am.borrow_index.atomics as int <= u128::MAX && debt_real
                            + amount <= u128::MAX && debt_real + amount <= credit_line
                    };
                    let solvency_overflow = if credit_line == 0 {
                        h is None || amount as int * prices@[i].atomics as int > u128::MAX || (
                        h matches Some(t) && t.debt_value + value > u128::MAX)
                    } else {
                        old_debt * am.borrow_index.atomics as int > u128::MAX || (old_debt
                            * am.borrow_index.atomics as int <= u128::MAX && debt_real + amount
                            > u128::MAX)
                    };
                    &&& (solvency_overflow ==> r == Err::<(), _>(
                        ContractError::ArithmeticOverflow,
                    ))
                    &&& (!solvency_overflow && !solvent ==> r == Err::<(), _>(
                        ContractError::Insolvent,
                    ))
                    &&& (solvent ==> {
                        &&& (amount as int * DECIMAL_SCALE as int > u128::MAX ==> r
                            == Err::<(), _>(ContractError::ArithmeticOverflow))
                        &&& (amount as int * DECIMAL_SCALE as int <= u128::MAX && old_debt + sc
                            > u128::MAX ==> r == Err::<(), _>(ContractError::ArithmeticOverflow))
                        &&& (amount as int * DECIMAL_SCALE as int <= u128::MAX && old_debt + sc
                            <= u128::MAX && am.debt_total_scaled + sc > u128::MAX ==> r
                            == Err::<(), _>(ContractError::ArithmeticOverflow))
                        &&& (amount as int * DECIMAL_SCALE as int <= u128::MAX && old_debt + sc
                            <= u128::MAX && am.debt_total_scaled + sc <= u128::MAX ==> {
                            &&& r is Ok
                            &&& final(self).markets@ == old(self).markets@.update(
                                i,
                                Market {
                                    debt_total_scaled: (am.debt_total_scaled + sc) as u128,
                                    ..am
                                },
                            )
                            &&& final(self).accounts@ == old(self).accounts@.update(
                                k,
                                with_debt_slot(
                                    a0,
                                    i,
                                    (old_debt + sc) as u128,
                                    credit_line != 0,
                                ),
                            )
                            &&& final(self).users@ == old(self).users@
                        })
                    })
                })
            },
            has_market(*old(self), asset@) && !has_user(*old(self), borrower@) ==> {
                let i = market_index_of(*old(self), asset@);
                let accrued = spec_accrue(old(self).markets@[i], block_time, available_liquidity);
                &&& (accrued is None ==> r == Err::<(), _>(ContractError::ArithmeticOverflow))
                &&& (accrued matches Some(am) ==> {
                    let value = amount as int * prices@[i].atomics as int / DECIMAL_SCALE as int;
                    let sc = amount as int * DECIMAL_SCALE as int / am.borrow_index.atomics as int;
                    &&& (amount as int * prices@[i].atomics as int > u128::MAX ==> r
                        == Err::<(), _>(ContractError::ArithmeticOverflow))
                    &&& (amount as int * prices@[i].atomics as int <= u128::MAX && value > 0 ==> r
                        == Err::<(), _>(ContractError::Insolvent))
                    &&& (amount as int * prices@[i].atomics as int <= u128::MAX && value == 0
                        ==> {
                        &&& (amount as int * DECIMAL_SCALE as int > u128::MAX ==> r
                            == Err::<(), _>(ContractError::ArithmeticOverflow))
                        &&& (amount as int * DECIMAL_SCALE as int <= u128::MAX
                            && am.debt_total_scaled + sc > u128::MAX ==> r == Err::<(), _>(
                            ContractError::ArithmeticOverflow,
                        ))
                        &&& (amount as int * DECIMAL_SCALE as int <= u128::MAX
                            && am.debt_total_scaled + sc <= u128::MAX ==> {
                            &&& r is Ok
                            &&& has_user(*final(self), borrower@)
                            &&& user_debt_scaled(*final(self), borrower@, i) == sc
                            &&& forall|m: int|
                                m != i ==> #[trigger] user_debt_scaled(*final(self), borrower@, m)
                                    == 0
                            &&& forall|m: int|
                                #[trigger] user_collateral_scaled(*final(self), borrower@, m) == 0
                            &&& forall|m: int| #[trigger] user_limit(*final(self), borrower@, m)
                                == 0
                            &&& final(self).markets@ == old(self).markets@.update(
                                i,
                                Market {
                                    debt_total_scaled: (am.debt_total_scaled + sc) as u128,
                                    ..am
                                },
                            )
                            &&& final(self).users@.len() == old(self).users@.len() + 1
                            &&& forall|k2: int|
                                0 <= k2 < old(self).users@.len() ==> final(self).users@[k2] == old(self).users@[k2] && final(self).accounts@[k2] == old(self).accounts@[k2]
                        })
                    })
                })
            },
            final(self).config == old(self).config,
            final(self).global_state == old(self).global_state,
            final(self).market_refs@ == old(self).market_refs@,
    {
        let i = match self.find_market_index(asset) {
            Some(i) => i,
            None => { return Err(ContractError::MarketNotFound); },
        };
        let mut market = self.markets[i];
        match market.apply_accrued_interests(block_time, available_liquidity) {
            Ok(()) => (),
            Err(e) => { return Err(e); },
        }
        let base: UserAccount = match self.find_user_index(borrower) {
            Some(k0) => self.accounts[k0],
            None => UserAccount::new(),
        };
        proof {
            if !has_user(*old(self), borrower@) {
                assert(debt_scaled_of(base, i as int) == 0);
                assert(limit_of(base, i as int) == 0);
            }
        }
        let credit_line = base.uncollateralized_limits[i];
        if credit_line == 0 {
            let mut markets_after = copy_markets(&self.markets);
            markets_after.set(i, market);
            proof {
                assert(markets_after@ =~= old(self).markets@.update(i as int, market));
                if !has_user(*old(self), borrower@) {
                    crate::health::lemma_health_of_empty_account(
                        markets_after@,
                        base,
                        prices@,
                        markets_after@.len() as int,
                    );
                }
            }
            let totals = match health_of_account(&markets_after, &base, prices) {
                Ok(t) => t,
                Err(e) => { return Err(e); },
            };
            let value = match checked_mul_div(amount, prices[i].atomics, DECIMAL_SCALE) {
                Some(v) => v,
                None => { return Err(ContractError::ArithmeticOverflow); },
            };
            let new_debt_value = match checked_add_u128(totals.debt_value, value) {
                Some(v) => v,
                None => { return Err(ContractError::ArithmeticOverflow); },
            };
            if new_debt_value > totals.max_borrow_value {
                return Err(ContractError::Insolvent);
            }
        } else {
            let debt_real = match get_descaled_amount(
                base.debts[i].amount_scaled,
                market.borrow_index,
            ) {
                Some(v) => v,
                None => { return Err(ContractError::ArithmeticOverflow); },
            };
            let total_owed = match checked_add_u128(debt_real, amount) {
                Some(v) => v,
                None => { return Err(ContractError::ArithmeticOverflow); },
            };
            if total_owed > credit_line {
                return Err(ContractError::Insolvent);
            }
        }
        let scaled = match get_scaled_amount(amount, market.borrow_index) {
            Some(v) => v,
            None => { return Err(ContractError::ArithmeticOverflow); },
        };
        let old_debt = base.debts[i].amount_scaled;
        let new_debt = match checked_add_u128(old_debt, scaled) {
            Some(v) => v,
            None => { return Err(ContractError::ArithmeticOverflow); },
        };
        let new_total = match checked_add_u128(market.debt_total_scaled, scaled) {
            Some(v) => v,
            None => { return Err(ContractError::ArithmeticOverflow); },
        };
        let k = self.ensure_user(borrower);
        let ghost mid = *self;
        let mut account = self.accounts[k];
        account.debts[i] = Debt { amount_scaled: new_debt, uncollateralized: credit_line != 0 };
        account.user.set_borrowing(i as u32, new_debt != 0);
        market.debt_total_scaled = new_total;
        proof {
            let ii = i as int;
            let ki = k as int;
            assert(debt_scaled_of(mid.accounts@[ki], ii) == old_debt);
            if has_user(*old(self), borrower@) {
                let a0 = old(self).accounts@[ki];
                let target = with_debt_slot(a0, ii, new_debt, credit_line != 0);
                assert(account.debts =~= target.debts);
                assert(account.user == target.user);
                assert(account == target);
            }
            assert(account_wf(account));
            assert(forall|m: int|
                m != ii ==> debt_scaled_of(account, m) == debt_scaled_of(mid.accounts@[ki], m));
            assert(forall|m: int|
                m != ii ==> collateral_scaled_of(account, m) == collateral_scaled_of(
                    mid.accounts@[ki],
                    m,
                ));
            assert(forall|m: int| limit_of(account, m) == limit_of(mid.accounts@[ki], m));
        }
        self.commit_position_update(i, market, k, account);
        proof {
            let ki = k as int;
            let ii = i as int;
            assert(self.users@[ki]@ == borrower@);
            assert(has_user(*self, borrower@));
            let w = user_index_of(*self, borrower@);
            assert(0 <= w < self.users@.len() && self.users@[w]@ == borrower@);
            if w != ki {
                assert(self.users@[w]@ != self.users@[ki]@);
            }
            assert(user_debt_scaled(*self, borrower@, ii) == new_debt);
            if !has_user(*old(self), borrower@) {
                assert(self.accounts@[ki] == account);
                assert forall|m: int| #[trigger] user_collateral_scaled(*self, borrower@, m)
                    == 0 by {
                    assert(collateral_scaled_of(account, m) == collateral_scaled_of(
                        mid.accounts@[ki],
                        m,
                    ));
                    assert(collateral_scaled_of(mid.accounts@[ki], m) == 0);
                }
                assert forall|m: int| #[trigger] user_limit(*self, borrower@, m) == 0 by {
                    assert(limit_of(account, m) == limit_of(mid.accounts@[ki], m));
                    assert(limit_of(mid.accounts@[ki], m) == 0);
                }
                assert forall|m: int| m != ii implies #[trigger] user_debt_scaled(
                    *self,
                    borrower@,
                    m,
                ) == 0 by {
                    assert(debt_scaled_of(account, m) == debt_scaled_of(mid.accounts@[ki], m));
                    assert(debt_scaled_of(mid.accounts@[ki], m) == 0);
                }
            }
        }
        Ok(())
    }
}

/// The final step of a liquidation's settlement: the realized repay and
/// the seizure convert back to scaled units at the post-accrual indices
/// (each clamped to the borrower's balance against rounding), and the
/// liquidator's grown collateral must still fit in its slot. Truncation
/// is toward zero throughout.
pub open spec fn spec_liquidation_settlement(
    repay: int,
    seized: int,
    cs: int,
    mc: Market,
    liquidator_collateral: int,
) -> Result<(int, int), ContractError> {
    let scale = DECIMAL_SCALE as int;
    if repay * scale > u128::MAX {
        Err(ContractError::ArithmeticOverflow)
    } else if seized * scale > u128::MAX {
        Err(ContractError::ArithmeticOverflow)
    } else {
        let ss_raw = seized * scale / mc.liquidity_index.atomics as int;
        let ss = if ss_raw <= cs {
            ss_raw
        } else {
            cs
        };
        if liquidator_collateral + ss > u128::MAX {
            Err(ContractError::ArithmeticOverflow)
        } else {
            Ok((repay, seized))
        }
    }
}

/// Outcome of the clamp-and-seize computation of a liquidation, once the
/// position is known liquidatable: the requested repay is clamped to the
/// close-factor share of the borrower's real debt in the debt market; the
/// seizure is the realized repay priced into the collateral asset with
/// the liquidation bonus; and a seizure above the borrower's available
/// collateral is cut to it, with the realized repay recomputed
/// proportionally. Every product truncates toward zero. An intermediate
/// product beyond `u128::MAX`, or a division by a zero oracle price, is
/// an arithmetic failure; a borrower holding no collateral in the named
/// market cannot be liquidated there.
pub open spec fn spec_liquidation_amounts(
    repay_amount: u128,
    ds: int,
    cs: int,
    md: Market,
    mc: Market,
    close_factor: Decimal,
    price_d: Decimal,
    price_c: Decimal,
    liquidator_collateral: int,
) -> Result<(int, int), ContractError> {
    let scale = DECIMAL_SCALE as int;
    if ds * md.borrow_index.atomics as int > u128::MAX {
        Err(ContractError::ArithmeticOverflow)
    } else {
        let debt_real = ds * md.borrow_index.atomics as int / scale;
        if debt_real * close_factor.atomics as int > u128::MAX {
            Err(ContractError::ArithmeticOverflow)
        } else {
            let max_repay = debt_real * close_factor.atomics as int / scale;
            let clamped = if repay_amount <= max_repay {
                repay_amount as int
            } else {
                max_repay
            };
            if cs * mc.liquidity_index.atomics as int > u128::MAX {
                Err(ContractError::ArithmeticOverflow)
            } else {
                let coll_real = cs * mc.liquidity_index.atomics as int / scale;
                if coll_real == 0 {
                    Err(ContractError::ExceedsCollateral)
                } else if price_c.atomics == 0 {
                    Err(ContractError::ArithmeticOverflow)
                } else if clamped * price_d.atomics as int > u128::MAX {
                    Err(ContractError::ArithmeticOverflow)
                } else {
                    let cross = clamped * price_d.atomics as int / price_c.atomics as int;
                    let bonus_factor = scale + mc.liquidation_bonus.atomics as int;
                    if cross * bonus_factor > u128::MAX {
                        Err(ContractError::ArithmeticOverflow)
                    } else {
                        let seized = cross * bonus_factor / scale;
                        if seized <= coll_real {
                            spec_liquidation_settlement(
                                clamped,
                                seized,
                                cs,
                                mc,
                                liquidator_collateral,
                            )
                        } else if price_d.atomics == 0 {
                            Err(ContractError::ArithmeticOverflow)
                        } else if coll_real * price_c.atomics as int > u128::MAX {
                            Err(ContractError::ArithmeticOverflow)
                        } else {
                            let back = coll_real * price_c.atomics as int / price_d.atomics as int;
                            if back * scale > u128::MAX {
                                Err(ContractError::ArithmeticOverflow)
                            } else {
                                let reduced = back * scale / bonus_factor;
                                let repay = if reduced < clamped {
                                    reduced
                                } else {
                                    clamped
                                };
                                spec_liquidation_settlement(
                                    repay,
                                    coll_real,
                                    cs,
                                    mc,
                                    liquidator_collateral,
                                )
                            }
                        }
                    }
                }
            }
        }
    }
}

impl Pool {
    /// Liquidates part of an under-collateralized position: the liquidator
    /// repays up to `close_factor` of the borrower's debt in the debt
    /// market and receives the equivalent collateral in the collateral
    /// market, priced with the liquidation bonus and capped at the
    /// borrower's available collateral (a binding cap reduces the realized
    /// repay). Returns the realized repay and the collateral seized, in
    /// real units.
    #[verifier::rlimit(100)]
    pub fn liquidate(
        &mut self,
        liquidator: &String,
        borrower: &String,
        debt_asset: &String,
        collateral_asset: &String,
        repay_amount: u128,
        block_time: u64,
        debt_market_liquidity: u128,
        collateral_market_liquidity: u128,
        prices: &Vec<Decimal>,
    ) -> (r: Result<(u128, u128), ContractError>)
        requires
            old(self).wf(),
            prices@.len() == old(self).markets@.len(),
            forall|i: int|
                0 <= i < old(self).markets@.len() ==> (#[trigger] old(self).markets@[i]).interests_last_updated <= block_time,
        ensures
            final(self).wf(),
            r is Err ==> *final(self) == *old(self),
            r == Err::<(u128, u128), _>(ContractError::InvalidLiquidation) <==> debt_asset@
                == collateral_asset@ || liquidator@ == borrower@,
            debt_asset@ != collateral_asset@ && liquidator@ != borrower@ ==> (r == Err::<
                (u128, u128),
                _,
            >(ContractError::MarketNotFound) <==> !has_market(*old(self), debt_asset@)
                || !has_market(*old(self), collateral_asset@)),
            debt_asset@ != collateral_asset@ && liquidator@ != borrower@ && has_market(
                *old(self),
                debt_asset@,
            ) && has_market(*old(self), collateral_asset@) ==> (r == Err::<(u128, u128), _>(
                ContractError::RepayTooSmall,
            ) <==> repay_amount == 0),
            debt_asset@ != collateral_asset@ && liquidator@ != borrower@ && has_market(
                *old(self),
                debt_asset@,
            ) && has_market(*old(self), collateral_asset@) && repay_amount != 0 ==> (r == Err::<
                (u128, u128),
                _,
            >(ContractError::UserRecordNotFound) <==> !has_user(*old(self), borrower@)),
            debt_asset@ != collateral_asset@ && liquidator@ != borrower@ && has_market(
                *old(self),
                debt_asset@,
            ) && has_market(*old(self), collateral_asset@) && repay_amount != 0 && has_user(
                *old(self),
                borrower@,
            ) ==> {
                let i_d = market_index_of(*old(self), debt_asset@);
                let i_c = market_index_of(*old(self), collateral_asset@);
                let kb = user_index_of(*old(self), borrower@);
                let b0 = old(self).accounts@[kb];
                let am_d = spec_accrue(
                    old(self).markets@[i_d],
                    block_time,
                    debt_market_liquidity,
                );
                let am_c = spec_accrue(
                    old(self).markets@[i_c],
                    block_time,
                    collateral_market_liquidity,
                );
                &&& (am_d is None || am_c is None ==> r == Err::<(u128, u128), _>(
                    ContractError::ArithmeticOverflow,
                ))
                &&& (am_d matches Some(md) ==> am_c matches Some(mc) ==> {
                    let h = spec_health(
                        old(self).markets@.update(i_d, md).update(i_c, mc),
                        b0,
                        prices@,
                    );
                    &&& (h is None ==> r == Err::<(u128, u128), _>(
                        ContractError::ArithmeticOverflow,
                    ))
                    &&& (h matches Some(t) ==> {
                        &&& (t.debt_value <= t.liquidation_threshold_value <==> r
                            == Err::<(u128, u128), _>(ContractError::NotLiquidatable))
                        &&& (t.debt_value > t.liquidation_threshold_value ==> {
                            let outcome = spec_liquidation_amounts(
                                repay_amount,
                                debt_scaled_of(b0, i_d),
                                collateral_scaled_of(b0, i_c),
                                md,
                                mc,
                                old(self).config.close_factor,
                                prices@[i_d],
                                prices@[i_c],
                                user_collateral_scaled(*old(self), liquidator@, i_c),
                            );
                            &&& (outcome matches Err(e) ==> r == Err::<(u128, u128), _>(e))
                            &&& (outcome matches Ok(p) ==> r == Ok::<(u128, u128), ContractError>(
                                ((p.0 as u128), (p.1 as u128)),
                            ))
                        })
                        &&& (r matches Ok(out) ==> {
                            let actual_repay = out.0;
                            let seized = out.1;
                            let scale = DECIMAL_SCALE as int;
                            let ds = debt_scaled_of(b0, i_d);
                            let cs = collateral_scaled_of(b0, i_c);
                            let rs_raw = actual_repay as int * scale
                                / md.borrow_index.atomics as int;
                            let rs = if rs_raw <= ds {
                                rs_raw
                            } else {
                                ds
                            };
                            let ss_raw = seized as int * scale / mc.liquidity_index.atomics as int;
                            let ss = if ss_raw <= cs {
                                ss_raw
                            } else {
                                cs
                            };
                            &&& t.debt_value > t.liquidation_threshold_value
                            &&& spec_liquidatable(
                                old(self).markets@.update(i_d, md).update(i_c, mc),
                                b0,
                                prices@,
                            )
                            &&& actual_repay <= repay_amount
                            &&& actual_repay as int * scale <= u128::MAX
                            &&& seized as int * scale <= u128::MAX
                            &&& seized as int <= cs * mc.liquidity_index.atomics as int / scale
                            &&& final(self).markets@.len() == old(self).markets@.len()
                            &&& final(self).markets@[i_d] == Market {
                                debt_total_scaled: (md.debt_total_scaled - rs) as u128,
                                ..md
                            }
                            &&& final(self).markets@[i_c] == mc
                            &&& forall|m: int|
                                0 <= m < old(self).markets@.len() && m != i_d && m != i_c
                                    ==> final(self).markets@[m] == old(self).markets@[m]
                            &&& final(self).accounts@[kb] == with_collateral_slot(
                                with_debt_slot(
                                    b0,
                                    i_d,
                                    (ds - rs) as u128,
                                    b0.debts@[i_d].uncollateralized,
                                ),
                                i_c,
                                (cs - ss) as u128,
                            )
                            &&& has_user(*final(self), liquidator@)
                            &&& user_collateral_scaled(*final(self), liquidator@, i_c)
                                == user_collateral_scaled(*old(self), liquidator@, i_c) + ss
                            &&& forall|m: int|
                                #[trigger] user_debt_scaled(*final(self), liquidator@, m)
                                    == user_debt_scaled(*old(self), liquidator@, m)
                            &&& forall|k2: int|
                                0 <= k2 < old(self).users@.len() && k2 != kb && k2
                                    != user_index_of(*final(self), liquidator@) ==> final(self).accounts@[k2] == old(self).accounts@[k2]
                            &&& forall|k2: int|
                                0 <= k2 < old(self).users@.len() ==> final(self).users@[k2] == old(self).users@[k2]
                        })
                    })
                })
            },
            final(self).config == old(self).config,
            final(self).global_state == old(self).global_state,
            final(self).market_refs@ == old(self).market_refs@,
    {
        if *debt_asset == *collateral_asset || *liquidator == *borrower {
            return Err(ContractError::InvalidLiquidation);
        }
        let i_d = match self.find_market_index(debt_asset) {
            Some(i) => i,
            None => { return Err(ContractError::MarketNotFound); },
        };
        let i_c = match self.find_market_index(collateral_asset) {
            Some(i) => i,
            None => { return Err(ContractError::MarketNotFound); },
        };
        proof {
            assert(self.market_refs@[i_d as int]@ != self.market_refs@[i_c as int]@);
        }
        if repay_amount == 0 {
            return Err(ContractError::RepayTooSmall);
        }
        let kb = match self.find_user_index(borrower) {
            Some(k) => k,
            None => { return Err(ContractError::UserRecordNotFound); },
        };
        let mut market_d = self.markets[i_d];
        match market_d.apply_accrued_interests(block_time, debt_market_liquidity) {
            Ok(()) => (),
            Err(e) => { return Err(e); },
        }
        let mut market_c = self.markets[i_c];
        match market_c.apply_accrued_interests(block_time, collateral_market_liquidity) {
            Ok(()) => (),
            Err(e) => { return Err(e); },
        }
        let b0 = self.accounts[kb];
        let mut markets_after = copy_markets(&self.markets);
        markets_after.set(i_d, market_d);
        markets_after.set(i_c, market_c);
        proof {
            assert(markets_after@ =~= old(self).markets@.update(i_d as int, market_d).update(
                i_c as int,
                market_c,
            ));
        }
        let totals = match health_of_account(&markets_after, &b0, prices) {
            Ok(t) => t,
            Err(e) => { return Err(e); },
        };
        if totals.debt_value <= totals.liquidation_threshold_value {
            return Err(ContractError::NotLiquidatable);
        }
        let ds = b0.debts[i_d].amount_scaled;
        let debt_real = match get_descaled_amount(ds, market_d.borrow_index) {
            Some(v) => v,
            None => { return Err(ContractError::ArithmeticOverflow); },
        };
        let max_repay = match checked_mul_div(
            debt_real,
            self.config.close_factor.atomics,
            DECIMAL_SCALE,
        ) {
            Some(v) => v,
            None => { return Err(ContractError::ArithmeticOverflow); },
        };
        let mut actual_repay = if repay_amount <= max_repay {
            repay_amount
        } else {
            max_repay
        };
        let cs = b0.collateral[i_c];
        let coll_real = match get_descaled_amount(cs, market_c.liquidity_index) {
            Some(v) => v,
            None => { return Err(ContractError::ArithmeticOverflow); },
        };
        if coll_real == 0 {
            return Err(ContractError::ExceedsCollateral);
        }
        let price_d = prices[i_d];
        let price_c = prices[i_c];
        if price_c.atomics == 0 {
            return Err(ContractError::ArithmeticOverflow);
        }
        let cross = match checked_mul_div(actual_repay, price_d.atomics, price_c.atomics) {
            Some(v) => v,
            None => { return Err(ContractError::ArithmeticOverflow); },
        };
        let bonus_factor = DECIMAL_SCALE + market_c.liquidation_bonus.atomics;
        let mut seized = match checked_mul_div(cross, bonus_factor, DECIMAL_SCALE) {
            Some(v) => v,
            None => { return Err(ContractError::ArithmeticOverflow); },
        };
        if seized > coll_real {
            seized = coll_real;
            if price_d.atomics == 0 {
                return Err(ContractError::ArithmeticOverflow);
            }
            let back = match checked_mul_div(seized, price_c.atomics, price_d.atomics) {
                Some(v) => v,
                None => { return Err(ContractError::ArithmeticOverflow); },
            };
            let reduced = match checked_mul_div(back, DECIMAL_SCALE, bonus_factor) {
                Some(v) => v,
                None => { return Err(ContractError::ArithmeticOverflow); },
            };
            if reduced < actual_repay {
                actual_repay = reduced;
            }
        }
        let rs_raw = match get_scaled_amount(actual_repay, market_d.borrow_index) {
            Some(v) => v,
            None => { return Err(ContractError::ArithmeticOverflow); },
        };
        let rs = if rs_raw <= ds {
            rs_raw
        } else {
            ds
        };
        let ss_raw = match get_scaled_amount(seized, market_c.liquidity_index) {
            Some(v) => v,
            None => { return Err(ContractError::ArithmeticOverflow); },
        };
        let ss = if ss_raw <= cs {
            ss_raw
        } else {
            cs
        };
        let liq_coll: u128 = match self.find_user_index(liquidator) {
            Some(kl0) => self.accounts[kl0].collateral[i_c],
            None => 0,
        };
        let new_liq_coll = match checked_add_u128(liq_coll, ss) {
            Some(v) => v,
            None => { return Err(ContractError::ArithmeticOverflow); },
        };
        let kl = self.ensure_user(liquidator);
        let ghost mid = *self;
        proof {
            assert(self.users@[kb as int]@ == borrower@);
            assert(self.users@[kl as int]@ == liquidator@);
            assert(kb != kl);
            lemma_sum_debt_bound(mid.accounts@, kb as int, i_d as int);
        }
        let mut b_acc = self.accounts[kb];
        let keep_flag = b_acc.debts[i_d].uncollateralized;
        b_acc.debts[i_d] = Debt { amount_scaled: ds - rs, uncollateralized: keep_flag };
        b_acc.user.set_borrowing(i_d as u32, ds - rs != 0);
        b_acc.collateral[i_c] = cs - ss;
        b_acc.user.set_collateralizing(i_c as u32, cs - ss != 0);
        let mut l_acc = self.accounts[kl];
        l_acc.collateral[i_c] = new_liq_coll;
        l_acc.user.set_collateralizing(i_c as u32, new_liq_coll != 0);
        market_d.debt_total_scaled = market_d.debt_total_scaled - rs;
        self.markets.set(i_d, market_d);
        self.markets.set(i_c, market_c);
        self.accounts.set(kb, b_acc);
        self.accounts.set(kl, l_acc);
        proof {
            let ii_d = i_d as int;
            let ii_c = i_c as int;
            let kbi = kb as int;
            let kli = kl as int;
            let b_target = with_collateral_slot(
                with_debt_slot(mid.accounts@[kbi], ii_d, (ds - rs) as u128, keep_flag),
                ii_c,
                (cs - ss) as u128,
            );
            assert(b_acc.debts =~= b_target.debts);
            assert(b_acc.collateral =~= b_target.collateral);
            assert(b_acc.user == b_target.user);
            assert(b_acc == b_target);
            assert(mid.accounts@[kbi] == b0);
            assert(account_wf(b_acc));
            assert(account_wf(l_acc));
            let ghost accounts1 = mid.accounts@.update(kbi, b_acc);
            assert(self.accounts@ =~= accounts1.update(kli, l_acc));
            assert forall|k2: int| 0 <= k2 < self.accounts@.len() implies account_wf(
                #[trigger] self.accounts@[k2],
            ) by {
                if k2 != kbi && k2 != kli {
                    assert(self.accounts@[k2] == mid.accounts@[k2]);
                }
            }
            assert forall|k2: int, m: int|
                0 <= k2 < self.accounts@.len() && self.markets@.len() <= m < 128 implies
                #[trigger] debt_scaled_of(self.accounts@[k2], m) == 0 by {
                if k2 != kbi && k2 != kli {
                    assert(self.accounts@[k2] == mid.accounts@[k2]);
                }
                assert(debt_scaled_of(mid.accounts@[k2], m) == 0);
            }
            assert forall|k2: int, m: int|
                0 <= k2 < self.accounts@.len() && self.markets@.len() <= m < 128 implies
                #[trigger] collateral_scaled_of(self.accounts@[k2], m) == 0 by {
                if k2 != kbi && k2 != kli {
                    assert(self.accounts@[k2] == mid.accounts@[k2]);
                }
                assert(collateral_scaled_of(mid.accounts@[k2], m) == 0);
            }
            assert forall|k2: int, m: int|
                0 <= k2 < self.accounts@.len() && self.markets@.len() <= m < 128 implies
                #[trigger] limit_of(self.accounts@[k2], m) == 0 by {
                if k2 != kbi && k2 != kli {
                    assert(self.accounts@[k2] == mid.accounts@[k2]);
                }
                assert(limit_of(mid.accounts@[k2], m) == 0);
            }
            assert forall|m: int| 0 <= m < self.markets@.len() implies (
            #[trigger] self.markets@[m]).debt_total_scaled == sum_debt(self.accounts@, m) by {
                lemma_sum_debt_update(mid.accounts@, kbi, b_acc, m);
                lemma_sum_debt_update(accounts1, kli, l_acc, m);
                assert(debt_scaled_of(l_acc, m) == debt_scaled_of(accounts1[kli], m));
                if m != ii_d && m != ii_c {
                    assert(self.markets@[m] == mid.markets@[m]);
                }
            }
            assert forall|m: int| 0 <= m < self.markets@.len() implies market_wf(
                #[trigger] self.markets@[m],
                m,
            ) by {
                if m != ii_d && m != ii_c {
                    assert(self.markets@[m] == mid.markets@[m]);
                }
            }
            assert(self.users@[kli]@ == liquidator@);
            assert(has_user(*self, liquidator@));
            let w = user_index_of(*self, liquidator@);
            assert(0 <= w < self.users@.len() && self.users@[w]@ == liquidator@);
            if w != kli {
                assert(self.users@[w]@ != self.users@[kli]@);
            }
            assert(user_collateral_scaled(*self, liquidator@, ii_c) == new_liq_coll);
            assert forall|m: int| #[trigger] user_debt_scaled(*self, liquidator@, m)
                == user_debt_scaled(*old(self), liquidator@, m) by {
                assert(debt_scaled_of(l_acc, m) == debt_scaled_of(mid.accounts@[kli], m));
                if !has_user(*old(self), liquidator@) {
                    assert(debt_scaled_of(mid.accounts@[kli], m) == 0);
                }
            }
        }
        Ok((actual_repay, seized))
    }
}

} // verus!
