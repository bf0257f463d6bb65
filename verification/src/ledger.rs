//! The scaled-balance ledger's per-user records and their aggregates.
//!
//! Each user's debt and collateral in a market are stored as scaled
//! amounts, normalized by the market's index at write time. The records
//! are fixed-width (one slot per possible market index), matching the
//! bitmap capacity of the position tracker.

use vstd::prelude::*;

use crate::decimal::{Decimal, DECIMAL_SCALE, checked_div_amount, checked_mul_amount};
use crate::positions::{User, bit_set};

verus! {

/// Debt of one user in one market.
#[derive(Clone, Copy, Debug, PartialEq, Eq, Structural)]
pub struct Debt {
    /// Scaled debt amount, normalized by the market's borrow index.
    pub amount_scaled: u128,
    /// Marker for debt extended against an off-ledger credit line rather
    /// than collateral.
    pub uncollateralized: bool,
}

/// Everything the ledger holds for one user: the membership bitmaps and
/// one slot per market index for debt, collateral and credit line.
#[derive(Clone, Copy, Debug)]
pub struct UserAccount {
    /// Borrowed/collateral membership bitmaps.
    pub user: User,
    /// Scaled debt per market index.
    pub debts: [Debt; 128],
    /// Scaled collateral per market index.
    pub collateral: [u128; 128],
    /// Real-amount ceiling per market index for borrowing without
    /// collateral; zero means no credit line.
    pub uncollateralized_limits: [u128; 128],
}

/// Scaled debt of an account in market `m`.
pub open spec fn debt_scaled_of(a: UserAccount, m: int) -> int {
    if 0 <= m < 128 {
        a.debts@[m].amount_scaled as int
    } else {
        0
    }
}

/// Scaled collateral of an account in market `m`.
pub open spec fn collateral_scaled_of(a: UserAccount, m: int) -> int {
    if 0 <= m < 128 {
        a.collateral@[m] as int
    } else {
        0
    }
}

/// Credit-line ceiling of an account in market `m`.
pub open spec fn limit_of(a: UserAccount, m: int) -> int {
    if 0 <= m < 128 {
        a.uncollateralized_limits@[m] as int
    } else {
        0
    }
}

/// The account invariant: a bitmap bit is set exactly when the
/// corresponding scaled balance is nonzero.
pub open spec fn account_wf(a: UserAccount) -> bool {
    &&& forall|j: u128|
        j < 128 ==> (#[trigger] bit_set(a.user.borrowed_assets, j) <==> debt_scaled_of(
            a,
            j as int,
        ) != 0)
    &&& forall|j: u128|
        j < 128 ==> (#[trigger] bit_set(a.user.collateral_assets, j) <==> collateral_scaled_of(
            a,
            j as int,
        ) != 0)
}

impl UserAccount {
    /// A fresh account: no positions, no credit lines.
    pub fn new() -> (r: UserAccount)
        ensures
            r.user.borrowed_assets == 0,
            r.user.collateral_assets == 0,
            forall|m: int| debt_scaled_of(r, m) == 0,
            forall|m: int| collateral_scaled_of(r, m) == 0,
            forall|m: int| limit_of(r, m) == 0,
            account_wf(r),
    {
        let r = UserAccount {
            user: User { borrowed_assets: 0, collateral_assets: 0 },
            debts: [Debt { amount_scaled: 0, uncollateralized: false }; 128],
            collateral: [0u128; 128],
            uncollateralized_limits: [0u128; 128],
        };
        proof {
            crate::positions::lemma_zero_bits();
        }
        r
    }
}

/// The account after writing collateral slot `i` and refreshing its
/// membership bit.
pub open spec fn with_collateral_slot(a: UserAccount, i: int, v: u128) -> UserAccount {
    UserAccount {
        user: User {
            collateral_assets: crate::positions::spec_with_bit(
                a.user.collateral_assets,
                i as u128,
                v != 0,
            ),
            ..a.user
        },
        collateral: vstd::array::spec_array_update(a.collateral, i, v),
        ..a
    }
}

/// The account after writing debt slot `i` (amount and credit-line
/// marker) and refreshing its membership bit.
pub open spec fn with_debt_slot(a: UserAccount, i: int, v: u128, uncollateralized: bool) -> UserAccount {
    UserAccount {
        user: User {
            borrowed_assets: crate::positions::spec_with_bit(
                a.user.borrowed_assets,
                i as u128,
                v != 0,
            ),
            ..a.user
        },
        debts: vstd::array::spec_array_update(a.debts, i, Debt { amount_scaled: v, uncollateralized }),
        ..a
    }
}

/// Converts a real amount to a scaled amount at the given index,
/// truncating: `amount / index`. Depositing and borrowing store this.
pub fn get_scaled_amount(amount: u128, index: Decimal) -> (r: Option<u128>)
    requires
        index.atomics != 0,
    ensures
        r matches Some(v) ==> v == amount as int * DECIMAL_SCALE as int / index.atomics as int,
        r is Some <==> amount as int * DECIMAL_SCALE as int <= u128::MAX,
{
    checked_div_amount(amount, index)
}

/// Converts a scaled amount back to a real amount at the given index,
/// truncating: `scaled * index`. Balances are read through this.
pub fn get_descaled_amount(scaled: u128, index: Decimal) -> (r: Option<u128>)
    ensures
        r matches Some(v) ==> v == scaled as int * index.atomics as int / DECIMAL_SCALE as int,
        r is Some <==> scaled as int * index.atomics as int <= u128::MAX,
{
    checked_mul_amount(scaled, index)
}

/// Sum of all accounts' scaled debt in market `m`.
pub open spec fn sum_debt(accounts: Seq<UserAccount>, m: int) -> int
    decreases accounts.len(),
{
    if accounts.len() == 0 {
        0
    } else {
        sum_debt(accounts.drop_last(), m) + debt_scaled_of(accounts.last(), m)
    }
}

/// The debt sum is never negative.
pub proof fn lemma_sum_debt_nonneg(accounts: Seq<UserAccount>, m: int)
    ensures
        sum_debt(accounts, m) >= 0,
    decreases accounts.len(),
{
    if accounts.len() > 0 {
        lemma_sum_debt_nonneg(accounts.drop_last(), m);
    }
}

/// Appending an account adds exactly its debt to the sum.
pub proof fn lemma_sum_debt_push(accounts: Seq<UserAccount>, a: UserAccount, m: int)
    ensures
        sum_debt(accounts.push(a), m) == sum_debt(accounts, m) + debt_scaled_of(a, m),
{
    assert(accounts.push(a).drop_last() =~= accounts);
    assert(accounts.push(a).last() == a);
}

/// Replacing one account moves the sum by the difference of that
/// account's debt.
pub proof fn lemma_sum_debt_update(accounts: Seq<UserAccount>, k: int, a: UserAccount, m: int)
    requires
        0 <= k < accounts.len(),
    ensures
        sum_debt(accounts.update(k, a), m) == sum_debt(accounts, m) - debt_scaled_of(
            accounts[k],
            m,
        ) + debt_scaled_of(a, m),
    decreases accounts.len(),
{
    let updated = accounts.update(k, a);
    if k == accounts.len() - 1 {
        assert(updated.drop_last() =~= accounts.drop_last());
        assert(updated.last() == a);
    } else {
        assert(updated.drop_last() =~= accounts.drop_last().update(k, a));
        assert(updated.last() == accounts.last());
        lemma_sum_debt_update(accounts.drop_last(), k, a, m);
    }
}

/// One account's debt never exceeds the market's debt sum.
pub proof fn lemma_sum_debt_bound(accounts: Seq<UserAccount>, k: int, m: int)
    requires
        0 <= k < accounts.len(),
    ensures
        debt_scaled_of(accounts[k], m) <= sum_debt(accounts, m),
    decreases accounts.len(),
{
    if k == accounts.len() - 1 {
        lemma_sum_debt_nonneg(accounts.drop_last(), m);
        assert(accounts.last() == accounts[k]);
    } else {
        lemma_sum_debt_bound(accounts.drop_last(), k, m);
        assert(accounts.drop_last()[k] == accounts[k]);
        assert(debt_scaled_of(accounts.last(), m) >= 0);
    }
}

/// A market in which no account owes anything has a zero debt sum.
pub proof fn lemma_sum_debt_zero(accounts: Seq<UserAccount>, m: int)
    requires
        forall|k: int| 0 <= k < accounts.len() ==> debt_scaled_of(#[trigger] accounts[k], m) == 0,
    ensures
        sum_debt(accounts, m) == 0,
    decreases accounts.len(),
{
    if accounts.len() > 0 {
        assert(forall|k: int|
            0 <= k < accounts.drop_last().len() ==> debt_scaled_of(
                #[trigger] accounts.drop_last()[k],
                m,
            ) == 0);
        lemma_sum_debt_zero(accounts.drop_last(), m);
        assert(debt_scaled_of(accounts.last(), m) == 0);
    }
}

} // verus!
