//! Per-user membership sets of open positions.
//!
//! A user's borrowed and collateral markets are kept as fixed-width
//! bit-sets: bit `i` is set exactly when the user has a nonzero scaled
//! balance in the market with dense index `i`. The width of the word is a
//! hard capacity ceiling on the number of markets.

use vstd::prelude::*;

verus! {

/// Capacity ceiling: one bit per market in a 128-bit word.
pub const MAX_MARKETS: u32 = 128;

/// True when bit `i` of `bits` is set. Indices at or above the word width
/// are never set.
pub open spec fn bit_set(bits: u128, i: u128) -> bool {
    i < 128 && (bits >> i) & 1 == 1
}

/// The word after setting or clearing bit `i`.
pub open spec fn spec_with_bit(bits: u128, i: u128, member: bool) -> u128 {
    if member {
        bits | (1u128 << i)
    } else {
        bits & !(1u128 << i)
    }
}

/// Reads one membership bit.
pub fn get_bit(bits: u128, i: u32) -> (r: bool)
    requires
        i < MAX_MARKETS,
    ensures
        r == bit_set(bits, i as u128),
{
    let ii: u128 = i as u128;
    (bits >> ii) & 1 == 1
}

/// Sets bit `i`, leaving every other bit as it was.
pub fn with_bit_set(bits: u128, i: u32) -> (r: u128)
    requires
        i < MAX_MARKETS,
    ensures
        r == spec_with_bit(bits, i as u128, true),
        forall|j: u128| j < 128 ==> #[trigger] bit_set(r, j) == (j == i as u128 || bit_set(
            bits,
            j,
        )),
{
    let ii: u128 = i as u128;
    let r = bits | (1u128 << ii);
    proof {
        assert(forall|j: u128|
            j < 128 ==> #[trigger] bit_set(bits | (1u128 << ii), j) == (j == ii || bit_set(
                bits,
                j,
            ))) by (bit_vector)
            requires
                ii < 128,
        ;
    }
    r
}

/// Clears bit `i`, leaving every other bit as it was.
pub fn with_bit_cleared(bits: u128, i: u32) -> (r: u128)
    requires
        i < MAX_MARKETS,
    ensures
        r == spec_with_bit(bits, i as u128, false),
        forall|j: u128| j < 128 ==> #[trigger] bit_set(r, j) == (j != i as u128 && bit_set(
            bits,
            j,
        )),
{
    let ii: u128 = i as u128;
    let r = bits & !(1u128 << ii);
    proof {
        assert(forall|j: u128|
            j < 128 ==> #[trigger] bit_set(bits & !(1u128 << ii), j) == (j != ii && bit_set(
                bits,
                j,
            ))) by (bit_vector)
            requires
                ii < 128,
        ;
    }
    r
}

/// No bit of the zero word is set.
pub proof fn lemma_zero_bits()
    by (bit_vector)
    ensures
        forall|j: u128| !bit_set(0u128, j),
{
}

/// Data for one user: membership bitmaps over market indices.
#[derive(Clone, Copy, Debug, PartialEq, Eq, Structural)]
pub struct User {
    /// Bit `i` is set exactly when the user has nonzero scaled debt in
    /// market `i`.
    pub borrowed_assets: u128,
    /// Bit `i` is set exactly when the user has nonzero scaled collateral
    /// in market `i`.
    pub collateral_assets: u128,
}

impl Default for User {
    /// A fresh user holds no position at all.
    fn default() -> (r: Self)
        ensures
            r.borrowed_assets == 0,
            r.collateral_assets == 0,
    {
        User { borrowed_assets: 0, collateral_assets: 0 }
    }
}

impl User {
    /// True when the user is borrowing from market `i`.
    pub fn is_borrowing(&self, i: u32) -> (r: bool)
        requires
            i < MAX_MARKETS,
        ensures
            r == bit_set(self.borrowed_assets, i as u128),
    {
        get_bit(self.borrowed_assets, i)
    }

    /// True when the user supplies collateral in market `i`.
    pub fn is_collateralizing(&self, i: u32) -> (r: bool)
        requires
            i < MAX_MARKETS,
        ensures
            r == bit_set(self.collateral_assets, i as u128),
    {
        get_bit(self.collateral_assets, i)
    }

    /// Records or erases membership in the borrowed set.
    pub fn set_borrowing(&mut self, i: u32, member: bool)
        requires
            i < MAX_MARKETS,
        ensures
            forall|j: u128|
                j < 128 ==> #[trigger] bit_set(final(self).borrowed_assets, j) == (if j == i as u128 {
                    member
                } else {
                    bit_set(old(self).borrowed_assets, j)
                }),
            final(self).borrowed_assets == spec_with_bit(
                old(self).borrowed_assets,
                i as u128,
                member,
            ),
            final(self).collateral_assets == old(self).collateral_assets,
    {
        if member {
            self.borrowed_assets = with_bit_set(self.borrowed_assets, i);
        } else {
            self.borrowed_assets = with_bit_cleared(self.borrowed_assets, i);
        }
    }

    /// Records or erases membership in the collateral set.
    pub fn set_collateralizing(&mut self, i: u32, member: bool)
        requires
            i < MAX_MARKETS,
        ensures
            forall|j: u128|
                j < 128 ==> #[trigger] bit_set(final(self).collateral_assets, j) == (if j
                    == i as u128 {
                    member
                } else {
                    bit_set(old(self).collateral_assets, j)
                }),
            final(self).collateral_assets == spec_with_bit(
                old(self).collateral_assets,
                i as u128,
                member,
            ),
            final(self).borrowed_assets == old(self).borrowed_assets,
    {
        if member {
            self.collateral_assets = with_bit_set(self.collateral_assets, i);
        } else {
            self.collateral_assets = with_bit_cleared(self.collateral_assets, i);
        }
    }
}

} // verus!
