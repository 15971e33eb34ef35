//! The user configuration and the market rules that weigh its positions.

use crate::bitset::ReserveSet;
use vstd::prelude::*;

verus! {

/// Identifier of a market rule.
pub type RuleId = u32;

/// What one user holds where, and under which market rule.
#[derive(Clone, Copy, Debug, PartialEq, Eq)]
pub struct UserConfig {
    /// Reserves in which the user has a supplied balance.
    pub deposits: ReserveSet,
    /// Reserves whose deposits the user offers as collateral.
    pub collaterals: ReserveSet,
    /// Reserves in which the user has variable debt.
    pub borrows_variable: ReserveSet,
    /// Reserves in which the user has stable debt.
    pub borrows_stable: ReserveSet,
    /// The market rule that weighs the user's positions.
    pub market_rule_id: RuleId,
}

impl UserConfig {
    /// The configuration of a user who holds nothing, under the default rule.
    pub open spec fn empty() -> UserConfig {
        UserConfig {
            deposits: ReserveSet { bits: 0 },
            collaterals: ReserveSet { bits: 0 },
            borrows_variable: ReserveSet { bits: 0 },
            borrows_stable: ReserveSet { bits: 0 },
            market_rule_id: 0,
        }
    }

    pub fn new() -> (config: Self)
        ensures
            config == Self::empty(),
            config.deposits@ == Set::<int>::empty(),
            config.collaterals@ == Set::<int>::empty(),
            config.borrows_variable@ == Set::<int>::empty(),
            config.borrows_stable@ == Set::<int>::empty(),
    {
        UserConfig {
            deposits: ReserveSet::empty(),
            collaterals: ReserveSet::empty(),
            borrows_variable: ReserveSet::empty(),
            borrows_stable: ReserveSet::empty(),
            market_rule_id: 0,
        }
    }

    /// Whether the user holds a position of any kind in reserve `id`.
    pub open spec fn holds(self, id: int) -> bool {
        self.deposits@.contains(id) || self.borrows_variable@.contains(id)
            || self.borrows_stable@.contains(id)
    }
}

/// The risk coefficients of one asset under one market rule. An absent
/// coefficient means that the asset cannot be used in that role.
#[derive(Clone, Copy, Debug, PartialEq, Eq)]
pub struct AssetRules {
    /// Weight of a deposit as collateral, at scale 1e6.
    pub collateral_coefficient_e6: Option<u128>,
    /// Weight of a debt, at scale 1e6.
    pub borrow_coefficient_e6: Option<u128>,
    /// Penalty on liquidation, at scale 1e6.
    pub penalty_e6: Option<u128>,
}

/// The rules of one market, by reserve id. A reserve without an entry takes
/// no part in the market.
pub type MarketRule = Vec<Option<AssetRules>>;

/// The entry of reserve `id` in `rule`, if it has one.
pub open spec fn rule_entry(rule: Seq<Option<AssetRules>>, id: int) -> Option<AssetRules> {
    if 0 <= id < rule.len() {
        rule[id]
    } else {
        None
    }
}

/// The weight of reserve `id` as collateral under `rule`, if it may serve.
pub open spec fn collateral_coefficient(rule: Seq<Option<AssetRules>>, id: int) -> Option<u128> {
    match rule_entry(rule, id) {
        Some(entry) => entry.collateral_coefficient_e6,
        None => None,
    }
}

/// The weight of a debt in reserve `id` under `rule`, if it may be borrowed.
pub open spec fn borrow_coefficient(rule: Seq<Option<AssetRules>>, id: int) -> Option<u128> {
    match rule_entry(rule, id) {
        Some(entry) => entry.borrow_coefficient_e6,
        None => None,
    }
}

/// Reads the entry of reserve `id` in `rule`.
pub fn get_rule_entry(rule: &MarketRule, id: u32) -> (entry: Option<AssetRules>)
    ensures
        entry == rule_entry(rule@, id as int),
{
    if (id as usize) < rule.len() {
        rule[id as usize]
    } else {
        None
    }
}

} // verus!
