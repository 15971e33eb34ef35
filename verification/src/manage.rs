//! Administration: listing assets, changing what governs a reserve, and the
//! market rules. Every mutator is gated by the roles of the caller.

use crate::account::{AccountId, Timestamp};
use crate::bitset::MAX_RESERVES;
use crate::config::{AssetRules, MarketRule, RuleId};
use crate::errors::{lift, AccessControlError, LendingPoolError};
use crate::fixed::{checked, MathError};
use crate::pool::{put_entry, LendingPool, PoolView};
use crate::records::lifted;
use crate::reserve::{ReserveAbacusTokens, ReserveData, ReserveDataParameters, ReserveRestrictions};
use vstd::arithmetic::power::{lemma_pow_increases, pow};
use vstd::prelude::*;

verus! {

/// Identifier of a role.
pub type RoleType = u32;

/// May mint a given asset.
pub const MINTER: RoleType = 4_254_773_782;

/// May burn a given asset.
pub const BURNER: RoleType = 1_711_057_910;

/// Pays a reduced flash loan fee.
pub const FLASH_BORROWER: RoleType = 1_112_475_474;

/// May list new assets.
pub const ASSET_LISTING_ADMIN: RoleType = 1_094_072_439;

/// May change the parameters of reserves and the market rules.
pub const PARAMETERS_ADMIN: RoleType = 368_001_360;

/// May change the debt rate of the protocol's stablecoin.
pub const STABLECOIN_RATE_ADMIN: RoleType = 2_742_621_032;

/// May activate, deactivate, freeze and unfreeze reserves.
pub const EMERGENCY_ADMIN: RoleType = 297_099_943;

/// May do what the listing, parameters and emergency admins may do.
pub const GLOBAL_ADMIN: RoleType = 2_459_877_095;

/// May assign all the roles.
pub const ROLE_ADMIN: RoleType = 0;

/// May change the fee reductions of accounts.
pub const FEE_REDUCTION_ADMIN: RoleType = 3_092_744_775;

/// May withdraw the income of the protocol.
pub const TREASURY: RoleType = 2_434_241_257;

/// Whether a caller with `roles` may do what `role` or the global admin may.
pub open spec fn authorized(roles: Seq<RoleType>, role: RoleType) -> bool {
    roles.contains(role) || roles.contains(GLOBAL_ADMIN)
}

/// Whether `role` is among `roles`.
pub fn has_role(roles: &Vec<RoleType>, role: RoleType) -> (b: bool)
    ensures
        b == roles@.contains(role),
{
    let mut i: usize = 0;
    while i < roles.len()
        invariant
            i <= roles.len(),
            forall|j: int| 0 <= j < i ==> roles@[j] != role,
        decreases roles.len() - i,
    {
        if roles[i] == role {
            return true;
        }
        i = i + 1;
    }
    false
}

/// Refuses a caller who holds neither `role` nor the global admin's.
pub fn check_role(roles: &Vec<RoleType>, role: RoleType) -> (r: Result<(), LendingPoolError>)
    ensures
        r == (if authorized(roles@, role) {
            Ok::<(), LendingPoolError>(())
        } else {
            Err(LendingPoolError::AccessControlError(AccessControlError::MissingRole))
        }),
{
    if has_role(roles, role) || has_role(roles, GLOBAL_ADMIN) {
        Ok(())
    } else {
        Err(LendingPoolError::AccessControlError(AccessControlError::MissingRole))
    }
}

/// Ten to the power of `decimals`.
pub open spec fn decimal_multiplier_spec(decimals: u128) -> Result<u128, MathError> {
    checked(pow(10, decimals as nat))
}

/// Computes ten to the power of `decimals`.
pub fn decimal_multiplier(decimals: u128) -> (r: Result<u128, MathError>)
    ensures
        r == decimal_multiplier_spec(decimals),
{
    let mut value: u128 = 1;
    let mut done: u128 = 0;
    proof {
        vstd::arithmetic::power::lemma_pow0(10);
    }
    while done < decimals
        invariant
            done <= decimals,
            value == pow(10, done as nat),
        decreases decimals - done,
    {
        proof {
            reveal(pow);
            assert(pow(10, (done + 1) as nat) == 10 * pow(10, done as nat));
        }
        match value.checked_mul(10) {
            Some(next) => {
                value = next;
            },
            None => {
                proof {
                    lemma_pow_increases(10, (done + 1) as nat, decimals as nat);
                }
                return Err(MathError::Overflow);
            },
        }
        done = done + 1;
    }
    Ok(value)
}

/// What is registered with an asset.
pub struct AssetRegistration {
    pub decimals: u128,
    pub rules: AssetRules,
    pub restrictions: ReserveRestrictions,
    pub parameters: ReserveDataParameters,
    pub tokens: ReserveAbacusTokens,
}

impl PoolView {
    /// The pool with the reserve `id` replaced.
    pub open spec fn with_reserve(self, id: int, reserve: ReserveData) -> PoolView {
        PoolView { reserves: self.reserves.update(id, reserve), ..self }
    }

    /// The pool after `asset` was listed at `timestamp`: the asset is new and
    /// there is room for it; its reserve starts without balances; its rules
    /// become its entry in the default market rule.
    pub open spec fn register_asset(
        self,
        asset: AccountId,
        registration: AssetRegistration,
        timestamp: Timestamp,
    ) -> Result<PoolView, LendingPoolError> {
        if self.asset_id(asset) is Some {
            Err(LendingPoolError::AlreadyRegistered)
        } else if self.assets.len() >= MAX_RESERVES {
            Err(LendingPoolError::MarketRuleInvalidAssetId)
        } else {
            match lift(decimal_multiplier_spec(registration.decimals)) {
                Err(e) => Err(e),
                Ok(multiplier) => Ok(
                    PoolView {
                        assets: self.assets.push(asset),
                        reserves: self.reserves.push(
                            ReserveData::initial(
                                self.assets.len() as u32,
                                multiplier,
                                registration.parameters,
                                registration.restrictions,
                                registration.tokens,
                                timestamp,
                            ),
                        ),
                        rules: self.rules.update(
                            0,
                            put_entry(
                                self.rules[0],
                                self.assets.len() as int,
                                Some(registration.rules),
                            ),
                        ),
                        ..self
                    },
                ),
            }
        }
    }

    /// The pool after the reserve of `asset` was switched on or off.
    pub open spec fn set_reserve_is_active(self, asset: AccountId, active: bool) -> Result<
        PoolView,
        LendingPoolError,
    > {
        match self.asset_id(asset) {
            None => Err(LendingPoolError::AssetNotRegistered),
            Some(id) => Ok(
                self.with_reserve(id, ReserveData { active, ..self.reserves[id] }),
            ),
        }
    }

    /// The pool after the reserve of `asset` was frozen or unfrozen.
    pub open spec fn set_reserve_is_freezed(self, asset: AccountId, freeze: bool) -> Result<
        PoolView,
        LendingPoolError,
    > {
        match self.asset_id(asset) {
            None => Err(LendingPoolError::AssetNotRegistered),
            Some(id) => Ok(
                self.with_reserve(id, ReserveData { frozen: freeze, ..self.reserves[id] }),
            ),
        }
    }

    /// The pool after the restrictions of the reserve of `asset` were
    /// replaced.
    pub open spec fn set_reserve_restrictions(
        self,
        asset: AccountId,
        restrictions: ReserveRestrictions,
    ) -> Result<PoolView, LendingPoolError> {
        match self.asset_id(asset) {
            None => Err(LendingPoolError::AssetNotRegistered),
            Some(id) => Ok(self.with_reserve(id, ReserveData { restrictions, ..self.reserves[id] })),
        }
    }

    /// The pool after the parameters of the reserve of `asset` were replaced
    /// at `timestamp`: interest accrues under the old parameters first, and
    /// the rates are derived anew under the new ones.
    pub open spec fn set_reserve_parameters(
        self,
        asset: AccountId,
        parameters: ReserveDataParameters,
        timestamp: Timestamp,
    ) -> Result<PoolView, LendingPoolError> {
        match self.asset_id(asset) {
            None => Err(LendingPoolError::AssetNotRegistered),
            Some(id) => match lift(self.reserves[id].accrued(timestamp)) {
                Err(e) => Err(e),
                Ok(accrued) => match lift((ReserveData { parameters, ..accrued }).recalculated()) {
                    Err(e) => Err(e),
                    Ok(reserve) => Ok(self.with_reserve(id, reserve)),
                },
            },
        }
    }

    /// The pool after the market rule `market_rule_id` was added. Market
    /// rules are an ordered list that their ids index, and a rule is never
    /// replaced once it was added: so the id has to be the next free one (an
    /// id that is taken would replace a rule, a later one would leave a gap),
    /// and the rule has one place for every listed asset.
    pub open spec fn add_market_rule(
        self,
        market_rule_id: RuleId,
        market_rule: Seq<Option<AssetRules>>,
    ) -> Result<PoolView, LendingPoolError> {
        if market_rule_id != self.rules.len() || self.rules.len() >= u32::MAX {
            Err(LendingPoolError::MarketRuleInvalidId)
        } else if market_rule.len() != self.assets.len() {
            Err(LendingPoolError::MarketRuleInvalidAssetId)
        } else {
            Ok(PoolView { rules: self.rules.push(market_rule), ..self })
        }
    }

    /// The pool after the entry of `asset` in the market rule
    /// `market_rule_id` was replaced: the rule exists and the asset is listed.
    pub open spec fn modify_asset_rule(
        self,
        market_rule_id: RuleId,
        asset: AccountId,
        rules: AssetRules,
    ) -> Result<PoolView, LendingPoolError> {
        if market_rule_id >= self.rules.len() {
            Err(LendingPoolError::MarketRuleInvalidId)
        } else {
            match self.asset_id(asset) {
                None => Err(LendingPoolError::MarketRuleInvalidAssetId),
                Some(id) => Ok(
                    PoolView {
                        rules: self.rules.update(
                            market_rule_id as int,
                            put_entry(self.rules[market_rule_id as int], id, Some(rules)),
                        ),
                        ..self
                    },
                ),
            }
        }
    }
}

/// What an administrative mutator makes of the pool: refused for want of the
/// role, and otherwise what `outcome` says.
pub open spec fn gated(
    roles: Seq<RoleType>,
    role: RoleType,
    outcome: Result<PoolView, LendingPoolError>,
) -> Result<PoolView, LendingPoolError> {
    if authorized(roles, role) {
        outcome
    } else {
        Err(LendingPoolError::AccessControlError(AccessControlError::MissingRole))
    }
}

/// Whether a mutator that returned `r` turned the pool `before` into `after`
/// as `outcome` says: the new pool on success, the old one with the error
/// otherwise.
pub open spec fn carried_out(
    before: PoolView,
    after: PoolView,
    r: Result<(), LendingPoolError>,
    outcome: Result<PoolView, LendingPoolError>,
) -> bool {
    match outcome {
        Ok(view) => r is Ok && after == view,
        Err(e) => r == Err::<(), LendingPoolError>(e) && after == before,
    }
}

impl LendingPool {
    /// Lists an asset. The caller has to be a listing admin.
    pub fn register_asset(
        &mut self,
        roles: &Vec<RoleType>,
        asset: AccountId,
        decimals: u128,
        collateral_coefficient_e6: Option<u128>,
        borrow_coefficient_e6: Option<u128>,
        penalty_e6: Option<u128>,
        maximal_total_supply: Option<u128>,
        maximal_total_debt: Option<u128>,
        minimal_collateral: u128,
        minimal_debt: u128,
        income_for_suppliers_part_e6: u128,
        flash_loan_fee_e6: u128,
        interest_rate_model: [u128; 7],
        a_token_address: AccountId,
        v_token_address: AccountId,
        timestamp: Timestamp,
    ) -> (r: Result<(), LendingPoolError>)
        requires
            old(self).wf(),
        ensures
            final(self).wf(),
            carried_out(
                old(self)@,
                final(self)@,
                r,
                gated(
                    roles@,
                    ASSET_LISTING_ADMIN,
                    old(self)@.register_asset(
                        asset,
                        (AssetRegistration {
                            decimals,
                            rules: AssetRules {
                                collateral_coefficient_e6,
                                borrow_coefficient_e6,
                                penalty_e6,
                            },
                            restrictions: ReserveRestrictions {
                                maximal_total_supply,
                                maximal_total_debt,
                                minimal_collateral,
                                minimal_debt,
                            },
                            parameters: ReserveDataParameters {
                                interest_rate_model,
                                income_for_suppliers_part_e6,
                                flash_loan_fee_e6,
                            },
                            tokens: ReserveAbacusTokens { a_token_address, v_token_address },
                        }),
                        timestamp,
                    ),
                ),
            ),
    {
        check_role(roles, ASSET_LISTING_ADMIN)?;
        if self.reserve_id(&asset).is_some() {
            return Err(LendingPoolError::AlreadyRegistered);
        }
        let id = self.reserve_count();
        if id >= MAX_RESERVES as usize {
            return Err(LendingPoolError::MarketRuleInvalidAssetId);
        }
        let multiplier = lifted(decimal_multiplier(decimals))?;
        let reserve = ReserveData::new(
            id as u32,
            multiplier,
            &ReserveDataParameters {
                interest_rate_model,
                income_for_suppliers_part_e6,
                flash_loan_fee_e6,
            },
            &ReserveRestrictions::new(
                &maximal_total_supply,
                &maximal_total_debt,
                &minimal_collateral,
                &minimal_debt,
            ),
            &ReserveAbacusTokens::new(&a_token_address, &v_token_address),
            &timestamp,
        );
        self.list_asset(
            asset,
            reserve,
            AssetRules { collateral_coefficient_e6, borrow_coefficient_e6, penalty_e6 },
        );
        Ok(())
    }

    /// Activates or deactivates a reserve. The caller has to be an emergency
    /// admin.
    pub fn set_reserve_is_active(
        &mut self,
        roles: &Vec<RoleType>,
        asset: AccountId,
        active: bool,
    ) -> (r: Result<(), LendingPoolError>)
        requires
            old(self).wf(),
        ensures
            final(self).wf(),
            carried_out(
                old(self)@,
                final(self)@,
                r,
                gated(
                    roles@,
                    EMERGENCY_ADMIN,
                    old(self)@.set_reserve_is_active(asset, active),
                ),
            ),
    {
        check_role(roles, EMERGENCY_ADMIN)?;
        let id = match self.reserve_id(&asset) {
            Some(id) => id,
            None => {
                return Err(LendingPoolError::AssetNotRegistered);
            },
        };
        let mut reserve = self.reserve_at(id);
        reserve.active = active;
        self.store_reserve(id, reserve);
        Ok(())
    }

    /// Freezes or unfreezes a reserve. The caller has to be an emergency
    /// admin.
    pub fn set_reserve_is_freezed(
        &mut self,
        roles: &Vec<RoleType>,
        asset: AccountId,
        freeze: bool,
    ) -> (r: Result<(), LendingPoolError>)
        requires
            old(self).wf(),
        ensures
            final(self).wf(),
            carried_out(
                old(self)@,
                final(self)@,
                r,
                gated(
                    roles@,
                    EMERGENCY_ADMIN,
                    old(self)@.set_reserve_is_freezed(asset, freeze),
                ),
            ),
    {
        check_role(roles, EMERGENCY_ADMIN)?;
        let id = match self.reserve_id(&asset) {
            Some(id) => id,
            None => {
                return Err(LendingPoolError::AssetNotRegistered);
            },
        };
        let mut reserve = self.reserve_at(id);
        reserve.frozen = freeze;
        self.store_reserve(id, reserve);
        Ok(())
    }

    /// Replaces the restrictions of a reserve. The caller has to be a
    /// parameters admin.
    pub fn set_reserve_restrictions(
        &mut self,
        roles: &Vec<RoleType>,
        asset: AccountId,
        maximal_total_supply: Option<u128>,
        maximal_total_debt: Option<u128>,
        minimal_collateral: u128,
        minimal_debt: u128,
    ) -> (r: Result<(), LendingPoolError>)
        requires
            old(self).wf(),
        ensures
            final(self).wf(),
            carried_out(
                old(self)@,
                final(self)@,
                r,
                gated(
                    roles@,
                    PARAMETERS_ADMIN,
                    old(self)@.set_reserve_restrictions(
                        asset,
                        (ReserveRestrictions {
                            maximal_total_supply,
                            maximal_total_debt,
                            minimal_collateral,
                            minimal_debt,
                        }),
                    ),
                ),
            ),
    {
        check_role(roles, PARAMETERS_ADMIN)?;
        let id = match self.reserve_id(&asset) {
            Some(id) => id,
            None => {
                return Err(LendingPoolError::AssetNotRegistered);
            },
        };
        let mut reserve = self.reserve_at(id);
        reserve.restrictions = ReserveRestrictions {
            maximal_total_supply,
            maximal_total_debt,
            minimal_collateral,
            minimal_debt,
        };
        self.store_reserve(id, reserve);
        Ok(())
    }

    /// Replaces the parameters of a reserve at `timestamp`. The caller has to
    /// be a parameters admin.
    pub fn set_reserve_parameters(
        &mut self,
        roles: &Vec<RoleType>,
        asset: AccountId,
        interest_rate_model: [u128; 7],
        income_for_suppliers_part_e6: u128,
        flash_loan_fee_e6: u128,
        timestamp: Timestamp,
    ) -> (r: Result<(), LendingPoolError>)
        requires
            old(self).wf(),
        ensures
            final(self).wf(),
            carried_out(
                old(self)@,
                final(self)@,
                r,
                gated(
                    roles@,
                    PARAMETERS_ADMIN,
                    old(self)@.set_reserve_parameters(
                        asset,
                        (ReserveDataParameters {
                            interest_rate_model,
                            income_for_suppliers_part_e6,
                            flash_loan_fee_e6,
                        }),
                        timestamp,
                    ),
                ),
            ),
    {
        check_role(roles, PARAMETERS_ADMIN)?;
        let id = match self.reserve_id(&asset) {
            Some(id) => id,
            None => {
                return Err(LendingPoolError::AssetNotRegistered);
            },
        };
        let mut reserve = self.reserve_at(id);
        proof {
            reserve.lemma_accrual_keeps_identity(timestamp);
        }
        lifted(reserve.accumulate_interest(timestamp))?;
        reserve.parameters = ReserveDataParameters {
            interest_rate_model,
            income_for_suppliers_part_e6,
            flash_loan_fee_e6,
        };
        lifted(reserve.recalculate_current_rates())?;
        self.store_reserve(id, reserve);
        Ok(())
    }

    /// Adds a market rule under the next free id. The caller has to be a
    /// parameters admin. An id that is not the next free one is refused with
    /// `MarketRuleInvalidId`, a rule that does not have one place for every
    /// listed asset with `MarketRuleInvalidAssetId`.
    pub fn add_market_rule(
        &mut self,
        roles: &Vec<RoleType>,
        market_rule_id: RuleId,
        market_rule: MarketRule,
    ) -> (r: Result<(), LendingPoolError>)
        requires
            old(self).wf(),
        ensures
            final(self).wf(),
            carried_out(
                old(self)@,
                final(self)@,
                r,
                gated(
                    roles@,
                    PARAMETERS_ADMIN,
                    old(self)@.add_market_rule(market_rule_id, market_rule@),
                ),
            ),
    {
        check_role(roles, PARAMETERS_ADMIN)?;
        let count = self.rule_count();
        if market_rule_id as usize != count || count >= u32::MAX as usize {
            return Err(LendingPoolError::MarketRuleInvalidId);
        }
        if market_rule.len() != self.reserve_count() {
            return Err(LendingPoolError::MarketRuleInvalidAssetId);
        }
        self.push_rule(market_rule);
        Ok(())
    }

    /// Replaces the entry of an asset in a market rule. The caller has to be
    /// a parameters admin.
    pub fn modify_asset_rule(
        &mut self,
        roles: &Vec<RoleType>,
        market_rule_id: RuleId,
        asset: AccountId,
        collateral_coefficient_e6: Option<u128>,
        borrow_coefficient_e6: Option<u128>,
        penalty_e6: Option<u128>,
    ) -> (r: Result<(), LendingPoolError>)
        requires
            old(self).wf(),
        ensures
            final(self).wf(),
            carried_out(
                old(self)@,
                final(self)@,
                r,
                gated(
                    roles@,
                    PARAMETERS_ADMIN,
                    old(self)@.modify_asset_rule(
                        market_rule_id,
                        asset,
                        (AssetRules {
                            collateral_coefficient_e6,
                            borrow_coefficient_e6,
                            penalty_e6,
                        }),
                    ),
                ),
            ),
    {
        check_role(roles, PARAMETERS_ADMIN)?;
        if market_rule_id as usize >= self.rule_count() {
            return Err(LendingPoolError::MarketRuleInvalidId);
        }
        let id = match self.reserve_id(&asset) {
            Some(id) => id,
            None => {
                return Err(LendingPoolError::MarketRuleInvalidAssetId);
            },
        };
        self.store_rule_entry(
            market_rule_id as usize,
            id,
            Some(AssetRules { collateral_coefficient_e6, borrow_coefficient_e6, penalty_e6 }),
        );
        Ok(())
    }
}

} // verus!
