//! The records that one action on one reserve reads and rewrites, with the
//! accrual that precedes every change and the checks that guard it.

use crate::account::Timestamp;
use crate::bitset::MAX_RESERVES;
use crate::config::{AssetRules, UserConfig};
use crate::errors::{lift, LendingPoolError};
use crate::fixed::MathError;
use crate::position::{AccruedInterest, UserReserveData};
use crate::reserve::ReserveData;
use vstd::prelude::*;

verus! {

/// The reserve of an asset, the position of one user in it, and that user's
/// configuration.
#[derive(Clone, Copy, Debug, PartialEq, Eq)]
pub struct Records {
    pub reserve: ReserveData,
    pub position: UserReserveData,
    pub config: UserConfig,
}

/// What an action asks of the collaborators once it has been applied: the
/// amount of the asset to move, and the change of the user's balance that
/// each wrapped-balance token is to be told of.
#[derive(Clone, Copy, Debug, PartialEq, Eq)]
pub struct Receipt {
    /// Amount of the asset that enters or leaves the pool.
    pub amount: u128,
    /// Change of the user's deposit.
    pub a_token_delta: i128,
    /// Change of the user's variable debt.
    pub v_token_delta: i128,
    /// Change of the user's stable debt.
    pub s_token_delta: i128,
    /// The rate of the loan, where the action opened a stable loan.
    pub stable_rate_e24: Option<u128>,
}

/// The value `x` as an `i128`, or the error that says on which side it left
/// the range.
pub open spec fn signed_spec(x: int) -> Result<i128, MathError> {
    if x < i128::MIN {
        Err(MathError::Underflow)
    } else if x > i128::MAX {
        Err(MathError::Overflow)
    } else {
        Ok(x as i128)
    }
}

/// `plus - minus` as a signed change.
pub fn signed_delta(plus: u128, minus: u128) -> (r: Result<i128, MathError>)
    ensures
        r == signed_spec(plus - minus),
{
    let top: u128 = 0x7fff_ffff_ffff_ffff_ffff_ffff_ffff_ffff;
    if plus >= minus {
        let d: u128 = plus - minus;
        if d > top {
            Err(MathError::Overflow)
        } else {
            Ok(d as i128)
        }
    } else {
        let d: u128 = minus - plus;
        if d > top + 1 {
            Err(MathError::Underflow)
        } else if d == top + 1 {
            Ok(i128::MIN)
        } else {
            Ok(-(d as i128))
        }
    }
}

/// Converts the error of a fixed-point computation into the pool's.
pub fn lifted<T>(r: Result<T, MathError>) -> (out: Result<T, LendingPoolError>)
    ensures
        out == lift(r),
{
    match r {
        Ok(v) => Ok(v),
        Err(e) => Err(LendingPoolError::MathError(e)),
    }
}

/// A reserve takes part in actions only while it is active.
pub open spec fn activeness_spec(reserve: ReserveData) -> Result<(), LendingPoolError> {
    if !reserve.active {
        Err(LendingPoolError::Inactive)
    } else {
        Ok(())
    }
}

/// New supply and new debt are taken only by a reserve that is active and
/// not frozen.
pub open spec fn open_for_increase_spec(reserve: ReserveData) -> Result<(), LendingPoolError> {
    if !reserve.active {
        Err(LendingPoolError::Inactive)
    } else if reserve.frozen {
        Err(LendingPoolError::Freezed)
    } else {
        Ok(())
    }
}

/// Debt is opened only in a reserve that is open for increase and that the
/// market rule allows to be borrowed.
pub open spec fn borrowing_enabled_spec(reserve: ReserveData, entry: Option<AssetRules>) -> Result<
    (),
    LendingPoolError,
> {
    match open_for_increase_spec(reserve) {
        Err(e) => Err(e),
        Ok(()) => match entry {
            Some(AssetRules { borrow_coefficient_e6: Some(_), .. }) => Ok(()),
            _ => Err(LendingPoolError::RuleBorrowDisable),
        },
    }
}

/// A debt is either nothing or at least the reserve's minimal debt.
pub open spec fn enough_debt_spec(reserve: ReserveData, debt: u128) -> Result<
    (),
    LendingPoolError,
> {
    if debt != 0 && debt < reserve.restrictions.minimal_debt {
        Err(LendingPoolError::MinimalDebt)
    } else {
        Ok(())
    }
}

/// The total supplied stays within the reserve's ceiling.
pub open spec fn max_total_supply_spec(reserve: ReserveData) -> Result<(), LendingPoolError> {
    match reserve.restrictions.maximal_total_supply {
        Some(max) if reserve.total_supplied > max => Err(LendingPoolError::MaxSupplyReached),
        _ => Ok(()),
    }
}

/// The total debt stays within the reserve's ceiling.
pub open spec fn max_total_debt_spec(reserve: ReserveData) -> Result<(), LendingPoolError> {
    match reserve.restrictions.maximal_total_debt {
        Some(max) if reserve.total_debt() > max => Err(LendingPoolError::MaxDebtReached),
        _ => Ok(()),
    }
}

/// A deposit may serve as collateral when it is not empty and reaches the
/// reserve's minimal collateral.
pub open spec fn enough_supply_to_be_collateral_spec(
    reserve: ReserveData,
    position: UserReserveData,
) -> Result<(), LendingPoolError> {
    if position.supplied == 0 {
        Err(LendingPoolError::InsufficientDeposit)
    } else if position.supplied < reserve.restrictions.minimal_collateral {
        Err(LendingPoolError::MinimalCollateralDeposit)
    } else {
        Ok(())
    }
}

pub fn check_activeness(reserve: &ReserveData) -> (r: Result<(), LendingPoolError>)
    ensures
        r == activeness_spec(*reserve),
{
    if !reserve.active {
        return Err(LendingPoolError::Inactive);
    }
    Ok(())
}

pub fn check_deposit_enabled(reserve: &ReserveData) -> (r: Result<(), LendingPoolError>)
    ensures
        r == open_for_increase_spec(*reserve),
{
    if !reserve.active {
        return Err(LendingPoolError::Inactive);
    }
    if reserve.frozen {
        return Err(LendingPoolError::Freezed);
    }
    Ok(())
}

pub fn check_borrowing_enabled(reserve: &ReserveData, entry: &Option<AssetRules>) -> (r: Result<
    (),
    LendingPoolError,
>)
    ensures
        r == borrowing_enabled_spec(*reserve, *entry),
{
    check_deposit_enabled(reserve)?;
    match entry {
        Some(rules) => {
            if rules.borrow_coefficient_e6.is_some() {
                Ok(())
            } else {
                Err(LendingPoolError::RuleBorrowDisable)
            }
        },
        None => Err(LendingPoolError::RuleBorrowDisable),
    }
}

pub fn check_enough_variable_debt(reserve: &ReserveData, position: &UserReserveData) -> (r: Result<
    (),
    LendingPoolError,
>)
    ensures
        r == enough_debt_spec(*reserve, position.variable_borrowed),
{
    if position.variable_borrowed != 0 && position.variable_borrowed
        < reserve.restrictions.minimal_debt {
        return Err(LendingPoolError::MinimalDebt);
    }
    Ok(())
}

pub fn check_enough_stable_debt(reserve: &ReserveData, position: &UserReserveData) -> (r: Result<
    (),
    LendingPoolError,
>)
    ensures
        r == enough_debt_spec(*reserve, position.stable_borrowed),
{
    if position.stable_borrowed != 0 && position.stable_borrowed
        < reserve.restrictions.minimal_debt {
        return Err(LendingPoolError::MinimalDebt);
    }
    Ok(())
}

pub fn check_max_total_supply(reserve: &ReserveData) -> (r: Result<(), LendingPoolError>)
    ensures
        r == max_total_supply_spec(*reserve),
{
    match reserve.restrictions.maximal_total_supply {
        Some(max) => {
            if reserve.total_supplied > max {
                Err(LendingPoolError::MaxSupplyReached)
            } else {
                Ok(())
            }
        },
        None => Ok(()),
    }
}

pub fn check_max_total_debt(reserve: &ReserveData) -> (r: Result<(), LendingPoolError>)
    ensures
        r == max_total_debt_spec(*reserve),
{
    match reserve.restrictions.maximal_total_debt {
        Some(max) => {
            if reserve.total_variable_borrowed > max || reserve.sum_stable_debt > max
                - reserve.total_variable_borrowed {
                Err(LendingPoolError::MaxDebtReached)
            } else {
                Ok(())
            }
        },
        None => Ok(()),
    }
}

pub fn check_enough_supply_to_be_collateral(
    reserve: &ReserveData,
    position: &UserReserveData,
) -> (r: Result<(), LendingPoolError>)
    ensures
        r == enough_supply_to_be_collateral_spec(*reserve, *position),
{
    if position.supplied == 0 {
        return Err(LendingPoolError::InsufficientDeposit);
    }
    if position.supplied < reserve.restrictions.minimal_collateral {
        return Err(LendingPoolError::MinimalCollateralDeposit);
    }
    Ok(())
}

/// Whether the membership sets of `config` say of reserve `id` what the
/// balances of `position` say: a member exactly where the balance is not zero.
pub open spec fn bits_match(config: UserConfig, position: UserReserveData, id: int) -> bool {
    &&& config.deposits@.contains(id) <==> position.supplied != 0
    &&& config.borrows_variable@.contains(id) <==> position.variable_borrowed != 0
    &&& config.borrows_stable@.contains(id) <==> position.stable_borrowed != 0
}

/// Whether two configurations differ at most in what they say of reserve
/// `id`.
pub open spec fn same_elsewhere(before: UserConfig, after: UserConfig, id: int) -> bool {
    &&& after.market_rule_id == before.market_rule_id
    &&& forall|j: int|
        j != id ==> #[trigger] after.deposits@.contains(j) == before.deposits@.contains(j)
    &&& forall|j: int|
        j != id ==> #[trigger] after.collaterals@.contains(j) == before.collaterals@.contains(j)
    &&& forall|j: int|
        j != id ==> #[trigger] after.borrows_variable@.contains(j)
            == before.borrows_variable@.contains(j)
    &&& forall|j: int|
        j != id ==> #[trigger] after.borrows_stable@.contains(j) == before.borrows_stable@.contains(
            j,
        )
}

/// Whether a transition kept the reserve's identity, left the user's
/// memberships in other reserves alone, and kept the membership sets in
/// agreement with the balances in this one.
pub open spec fn keeps_membership(before: Records, after: Records) -> bool {
    &&& after.reserve.id == before.reserve.id
    &&& same_elsewhere(before.config, after.config, before.reserve.id as int)
    &&& bits_match(before.config, before.position, before.reserve.id as int) ==> bits_match(
        after.config,
        after.position,
        before.reserve.id as int,
    )
}

proof fn lemma_nothing_grows_to_nothing(x: int, d: int)
    by (nonlinear_arith)
    requires
        d != 0,
    ensures
        (0 * x) / d == 0,
{
}

impl Records {
    /// Accrual changes neither the configuration nor the reserve's identity,
    /// and a balance is zero after it exactly when it was zero before.
    pub proof fn lemma_accrual_keeps_membership(self, now: Timestamp)
        ensures
            match self.accrued(now) {
                Ok((after, _)) => {
                    &&& after.config == self.config
                    &&& after.reserve.id == self.reserve.id
                    &&& after.position.supplied == 0 <==> self.position.supplied == 0
                    &&& after.position.variable_borrowed == 0 <==> self.position.variable_borrowed
                        == 0
                    &&& after.position.stable_borrowed == 0 <==> self.position.stable_borrowed == 0
                },
                Err(_) => true,
            },
    {
        if let Ok(reserve) = self.reserve.accrued(now) {
            (Records { reserve, ..self }).lemma_reconciliation_keeps_membership();
        }
    }

    /// Reconciliation changes neither the configuration nor the reserve's
    /// identity, and a balance is zero after it exactly when it was zero
    /// before.
    pub proof fn lemma_reconciliation_keeps_membership(self)
        ensures
            match self.position.reconciled(self.reserve) {
                Ok(done) => {
                    &&& done.reserve.id == self.reserve.id
                    &&& done.reserve.restrictions == self.reserve.restrictions
                    &&& done.position.supplied == 0 <==> self.position.supplied == 0
                    &&& done.position.variable_borrowed == 0 <==> self.position.variable_borrowed
                        == 0
                    &&& done.position.stable_borrowed == 0 <==> self.position.stable_borrowed == 0
                },
                Err(_) => true,
            },
    {
        let p = self.position;
        let reserve = self.reserve;
        if p.applied_indexes.cumulative_deposit_index_e18 != 0 {
            lemma_nothing_grows_to_nothing(
                reserve.indexes.cumulative_deposit_index_e18 as int,
                p.applied_indexes.cumulative_deposit_index_e18 as int,
            );
        }
        if p.applied_indexes.cumulative_debt_index_e18 != 0 {
            lemma_nothing_grows_to_nothing(
                reserve.indexes.cumulative_debt_index_e18 as int,
                p.applied_indexes.cumulative_debt_index_e18 as int,
            );
        }
        if reserve.last_update_timestamp >= p.update_timestamp {
            lemma_nothing_grows_to_nothing(
                p.stable_borrow_rate_e24 * (reserve.last_update_timestamp - p.update_timestamp),
                crate::fixed::E24 as int,
            );
        }
    }

    /// Whether the reserve's id can stand in a membership set.
    pub open spec fn wf(self) -> bool {
        self.reserve.id < MAX_RESERVES
    }

    /// The records with interest accrued up to `now`: first the reserve, then
    /// the position against the reserve's new indices.
    pub open spec fn accrued(self, now: Timestamp) -> Result<(Records, AccruedInterest), MathError> {
        match self.reserve.accrued(now) {
            Err(e) => Err(e),
            Ok(reserve) => match self.position.reconciled(reserve) {
                Err(e) => Err(e),
                Ok(done) => Ok(
                    (
                        Records { reserve: done.reserve, position: done.position, ..self },
                        done.interest,
                    ),
                ),
            },
        }
    }

    /// Accrues interest on the reserve and then on the position.
    pub fn accumulate_interest(&self, now: Timestamp) -> (r: Result<
        (Records, AccruedInterest),
        MathError,
    >)
        ensures
            r == self.accrued(now),
    {
        let mut reserve = self.reserve;
        let mut position = self.position;
        reserve.accumulate_interest(now)?;
        let interest = position.accumulate_user_interest(&mut reserve)?;
        Ok((Records { reserve, position, config: self.config }, interest))
    }
}

} // verus!
