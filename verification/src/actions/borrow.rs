//! Borrow and repay, at a variable or at a stable rate, and the collateral
//! flag.

use crate::account::{AccountId, Timestamp};
use crate::actions::deposit::{amount_or_all, make_receipt, receipt_spec, Balance};
use crate::config::{AssetRules, UserConfig};
use crate::errors::{lift, LendingPoolError};
use crate::fixed::{
    checked, checked_diff, checked_sum, mul_add_mul_div, mul_add_mul_div_spec, mul_sub_mul_div,
    mul_sub_mul_div_spec, MathError,
};
use crate::pool::{LendingPool, PoolView};
use crate::position::UserReserveData;
use crate::records::{
    activeness_spec, borrowing_enabled_spec, check_activeness, check_borrowing_enabled,
    check_enough_stable_debt, check_enough_supply_to_be_collateral, check_enough_variable_debt,
    check_max_total_debt, enough_debt_spec, enough_supply_to_be_collateral_spec,
    keeps_membership, lifted, max_total_debt_spec, Receipt, Records,
};
use crate::reserve::{stable_rate_after_borrow_spec, ReserveData};
use vstd::prelude::*;

verus! {

/// The mode byte that selects variable-rate debt.
pub const MODE_VARIABLE: u8 = 0;

/// The mode byte that selects stable-rate debt.
pub const MODE_STABLE: u8 = 1;

/// The average of `rate` and `new_rate`, weighted by `principal` and
/// `amount`, rounded down.
pub open spec fn weighted_mean_spec(rate: int, principal: int, new_rate: int, amount: int) -> Result<
    u128,
    MathError,
> {
    match checked(principal + amount) {
        Err(e) => Err(e),
        Ok(total) => mul_add_mul_div_spec(rate, principal, new_rate, amount, total as int),
    }
}

/// The rate of a stable position of `principal` at `rate` after `amount` more
/// was borrowed at `new_rate`: the weighted average of the two, rounded down,
/// and one unit on top.
pub open spec fn blended_rate_spec(rate: int, principal: int, new_rate: int, amount: int) -> Result<
    u128,
    MathError,
> {
    match weighted_mean_spec(rate, principal, new_rate, amount) {
        Err(e) => Err(e),
        Ok(mean) => checked(mean + 1),
    }
}

/// The average stable rate of a reserve with `sum` of stable debt at
/// `average` after `amount` at `rate` was repaid: the weighted average of what
/// is left, and zero when nothing is left.
pub open spec fn average_after_repay_spec(average: int, sum: int, rate: int, amount: int) -> Result<
    u128,
    MathError,
> {
    if sum > amount {
        mul_sub_mul_div_spec(average, sum, rate, amount, sum - amount)
    } else {
        Ok(0)
    }
}

/// Computes the weighted average of two rates.
pub fn weighted_mean(rate: u128, principal: u128, new_rate: u128, amount: u128) -> (r: Result<
    u128,
    MathError,
>)
    ensures
        r == weighted_mean_spec(rate as int, principal as int, new_rate as int, amount as int),
{
    let total = checked_sum(principal, amount)?;
    mul_add_mul_div(rate, principal, new_rate, amount, total)
}

/// Computes the rate of a stable position after a further loan.
pub fn blended_rate(rate: u128, principal: u128, new_rate: u128, amount: u128) -> (r: Result<
    u128,
    MathError,
>)
    ensures
        r == blended_rate_spec(rate as int, principal as int, new_rate as int, amount as int),
{
    let mean = weighted_mean(rate, principal, new_rate, amount)?;
    checked_sum(mean, 1)
}

/// The records after `amount` was borrowed at the variable rate.
pub open spec fn borrow_variable_spec(records: Records, amount: u128) -> Result<
    Records,
    MathError,
> {
    match checked(records.position.variable_borrowed + amount) {
        Err(e) => Err(e),
        Ok(borrowed) => match checked(records.reserve.total_variable_borrowed + amount) {
            Err(e) => Err(e),
            Ok(total) => Ok(
                Records {
                    reserve: ReserveData { total_variable_borrowed: total, ..records.reserve },
                    position: UserReserveData { variable_borrowed: borrowed, ..records.position },
                    config: UserConfig {
                        borrows_variable: records.config.borrows_variable.inserted(
                            records.reserve.id,
                        ),
                        ..records.config
                    },
                },
            ),
        },
    }
}

/// The records after `amount` was borrowed at the stable rate that the
/// reserve offers for it, and that rate. The user's rate becomes the blend of
/// the old rate and the loan's, the reserve's average the weighted average of
/// the old average and the loan's rate.
pub open spec fn borrow_stable_spec(records: Records, amount: u128) -> Result<
    (Records, u128),
    MathError,
> {
    match stable_rate_after_borrow_spec(records.reserve, amount as int) {
        Err(e) => Err(e),
        Ok(loan_rate) => match blended_rate_spec(
            records.position.stable_borrow_rate_e24 as int,
            records.position.stable_borrowed as int,
            loan_rate as int,
            amount as int,
        ) {
            Err(e) => Err(e),
            Ok(user_rate) => match weighted_mean_spec(
                records.reserve.average_stable_rate_e24 as int,
                records.reserve.sum_stable_debt as int,
                loan_rate as int,
                amount as int,
            ) {
                Err(e) => Err(e),
                Ok(average) => Ok(
                    (
                        Records {
                            reserve: ReserveData {
                                average_stable_rate_e24: average,
                                sum_stable_debt: (records.reserve.sum_stable_debt + amount) as u128,
                                ..records.reserve
                            },
                            position: UserReserveData {
                                stable_borrow_rate_e24: user_rate,
                                stable_borrowed: (records.position.stable_borrowed
                                    + amount) as u128,
                                ..records.position
                            },
                            config: UserConfig {
                                borrows_stable: records.config.borrows_stable.inserted(
                                    records.reserve.id,
                                ),
                                ..records.config
                            },
                        },
                        loan_rate,
                    ),
                ),
            },
        },
    }
}

/// The records after `amount` of variable debt, or all of it when none is
/// named, was repaid, and the amount repaid. The amount is positive and
/// within the debt, and the reserve's total holds it.
pub open spec fn repay_variable_spec(records: Records, amount: Option<u128>) -> Result<
    (Records, u128),
    LendingPoolError,
> {
    let repaid = amount_or_all(amount, records.position.variable_borrowed);
    if repaid == 0 {
        Err(LendingPoolError::AmountNotGreaterThanZero)
    } else if repaid > records.position.variable_borrowed {
        Err(LendingPoolError::AmountExceedsUserDebt)
    } else {
        match lift(checked(records.reserve.total_variable_borrowed - repaid)) {
            Err(e) => Err(e),
            Ok(total) => Ok(
                (
                    Records {
                        reserve: ReserveData { total_variable_borrowed: total, ..records.reserve },
                        position: UserReserveData {
                            variable_borrowed: (records.position.variable_borrowed
                                - repaid) as u128,
                            ..records.position
                        },
                        config: UserConfig {
                            borrows_variable: if repaid == records.position.variable_borrowed {
                                records.config.borrows_variable.removed(records.reserve.id)
                            } else {
                                records.config.borrows_variable
                            },
                            ..records.config
                        },
                    },
                    repaid,
                ),
            ),
        }
    }
}

/// The records after `amount` of stable debt, or all of it when none is
/// named, was repaid, and the amount repaid. The amount is positive and
/// within the debt, the reserve's sum of stable debt holds it, and the
/// average rate of what is left has a value.
pub open spec fn repay_stable_spec(records: Records, amount: Option<u128>) -> Result<
    (Records, u128),
    LendingPoolError,
> {
    let repaid = amount_or_all(amount, records.position.stable_borrowed);
    if repaid == 0 {
        Err(LendingPoolError::AmountNotGreaterThanZero)
    } else if repaid > records.position.stable_borrowed {
        Err(LendingPoolError::AmountExceedsUserDebt)
    } else {
        match lift(checked(records.reserve.sum_stable_debt - repaid)) {
            Err(e) => Err(e),
            Ok(sum) => match lift(
                average_after_repay_spec(
                    records.reserve.average_stable_rate_e24 as int,
                    records.reserve.sum_stable_debt as int,
                    records.position.stable_borrow_rate_e24 as int,
                    repaid as int,
                ),
            ) {
                Err(e) => Err(e),
                Ok(average) => Ok(
                    (
                        Records {
                            reserve: ReserveData {
                                average_stable_rate_e24: average,
                                sum_stable_debt: sum,
                                ..records.reserve
                            },
                            position: UserReserveData {
                                stable_borrowed: (records.position.stable_borrowed
                                    - repaid) as u128,
                                ..records.position
                            },
                            config: UserConfig {
                                borrows_stable: if repaid == records.position.stable_borrowed {
                                    records.config.borrows_stable.removed(records.reserve.id)
                                } else {
                                    records.config.borrows_stable
                                },
                                ..records.config
                            },
                        },
                        repaid,
                    ),
                ),
            },
        }
    }
}

/// What a repayment of `amount`, or of all of `debt` when none is named,
/// repays: the amount is positive and within the debt, and what is left of
/// the debt is nothing or at least the reserve's minimal debt.
pub open spec fn repaid_amount_spec(reserve: ReserveData, debt: u128, amount: Option<u128>) -> Result<
    u128,
    LendingPoolError,
> {
    let repaid = amount_or_all(amount, debt);
    if repaid == 0 {
        Err(LendingPoolError::AmountNotGreaterThanZero)
    } else if repaid > debt {
        Err(LendingPoolError::AmountExceedsUserDebt)
    } else {
        match enough_debt_spec(reserve, (debt - repaid) as u128) {
            Err(e) => Err(e),
            Ok(()) => Ok(repaid),
        }
    }
}

/// Tells what a repayment repays, or why it is refused.
pub fn repaid_amount(reserve: &ReserveData, debt: u128, amount: Option<u128>) -> (r: Result<
    u128,
    LendingPoolError,
>)
    ensures
        r == repaid_amount_spec(*reserve, debt, amount),
{
    let repaid: u128 = match amount {
        Some(v) => v,
        None => debt,
    };
    if repaid == 0 {
        return Err(LendingPoolError::AmountNotGreaterThanZero);
    }
    if repaid > debt {
        return Err(LendingPoolError::AmountExceedsUserDebt);
    }
    let left: u128 = debt - repaid;
    if left != 0 && left < reserve.restrictions.minimal_debt {
        return Err(LendingPoolError::MinimalDebt);
    }
    Ok(repaid)
}

pub fn change_state_borrow_variable(records: &Records, amount: u128) -> (r: Result<
    Records,
    MathError,
>)
    requires
        records.wf(),
    ensures
        r == borrow_variable_spec(*records, amount),
{
    let mut reserve = records.reserve;
    let mut position = records.position;
    let mut config = records.config;
    config.borrows_variable.insert(reserve.id);
    position.variable_borrowed = checked_sum(position.variable_borrowed, amount)?;
    reserve.total_variable_borrowed = checked_sum(reserve.total_variable_borrowed, amount)?;
    Ok(Records { reserve, position, config })
}

pub fn change_state_borrow_stable(records: &Records, amount: u128) -> (r: Result<
    (Records, u128),
    MathError,
>)
    requires
        records.wf(),
    ensures
        r == borrow_stable_spec(*records, amount),
{
    let mut reserve = records.reserve;
    let mut position = records.position;
    let mut config = records.config;
    config.borrows_stable.insert(reserve.id);
    let loan_rate = reserve.after_borrow_stable_borrow_rate_e24(amount)?;
    position.stable_borrow_rate_e24 = blended_rate(
        position.stable_borrow_rate_e24,
        position.stable_borrowed,
        loan_rate,
        amount,
    )?;
    position.stable_borrowed = checked_sum(position.stable_borrowed, amount)?;
    reserve.average_stable_rate_e24 = weighted_mean(
        reserve.average_stable_rate_e24,
        reserve.sum_stable_debt,
        loan_rate,
        amount,
    )?;
    reserve.sum_stable_debt = checked_sum(reserve.sum_stable_debt, amount)?;
    Ok((Records { reserve, position, config }, loan_rate))
}

pub fn change_state_repay_variable(records: &Records, amount: Option<u128>) -> (r: Result<
    (Records, u128),
    LendingPoolError,
>)
    requires
        records.wf(),
    ensures
        r == repay_variable_spec(*records, amount),
{
    let mut reserve = records.reserve;
    let mut position = records.position;
    let mut config = records.config;
    let repaid: u128 = match amount {
        Some(v) => v,
        None => position.variable_borrowed,
    };
    if repaid == 0 {
        return Err(LendingPoolError::AmountNotGreaterThanZero);
    }
    if repaid > position.variable_borrowed {
        return Err(LendingPoolError::AmountExceedsUserDebt);
    }
    if repaid == position.variable_borrowed {
        config.borrows_variable.remove(reserve.id);
    }
    position.variable_borrowed = position.variable_borrowed - repaid;
    reserve.total_variable_borrowed = lifted(
        checked_diff(reserve.total_variable_borrowed, repaid),
    )?;
    Ok((Records { reserve, position, config }, repaid))
}

pub fn change_state_repay_stable(records: &Records, amount: Option<u128>) -> (r: Result<
    (Records, u128),
    LendingPoolError,
>)
    requires
        records.wf(),
    ensures
        r == repay_stable_spec(*records, amount),
{
    let mut reserve = records.reserve;
    let mut position = records.position;
    let mut config = records.config;
    let repaid: u128 = match amount {
        Some(v) => v,
        None => position.stable_borrowed,
    };
    if repaid == 0 {
        return Err(LendingPoolError::AmountNotGreaterThanZero);
    }
    if repaid > position.stable_borrowed {
        return Err(LendingPoolError::AmountExceedsUserDebt);
    }
    if repaid == position.stable_borrowed {
        config.borrows_stable.remove(reserve.id);
    }
    position.stable_borrowed = position.stable_borrowed - repaid;
    let sum = lifted(checked_diff(reserve.sum_stable_debt, repaid))?;
    reserve.average_stable_rate_e24 = if reserve.sum_stable_debt > repaid {
        lifted(
            mul_sub_mul_div(
                reserve.average_stable_rate_e24,
                reserve.sum_stable_debt,
                position.stable_borrow_rate_e24,
                repaid,
                reserve.sum_stable_debt - repaid,
            ),
        )?
    } else {
        0
    };
    reserve.sum_stable_debt = sum;
    Ok((Records { reserve, position, config }, repaid))
}

/// What follows a change of debt: the rates are derived anew and the total
/// debt stays within the reserve's ceiling where the debt grew.
pub open spec fn settle_spec(records: Records, receipt: Receipt, grew: bool) -> Result<
    (Records, Receipt),
    LendingPoolError,
> {
    match lift(records.reserve.recalculated()) {
        Err(e) => Err(e),
        Ok(reserve) => match (if grew {
            max_total_debt_spec(reserve)
        } else {
            Ok(())
        }) {
            Err(e) => Err(e),
            Ok(()) => Ok((Records { reserve, ..records }, receipt)),
        },
    }
}

/// A loan of `amount` in the mode that the first byte of `data` selects,
/// under the market rule entry `entry` of the reserve: the mode is named and
/// the amount positive; interest accrues; borrowing is enabled; the amount is
/// added to the user's debt of that mode and to the reserve's, the reserve
/// becomes a member of the user's borrows of that mode, the resulting debt is
/// at least the reserve's minimal debt, the rates are derived anew and the
/// total debt stays within the ceiling.
pub open spec fn borrow_spec(
    records: Records,
    entry: Option<AssetRules>,
    amount: u128,
    data: Seq<u8>,
    now: Timestamp,
) -> Result<(Records, Receipt), LendingPoolError> {
    if data.len() == 0 {
        Err(LendingPoolError::UnspecifiedAction)
    } else if amount == 0 {
        Err(LendingPoolError::AmountNotGreaterThanZero)
    } else {
        match lift(records.accrued(now)) {
            Err(e) => Err(e),
            Ok((accrued, interest)) => if data[0] == MODE_VARIABLE {
                match borrowing_enabled_spec(accrued.reserve, entry) {
                    Err(e) => Err(e),
                    Ok(()) => match lift(borrow_variable_spec(accrued, amount)) {
                        Err(e) => Err(e),
                        Ok(next) => match enough_debt_spec(
                            next.reserve,
                            next.position.variable_borrowed,
                        ) {
                            Err(e) => Err(e),
                            Ok(()) => match lift(
                                receipt_spec(
                                    amount,
                                    interest,
                                    Balance::VariableDebt,
                                    amount as int,
                                    None,
                                ),
                            ) {
                                Err(e) => Err(e),
                                Ok(receipt) => settle_spec(next, receipt, true),
                            },
                        },
                    },
                }
            } else if data[0] == MODE_STABLE {
                match borrowing_enabled_spec(accrued.reserve, entry) {
                    Err(e) => Err(e),
                    Ok(()) => match lift(borrow_stable_spec(accrued, amount)) {
                        Err(e) => Err(e),
                        Ok((next, loan_rate)) => match enough_debt_spec(
                            next.reserve,
                            next.position.stable_borrowed,
                        ) {
                            Err(e) => Err(e),
                            Ok(()) => match lift(
                                receipt_spec(
                                    amount,
                                    interest,
                                    Balance::StableDebt,
                                    amount as int,
                                    Some(loan_rate),
                                ),
                            ) {
                                Err(e) => Err(e),
                                Ok(receipt) => settle_spec(next, receipt, true),
                            },
                        },
                    },
                }
            } else {
                Err(LendingPoolError::UnspecifiedAction)
            },
        }
    }
}

/// A repayment of `amount`, or of the whole debt when none is named, in the
/// mode that the first byte of `data` selects: the mode is named and the
/// reserve active; interest accrues; the amount is positive and within the
/// debt, and what it leaves of the debt is nothing or at least the reserve's
/// minimal debt; it is taken from the user's debt and from the reserve's,
/// which has to hold it; the reserve leaves the user's borrows of that mode
/// when nothing is left, and the rates are derived anew.
pub open spec fn repay_spec(
    records: Records,
    amount: Option<u128>,
    data: Seq<u8>,
    now: Timestamp,
) -> Result<(Records, Receipt), LendingPoolError> {
    if data.len() == 0 {
        Err(LendingPoolError::UnspecifiedAction)
    } else {
        match activeness_spec(records.reserve) {
            Err(e) => Err(e),
            Ok(()) => match lift(records.accrued(now)) {
                Err(e) => Err(e),
                Ok((accrued, interest)) => if data[0] == MODE_VARIABLE {
                    match repaid_amount_spec(
                        accrued.reserve,
                        accrued.position.variable_borrowed,
                        amount,
                    ) {
                        Err(e) => Err(e),
                        Ok(_) => match repay_variable_spec(accrued, amount) {
                            Err(e) => Err(e),
                            Ok((next, repaid)) => match lift(
                                receipt_spec(
                                    repaid,
                                    interest,
                                    Balance::VariableDebt,
                                    -(repaid as int),
                                    None,
                                ),
                            ) {
                                Err(e) => Err(e),
                                Ok(receipt) => settle_spec(next, receipt, false),
                            },
                        },
                    }
                } else if data[0] == MODE_STABLE {
                    match repaid_amount_spec(
                        accrued.reserve,
                        accrued.position.stable_borrowed,
                        amount,
                    ) {
                        Err(e) => Err(e),
                        Ok(_) => match repay_stable_spec(accrued, amount) {
                            Err(e) => Err(e),
                            Ok((next, repaid)) => match lift(
                                receipt_spec(
                                    repaid,
                                    interest,
                                    Balance::StableDebt,
                                    -(repaid as int),
                                    None,
                                ),
                            ) {
                                Err(e) => Err(e),
                                Ok(receipt) => settle_spec(next, receipt, false),
                            },
                        },
                    }
                } else {
                    Err(LendingPoolError::UnspecifiedAction)
                },
            },
        }
    }
}

fn settle(records: Records, receipt: Receipt, grew: bool) -> (r: Result<
    (Records, Receipt),
    LendingPoolError,
>)
    ensures
        r == settle_spec(records, receipt, grew),
{
    let mut reserve = records.reserve;
    lifted(reserve.recalculate_current_rates())?;
    if grew {
        check_max_total_debt(&reserve)?;
    }
    Ok((Records { reserve, position: records.position, config: records.config }, receipt))
}

/// A loan keeps the membership sets in agreement with the balances.
pub proof fn lemma_borrow_keeps_membership(
    records: Records,
    entry: Option<AssetRules>,
    amount: u128,
    data: Seq<u8>,
    now: Timestamp,
)
    requires
        records.wf(),
    ensures
        match borrow_spec(records, entry, amount, data, now) {
            Ok((after, _)) => keeps_membership(records, after),
            Err(_) => true,
        },
{
    records.lemma_accrual_keeps_membership(now);
    records.config.borrows_variable.lemma_inserted(records.reserve.id);
    records.config.borrows_stable.lemma_inserted(records.reserve.id);
}

/// A repayment keeps the membership sets in agreement with the balances.
pub proof fn lemma_repay_keeps_membership(
    records: Records,
    amount: Option<u128>,
    data: Seq<u8>,
    now: Timestamp,
)
    requires
        records.wf(),
    ensures
        match repay_spec(records, amount, data, now) {
            Ok((after, _)) => keeps_membership(records, after),
            Err(_) => true,
        },
{
    records.lemma_accrual_keeps_membership(now);
    records.config.borrows_variable.lemma_removed(records.reserve.id);
    records.config.borrows_stable.lemma_removed(records.reserve.id);
}

/// Applies a loan to the records it touches.
pub fn borrow_step(
    records: &Records,
    entry: &Option<AssetRules>,
    amount: u128,
    data: &Vec<u8>,
    now: Timestamp,
) -> (r: Result<(Records, Receipt), LendingPoolError>)
    requires
        records.wf(),
    ensures
        r == borrow_spec(*records, *entry, amount, data@, now),
{
    if data.len() == 0 {
        return Err(LendingPoolError::UnspecifiedAction);
    }
    if amount == 0 {
        return Err(LendingPoolError::AmountNotGreaterThanZero);
    }
    let (accrued, interest) = lifted(records.accumulate_interest(now))?;
    let mode: u8 = data[0];
    if mode == MODE_VARIABLE {
        check_borrowing_enabled(&accrued.reserve, entry)?;
        let next = lifted(change_state_borrow_variable(&accrued, amount))?;
        check_enough_variable_debt(&next.reserve, &next.position)?;
        let receipt = lifted(make_receipt(amount, &interest, Balance::VariableDebt, true, None))?;
        settle(next, receipt, true)
    } else if mode == MODE_STABLE {
        check_borrowing_enabled(&accrued.reserve, entry)?;
        let (next, loan_rate) = lifted(change_state_borrow_stable(&accrued, amount))?;
        check_enough_stable_debt(&next.reserve, &next.position)?;
        let receipt = lifted(
            make_receipt(amount, &interest, Balance::StableDebt, true, Some(loan_rate)),
        )?;
        settle(next, receipt, true)
    } else {
        Err(LendingPoolError::UnspecifiedAction)
    }
}

/// Applies a repayment to the records it touches.
pub fn repay_step(records: &Records, amount: Option<u128>, data: &Vec<u8>, now: Timestamp) -> (r:
    Result<(Records, Receipt), LendingPoolError>)
    requires
        records.wf(),
    ensures
        r == repay_spec(*records, amount, data@, now),
{
    if data.len() == 0 {
        return Err(LendingPoolError::UnspecifiedAction);
    }
    check_activeness(&records.reserve)?;
    let (accrued, interest) = lifted(records.accumulate_interest(now))?;
    let mode: u8 = data[0];
    if mode == MODE_VARIABLE {
        repaid_amount(&accrued.reserve, accrued.position.variable_borrowed, amount)?;
        let (next, repaid) = change_state_repay_variable(&accrued, amount)?;
        let receipt = lifted(make_receipt(repaid, &interest, Balance::VariableDebt, false, None))?;
        settle(next, receipt, false)
    } else if mode == MODE_STABLE {
        repaid_amount(&accrued.reserve, accrued.position.stable_borrowed, amount)?;
        let (next, repaid) = change_state_repay_stable(&accrued, amount)?;
        let receipt = lifted(make_receipt(repaid, &interest, Balance::StableDebt, false, None))?;
        settle(next, receipt, false)
    } else {
        Err(LendingPoolError::UnspecifiedAction)
    }
}

/// Setting the collateral flag of a reserve. To raise it the deposit has to
/// be able to serve as collateral and the market rule has to give the asset a
/// collateral coefficient; lowering it asks nothing of the records.
pub open spec fn set_as_collateral_spec(
    records: Records,
    entry: Option<AssetRules>,
    use_as_collateral: bool,
) -> Result<Records, LendingPoolError> {
    if use_as_collateral {
        match enough_supply_to_be_collateral_spec(records.reserve, records.position) {
            Err(e) => Err(e),
            Ok(()) => match entry {
                Some(AssetRules { collateral_coefficient_e6: Some(_), .. }) => Ok(
                    Records {
                        config: UserConfig {
                            collaterals: records.config.collaterals.inserted(records.reserve.id),
                            ..records.config
                        },
                        ..records
                    },
                ),
                _ => Err(LendingPoolError::RuleCollateralDisable),
            },
        }
    } else {
        Ok(
            Records {
                config: UserConfig {
                    collaterals: records.config.collaterals.removed(records.reserve.id),
                    ..records.config
                },
                ..records
            },
        )
    }
}

/// A change of the collateral flag keeps the membership sets in agreement
/// with the balances.
pub proof fn lemma_set_as_collateral_keeps_membership(
    records: Records,
    entry: Option<AssetRules>,
    use_as_collateral: bool,
)
    requires
        records.wf(),
    ensures
        match set_as_collateral_spec(records, entry, use_as_collateral) {
            Ok(after) => keeps_membership(records, after) && after.reserve == records.reserve
                && after.position == records.position,
            Err(_) => true,
        },
{
    records.config.collaterals.lemma_inserted(records.reserve.id);
    records.config.collaterals.lemma_removed(records.reserve.id);
}

/// Applies a change of the collateral flag to the records it touches.
pub fn set_as_collateral_step(
    records: &Records,
    entry: &Option<AssetRules>,
    use_as_collateral: bool,
) -> (r: Result<Records, LendingPoolError>)
    requires
        records.wf(),
    ensures
        r == set_as_collateral_spec(*records, *entry, use_as_collateral),
{
    let mut config = records.config;
    if use_as_collateral {
        check_enough_supply_to_be_collateral(&records.reserve, &records.position)?;
        let allowed = match entry {
            Some(rules) => rules.collateral_coefficient_e6.is_some(),
            None => false,
        };
        if !allowed {
            return Err(LendingPoolError::RuleCollateralDisable);
        }
        config.collaterals.insert(records.reserve.id);
    } else {
        config.collaterals.remove(records.reserve.id);
    }
    Ok(Records { reserve: records.reserve, position: records.position, config })
}

impl PoolView {
    /// The pool after `on_behalf_of` borrowed `amount` of `asset` at time
    /// `now` in the mode that `data` selects, and the receipt. The loan stands
    /// only if the collateral of the user covers the debt afterwards.
    pub open spec fn borrow(
        self,
        asset: AccountId,
        on_behalf_of: AccountId,
        amount: u128,
        data: Seq<u8>,
        prices: Seq<Option<u128>>,
        now: Timestamp,
    ) -> Result<(PoolView, Receipt), LendingPoolError> {
        if data.len() == 0 {
            Err(LendingPoolError::UnspecifiedAction)
        } else if amount == 0 {
            Err(LendingPoolError::AmountNotGreaterThanZero)
        } else {
            match self.asset_id(asset) {
                None => Err(LendingPoolError::AssetNotRegistered),
                Some(id) => self.applied(
                    id,
                    on_behalf_of,
                    borrow_spec(
                        self.records(id, on_behalf_of),
                        self.entry(id, on_behalf_of),
                        amount,
                        data,
                        now,
                    ),
                    true,
                    prices,
                    now,
                ),
            }
        }
    }

    /// The pool after `amount` of the debt of `on_behalf_of` in `asset`, or
    /// all of it when none is named, was repaid at time `now` in the mode that
    /// `data` selects, and the receipt. The mode is named, the asset is
    /// listed, and a position was opened for the user, or else there is
    /// nothing to repay.
    pub open spec fn repay(
        self,
        asset: AccountId,
        on_behalf_of: AccountId,
        amount: Option<u128>,
        data: Seq<u8>,
        now: Timestamp,
    ) -> Result<(PoolView, Receipt), LendingPoolError> {
        if data.len() == 0 {
            Err(LendingPoolError::UnspecifiedAction)
        } else {
            match self.asset_id(asset) {
                None => Err(LendingPoolError::AssetNotRegistered),
                Some(id) => if !self.has_position(id, on_behalf_of) {
                    Err(LendingPoolError::NothingToRepay)
                } else {
                    self.applied(
                        id,
                        on_behalf_of,
                        repay_spec(self.records(id, on_behalf_of), amount, data, now),
                        false,
                        Seq::empty(),
                        now,
                    )
                },
            }
        }
    }

    /// The pool after `caller` set the collateral flag of `asset`. The asset
    /// is listed and a position was opened for the caller, or else there is
    /// no deposit to flag. Lowering the flag stands only if the collateral of
    /// the caller, without this asset, still covers the debt.
    pub open spec fn set_as_collateral(
        self,
        caller: AccountId,
        asset: AccountId,
        use_as_collateral: bool,
        prices: Seq<Option<u128>>,
        now: Timestamp,
    ) -> Result<(PoolView, ()), LendingPoolError> {
        match self.asset_id(asset) {
            None => Err(LendingPoolError::AssetNotRegistered),
            Some(id) => if !self.has_position(id, caller) {
                Err(LendingPoolError::InsufficientDeposit)
            } else {
                self.applied(
                    id,
                    caller,
                    match set_as_collateral_spec(
                        self.records(id, caller),
                        self.entry(id, caller),
                        use_as_collateral,
                    ) {
                        Ok(records) => Ok((records, ())),
                        Err(e) => Err(e),
                    },
                    !use_as_collateral,
                    prices,
                    now,
                )
            },
        }
    }
}

impl LendingPool {
    /// Sets or lowers the flag by which `caller` offers the deposit in
    /// `asset` as collateral. A refused change leaves the pool as it was.
    pub fn set_as_collateral(
        &mut self,
        caller: AccountId,
        asset: AccountId,
        use_as_collateral_to_set: bool,
        prices: &Vec<Option<u128>>,
        now: Timestamp,
    ) -> (r: Result<(), LendingPoolError>)
        requires
            old(self).wf(),
        ensures
            final(self).wf(),
            match old(self)@.set_as_collateral(
                caller,
                asset,
                use_as_collateral_to_set,
                prices@,
                now,
            ) {
                Ok((view, _)) => r is Ok && final(self)@ == view,
                Err(e) => r == Err::<(), LendingPoolError>(e) && final(self)@ == old(self)@,
            },
            !use_as_collateral_to_set && r is Ok ==> final(self)@.collateralized(
                caller,
                prices@,
                now,
            ),
            r is Err ==> final(self)@ == old(self)@,
    {
        let id = match self.reserve_id(&asset) {
            Some(id) => id,
            None => {
                return Err(LendingPoolError::AssetNotRegistered);
            },
        };
        if !self.has_position(id, &caller) {
            return Err(LendingPoolError::InsufficientDeposit);
        }
        let records = self.pull(id, &caller);
        let entry = self.rule_entry_of(records.config.market_rule_id, id);
        let step = match set_as_collateral_step(&records, &entry, use_as_collateral_to_set) {
            Ok(next) => Ok((next, ())),
            Err(e) => Err(e),
        };
        proof {
            lemma_set_as_collateral_keeps_membership(records, entry, use_as_collateral_to_set);
        }
        self.apply(id, caller, step, !use_as_collateral_to_set, prices, now)
    }

    /// Borrows `amount` of `asset` on behalf of `on_behalf_of`, at the
    /// variable rate where the first byte of `data` is `MODE_VARIABLE` and at
    /// a stable rate where it is `MODE_STABLE`. The receipt names the amount
    /// that the pool owes the caller. A loan after which the user's
    /// collateral would not cover the debt is refused, and a refused loan
    /// leaves the pool as it was.
    pub fn borrow(
        &mut self,
        asset: AccountId,
        on_behalf_of: AccountId,
        amount: u128,
        data: &Vec<u8>,
        prices: &Vec<Option<u128>>,
        now: Timestamp,
    ) -> (r: Result<Receipt, LendingPoolError>)
        requires
            old(self).wf(),
        ensures
            final(self).wf(),
            match old(self)@.borrow(asset, on_behalf_of, amount, data@, prices@, now) {
                Ok((view, receipt)) => r == Ok::<Receipt, LendingPoolError>(receipt)
                    && final(self)@ == view,
                Err(e) => r == Err::<Receipt, LendingPoolError>(e) && final(self)@ == old(self)@,
            },
            r is Ok ==> final(self)@.collateralized(on_behalf_of, prices@, now),
            r is Err ==> final(self)@ == old(self)@,
    {
        if data.len() == 0 {
            return Err(LendingPoolError::UnspecifiedAction);
        }
        if amount == 0 {
            return Err(LendingPoolError::AmountNotGreaterThanZero);
        }
        let id = match self.reserve_id(&asset) {
            Some(id) => id,
            None => {
                return Err(LendingPoolError::AssetNotRegistered);
            },
        };
        let records = self.pull(id, &on_behalf_of);
        let entry = self.rule_entry_of(records.config.market_rule_id, id);
        let step = borrow_step(&records, &entry, amount, data, now);
        proof {
            lemma_borrow_keeps_membership(records, entry, amount, data@, now);
        }
        self.apply(id, on_behalf_of, step, true, prices, now)
    }

    /// Repays `amount` of the debt of `on_behalf_of` in `asset`, or all of it
    /// when none is named, in the mode that the first byte of `data` selects.
    /// The receipt names the amount repaid, which the caller owes the pool.
    /// A refused repayment leaves the pool as it was.
    pub fn repay(
        &mut self,
        asset: AccountId,
        on_behalf_of: AccountId,
        amount: Option<u128>,
        data: &Vec<u8>,
        now: Timestamp,
    ) -> (r: Result<Receipt, LendingPoolError>)
        requires
            old(self).wf(),
        ensures
            final(self).wf(),
            match old(self)@.repay(asset, on_behalf_of, amount, data@, now) {
                Ok((view, receipt)) => r == Ok::<Receipt, LendingPoolError>(receipt)
                    && final(self)@ == view,
                Err(e) => r == Err::<Receipt, LendingPoolError>(e) && final(self)@ == old(self)@,
            },
    {
        if data.len() == 0 {
            return Err(LendingPoolError::UnspecifiedAction);
        }
        let id = match self.reserve_id(&asset) {
            Some(id) => id,
            None => {
                return Err(LendingPoolError::AssetNotRegistered);
            },
        };
        if !self.has_position(id, &on_behalf_of) {
            return Err(LendingPoolError::NothingToRepay);
        }
        let records = self.pull(id, &on_behalf_of);
        let step = repay_step(&records, amount, data, now);
        proof {
            lemma_repay_keeps_membership(records, amount, data@, now);
        }
        let no_prices: Vec<Option<u128>> = Vec::new();
        assert(no_prices@ =~= Seq::empty());
        self.apply(id, on_behalf_of, step, false, &no_prices, now)
    }
}

} // verus!
