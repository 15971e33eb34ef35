//! Deposit and redeem.

use crate::account::{AccountId, Timestamp};
use crate::config::UserConfig;
use crate::errors::{lift, LendingPoolError};
use crate::fixed::{checked, checked_diff, checked_sum, MathError};
use crate::pool::{LendingPool, PoolView};
use crate::position::{AccruedInterest, UserReserveData};
use crate::records::{
    activeness_spec, check_activeness, check_deposit_enabled, check_max_total_supply,
    keeps_membership, lifted, max_total_supply_spec, open_for_increase_spec, signed_delta,
    signed_spec, Receipt, Records,
};
use crate::reserve::ReserveData;
use vstd::prelude::*;

verus! {

/// The balance of a position that an action changes.
#[derive(Clone, Copy, Debug, PartialEq, Eq, Structural)]
pub enum Balance {
    Supply,
    VariableDebt,
    StableDebt,
}

/// The receipt of an action that moved `amount` and changed the balance
/// `kind` by `change`, after `interest` had been added to the position.
pub open spec fn receipt_spec(
    amount: u128,
    interest: AccruedInterest,
    kind: Balance,
    change: int,
    stable_rate_e24: Option<u128>,
) -> Result<Receipt, MathError> {
    match signed_spec(interest.supply + (if kind == Balance::Supply { change } else { 0 })) {
        Err(e) => Err(e),
        Ok(a_token_delta) => match signed_spec(
            interest.variable_borrow + (if kind == Balance::VariableDebt { change } else { 0 }),
        ) {
            Err(e) => Err(e),
            Ok(v_token_delta) => match signed_spec(
                interest.stable_borrow + (if kind == Balance::StableDebt { change } else { 0 }),
            ) {
                Err(e) => Err(e),
                Ok(s_token_delta) => Ok(
                    Receipt { amount, a_token_delta, v_token_delta, s_token_delta, stable_rate_e24 },
                ),
            },
        },
    }
}

fn signed_change(interest: u128, plus: u128, minus: u128) -> (r: Result<i128, MathError>)
    ensures
        r == signed_spec(interest + plus - minus),
{
    if plus >= minus {
        match checked_sum(interest, plus - minus) {
            Ok(x) => signed_delta(x, 0),
            Err(_) => Err(MathError::Overflow),
        }
    } else {
        signed_delta(interest, minus - plus)
    }
}

/// Builds the receipt of an action that increased (`increase`) or decreased
/// the balance `kind` by `amount`.
pub fn make_receipt(
    amount: u128,
    interest: &AccruedInterest,
    kind: Balance,
    increase: bool,
    stable_rate_e24: Option<u128>,
) -> (r: Result<Receipt, MathError>)
    ensures
        r == receipt_spec(
            amount,
            *interest,
            kind,
            if increase {
                amount as int
            } else {
                -(amount as int)
            },
            stable_rate_e24,
        ),
{
    let plus: u128 = if increase {
        amount
    } else {
        0
    };
    let minus: u128 = if increase {
        0
    } else {
        amount
    };
    let a_token_delta = match kind {
        Balance::Supply => signed_change(interest.supply, plus, minus)?,
        _ => signed_change(interest.supply, 0, 0)?,
    };
    let v_token_delta = match kind {
        Balance::VariableDebt => signed_change(interest.variable_borrow, plus, minus)?,
        _ => signed_change(interest.variable_borrow, 0, 0)?,
    };
    let s_token_delta = match kind {
        Balance::StableDebt => signed_change(interest.stable_borrow, plus, minus)?,
        _ => signed_change(interest.stable_borrow, 0, 0)?,
    };
    Ok(Receipt { amount, a_token_delta, v_token_delta, s_token_delta, stable_rate_e24 })
}

/// A deposit of `amount`: the amount is positive and the reserve open for
/// increase; interest accrues; the amount is added to the user's supplied
/// balance and to the reserve's total, the reserve becomes a member of the
/// user's deposits, the rates are derived anew, and the total stays within
/// the reserve's ceiling.
pub open spec fn deposit_spec(records: Records, amount: u128, now: Timestamp) -> Result<
    (Records, Receipt),
    LendingPoolError,
> {
    if amount == 0 {
        Err(LendingPoolError::AmountNotGreaterThanZero)
    } else {
        match open_for_increase_spec(records.reserve) {
            Err(e) => Err(e),
            Ok(()) => match lift(records.accrued(now)) {
                Err(e) => Err(e),
                Ok((accrued, interest)) => match lift(checked(accrued.position.supplied + amount)) {
                    Err(e) => Err(e),
                    Ok(supplied) => match lift(checked(accrued.reserve.total_supplied + amount)) {
                        Err(e) => Err(e),
                        Ok(total) => match lift(
                            (ReserveData { total_supplied: total, ..accrued.reserve }).recalculated(),
                        ) {
                            Err(e) => Err(e),
                            Ok(reserve) => match max_total_supply_spec(reserve) {
                                Err(e) => Err(e),
                                Ok(()) => match lift(
                                    receipt_spec(
                                        amount,
                                        interest,
                                        Balance::Supply,
                                        amount as int,
                                        None,
                                    ),
                                ) {
                                    Err(e) => Err(e),
                                    Ok(receipt) => Ok(
                                        (
                                            Records {
                                                reserve,
                                                position: UserReserveData {
                                                    supplied,
                                                    ..accrued.position
                                                },
                                                config: UserConfig {
                                                    deposits: accrued.config.deposits.inserted(
                                                        reserve.id,
                                                    ),
                                                    ..accrued.config
                                                },
                                            },
                                            receipt,
                                        ),
                                    ),
                                },
                            },
                        },
                    },
                },
            },
        }
    }
}

/// The amount that a redemption or repayment takes from `balance`: the whole
/// balance when none is named.
pub open spec fn amount_or_all(amount: Option<u128>, balance: u128) -> u128 {
    match amount {
        Some(v) => v,
        None => balance,
    }
}

/// A redemption of `amount`, or of the whole supplied balance when none is
/// named: the reserve is active and the user has something supplied; interest
/// accrues; the amount is positive and within the supplied balance; it is
/// taken from the balance and from the reserve's total, which has to hold
/// it; the reserve leaves the user's deposits when nothing is left, and the
/// rates are derived anew.
pub open spec fn redeem_spec(records: Records, amount: Option<u128>, now: Timestamp) -> Result<
    (Records, Receipt),
    LendingPoolError,
> {
    match activeness_spec(records.reserve) {
        Err(e) => Err(e),
        Ok(()) => if records.position.supplied == 0 {
            Err(LendingPoolError::NothingToRedeem)
        } else {
            match lift(records.accrued(now)) {
                Err(e) => Err(e),
                Ok((accrued, interest)) => {
                    let taken = amount_or_all(amount, accrued.position.supplied);
                    if taken == 0 {
                        Err(LendingPoolError::AmountNotGreaterThanZero)
                    } else if taken > accrued.position.supplied {
                        Err(LendingPoolError::AmountExceedsUserDeposit)
                    } else {
                        match lift(checked(accrued.reserve.total_supplied - taken)) {
                            Err(e) => Err(e),
                            Ok(total) => match lift(
                                (ReserveData {
                                    total_supplied: total,
                                    ..accrued.reserve
                                }).recalculated(),
                            ) {
                                Err(e) => Err(e),
                                Ok(reserve) => match lift(
                                    receipt_spec(
                                        taken,
                                        interest,
                                        Balance::Supply,
                                        -(taken as int),
                                        None,
                                    ),
                                ) {
                                    Err(e) => Err(e),
                                    Ok(receipt) => Ok(
                                        (
                                            Records {
                                                reserve,
                                                position: UserReserveData {
                                                    supplied: (accrued.position.supplied
                                                        - taken) as u128,
                                                    ..accrued.position
                                                },
                                                config: UserConfig {
                                                    deposits: if taken
                                                        == accrued.position.supplied {
                                                        accrued.config.deposits.removed(
                                                            reserve.id,
                                                        )
                                                    } else {
                                                        accrued.config.deposits
                                                    },
                                                    ..accrued.config
                                                },
                                            },
                                            receipt,
                                        ),
                                    ),
                                },
                            },
                        }
                    }
                },
            }
        },
    }
}

/// A deposit keeps the membership sets in agreement with the balances.
pub proof fn lemma_deposit_keeps_membership(records: Records, amount: u128, now: Timestamp)
    requires
        records.wf(),
    ensures
        match deposit_spec(records, amount, now) {
            Ok((after, _)) => keeps_membership(records, after),
            Err(_) => true,
        },
{
    records.lemma_accrual_keeps_membership(now);
    records.config.deposits.lemma_inserted(records.reserve.id);
}

/// A redemption keeps the membership sets in agreement with the balances.
pub proof fn lemma_redeem_keeps_membership(records: Records, amount: Option<u128>, now: Timestamp)
    requires
        records.wf(),
    ensures
        match redeem_spec(records, amount, now) {
            Ok((after, _)) => keeps_membership(records, after),
            Err(_) => true,
        },
{
    records.lemma_accrual_keeps_membership(now);
    records.config.deposits.lemma_removed(records.reserve.id);
}

/// Applies a deposit to the records it touches.
pub fn deposit_step(records: &Records, amount: u128, now: Timestamp) -> (r: Result<
    (Records, Receipt),
    LendingPoolError,
>)
    requires
        records.wf(),
    ensures
        r == deposit_spec(*records, amount, now),
{
    if amount == 0 {
        return Err(LendingPoolError::AmountNotGreaterThanZero);
    }
    check_deposit_enabled(&records.reserve)?;
    let (accrued, interest) = lifted(records.accumulate_interest(now))?;
    let mut reserve = accrued.reserve;
    let mut position = accrued.position;
    let mut config = accrued.config;
    position.supplied = lifted(checked_sum(position.supplied, amount))?;
    reserve.total_supplied = lifted(checked_sum(reserve.total_supplied, amount))?;
    lifted(reserve.recalculate_current_rates())?;
    check_max_total_supply(&reserve)?;
    let receipt = lifted(make_receipt(amount, &interest, Balance::Supply, true, None))?;
    config.deposits.insert(reserve.id);
    Ok((Records { reserve, position, config }, receipt))
}

/// Applies a redemption to the records it touches.
pub fn redeem_step(records: &Records, amount: Option<u128>, now: Timestamp) -> (r: Result<
    (Records, Receipt),
    LendingPoolError,
>)
    requires
        records.wf(),
    ensures
        r == redeem_spec(*records, amount, now),
{
    check_activeness(&records.reserve)?;
    if records.position.supplied == 0 {
        return Err(LendingPoolError::NothingToRedeem);
    }
    let (accrued, interest) = lifted(records.accumulate_interest(now))?;
    let mut reserve = accrued.reserve;
    let mut position = accrued.position;
    let mut config = accrued.config;
    let taken: u128 = match amount {
        Some(v) => v,
        None => position.supplied,
    };
    if taken == 0 {
        return Err(LendingPoolError::AmountNotGreaterThanZero);
    }
    if taken > position.supplied {
        return Err(LendingPoolError::AmountExceedsUserDeposit);
    }
    if taken == position.supplied {
        config.deposits.remove(reserve.id);
    }
    position.supplied = position.supplied - taken;
    reserve.total_supplied = lifted(checked_diff(reserve.total_supplied, taken))?;
    lifted(reserve.recalculate_current_rates())?;
    let receipt = lifted(make_receipt(taken, &interest, Balance::Supply, false, None))?;
    Ok((Records { reserve, position, config }, receipt))
}

impl PoolView {
    /// The pool after `amount` of `asset` was deposited on behalf of
    /// `on_behalf_of` at time `now`, and the receipt of the deposit.
    pub open spec fn deposit(
        self,
        asset: AccountId,
        on_behalf_of: AccountId,
        amount: u128,
        now: Timestamp,
    ) -> Result<(PoolView, Receipt), LendingPoolError> {
        if amount == 0 {
            Err(LendingPoolError::AmountNotGreaterThanZero)
        } else {
            match self.asset_id(asset) {
                None => Err(LendingPoolError::AssetNotRegistered),
                Some(id) => self.applied(
                    id,
                    on_behalf_of,
                    deposit_spec(self.records(id, on_behalf_of), amount, now),
                    false,
                    Seq::empty(),
                    now,
                ),
            }
        }
    }

    /// The pool after `amount` of `asset`, or all that was supplied when none
    /// is named, was redeemed from the deposit of `on_behalf_of` at time
    /// `now`, and the receipt. The asset is listed and a position was opened
    /// for the user, or else there is nothing to redeem; and the redemption
    /// stands only if the collateral of the user still covers the debt.
    pub open spec fn redeem(
        self,
        asset: AccountId,
        on_behalf_of: AccountId,
        amount: Option<u128>,
        prices: Seq<Option<u128>>,
        now: Timestamp,
    ) -> Result<(PoolView, Receipt), LendingPoolError> {
        match self.asset_id(asset) {
            None => Err(LendingPoolError::AssetNotRegistered),
            Some(id) => if !self.has_position(id, on_behalf_of) {
                Err(LendingPoolError::NothingToRedeem)
            } else {
                self.applied(
                    id,
                    on_behalf_of,
                    redeem_spec(self.records(id, on_behalf_of), amount, now),
                    true,
                    prices,
                    now,
                )
            },
        }
    }
}

impl LendingPool {
    /// Deposits `amount` of `asset` on behalf of `on_behalf_of`. The receipt
    /// names the amount that the caller owes the pool and the changes of the
    /// user's wrapped balances. A refused deposit leaves the pool as it was.
    pub fn deposit(
        &mut self,
        asset: AccountId,
        on_behalf_of: AccountId,
        amount: u128,
        now: Timestamp,
    ) -> (r: Result<Receipt, LendingPoolError>)
        requires
            old(self).wf(),
        ensures
            final(self).wf(),
            match old(self)@.deposit(asset, on_behalf_of, amount, now) {
                Ok((view, receipt)) => r == Ok::<Receipt, LendingPoolError>(receipt)
                    && final(self)@ == view,
                Err(e) => r == Err::<Receipt, LendingPoolError>(e) && final(self)@ == old(self)@,
            },
    {
        if amount == 0 {
            return Err(LendingPoolError::AmountNotGreaterThanZero);
        }
        let id = match self.reserve_id(&asset) {
            Some(id) => id,
            None => {
                return Err(LendingPoolError::AssetNotRegistered);
            },
        };
        let records = self.pull(id, &on_behalf_of);
        let step = deposit_step(&records, amount, now);
        proof {
            lemma_deposit_keeps_membership(records, amount, now);
        }
        let no_prices: Vec<Option<u128>> = Vec::new();
        assert(no_prices@ =~= Seq::empty());
        self.apply(id, on_behalf_of, step, false, &no_prices, now)
    }

    /// Redeems `amount` of `asset`, or all that was supplied when none is
    /// named, from the deposit of `on_behalf_of`. The receipt names the amount
    /// that the pool owes the caller. A redemption after which the user's
    /// collateral would not cover the debt is refused, and a refused
    /// redemption leaves the pool as it was.
    pub fn redeem(
        &mut self,
        asset: AccountId,
        on_behalf_of: AccountId,
        amount: Option<u128>,
        prices: &Vec<Option<u128>>,
        now: Timestamp,
    ) -> (r: Result<Receipt, LendingPoolError>)
        requires
            old(self).wf(),
        ensures
            final(self).wf(),
            match old(self)@.redeem(asset, on_behalf_of, amount, prices@, now) {
                Ok((view, receipt)) => r == Ok::<Receipt, LendingPoolError>(receipt)
                    && final(self)@ == view,
                Err(e) => r == Err::<Receipt, LendingPoolError>(e) && final(self)@ == old(self)@,
            },
            r is Ok ==> final(self)@.collateralized(on_behalf_of, prices@, now),
            r is Err ==> final(self)@ == old(self)@,
    {
        let id = match self.reserve_id(&asset) {
            Some(id) => id,
            None => {
                return Err(LendingPoolError::AssetNotRegistered);
            },
        };
        if !self.has_position(id, &on_behalf_of) {
            return Err(LendingPoolError::NothingToRedeem);
        }
        let records = self.pull(id, &on_behalf_of);
        let step = redeem_step(&records, amount, now);
        proof {
            lemma_redeem_keeps_membership(records, amount, now);
        }
        self.apply(id, on_behalf_of, step, true, prices, now)
    }
}

} // verus!
