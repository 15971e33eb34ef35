//! What the pool offers the token that represents variable debt: the debt of
//! a reserve and of a user with interest up to now, and the transfer of debt
//! from one user to another.

use crate::account::{AccountId, Timestamp};
use crate::config::UserConfig;
use crate::errors::{LendingPoolError, LendingPoolTokenInterfaceError};
use crate::fixed::{checked, checked_sum, MathError};
use crate::pool::{LendingPool, PoolView};
use crate::position::{AccruedInterest, UserReserveData};
use crate::records::{borrowing_enabled_spec, check_borrowing_enabled, keeps_membership, Records};
use vstd::prelude::*;

verus! {

/// The interest that a transfer of debt added to the positions of the two
/// users, for the wrapped-balance tokens to be told of.
#[derive(Clone, Copy, Debug, PartialEq, Eq)]
pub struct DebtTransfer {
    pub from: AccruedInterest,
    pub to: AccruedInterest,
}

/// The records of the user who gives `amount` of variable debt away, and the
/// interest added before. The position is reconciled against the reserve,
/// whose indices are to be up to date; the debt has to reach the amount; what
/// is left is nothing or at least the reserve's minimal debt.
pub open spec fn transfer_out_spec(records: Records, amount: u128) -> Result<
    (Records, AccruedInterest),
    LendingPoolTokenInterfaceError,
> {
    match records.position.reconciled(records.reserve) {
        Err(e) => Err(LendingPoolTokenInterfaceError::MathError(e)),
        Ok(done) => if done.position.variable_borrowed < amount {
            Err(LendingPoolTokenInterfaceError::InsufficientBalance)
        } else {
            let left = (done.position.variable_borrowed - amount) as u128;
            if left != 0 && left < done.reserve.restrictions.minimal_debt {
                Err(LendingPoolTokenInterfaceError::MinimalDebt)
            } else {
                Ok(
                    (
                        Records {
                            reserve: done.reserve,
                            position: UserReserveData { variable_borrowed: left, ..done.position },
                            config: UserConfig {
                                borrows_variable: if left == 0 {
                                    records.config.borrows_variable.removed(records.reserve.id)
                                } else {
                                    records.config.borrows_variable
                                },
                                ..records.config
                            },
                        },
                        done.interest,
                    ),
                )
            }
        },
    }
}

/// The records of the user who takes `amount` of variable debt over, and the
/// interest added before. The position is reconciled against the reserve;
/// the resulting debt is nothing or at least the reserve's minimal debt.
pub open spec fn transfer_in_spec(records: Records, amount: u128) -> Result<
    (Records, AccruedInterest),
    LendingPoolTokenInterfaceError,
> {
    match records.position.reconciled(records.reserve) {
        Err(e) => Err(LendingPoolTokenInterfaceError::MathError(e)),
        Ok(done) => match checked(done.position.variable_borrowed + amount) {
            Err(e) => Err(LendingPoolTokenInterfaceError::MathError(e)),
            Ok(owed) => if owed != 0 && owed < done.reserve.restrictions.minimal_debt {
                Err(LendingPoolTokenInterfaceError::MinimalDebt)
            } else {
                Ok(
                    (
                        Records {
                            reserve: done.reserve,
                            position: UserReserveData { variable_borrowed: owed, ..done.position },
                            config: UserConfig {
                                borrows_variable: if owed != 0 {
                                    records.config.borrows_variable.inserted(records.reserve.id)
                                } else {
                                    records.config.borrows_variable
                                },
                                ..records.config
                            },
                        },
                        done.interest,
                    ),
                )
            },
        },
    }
}

/// Giving debt away keeps the membership sets in agreement with the balances.
pub proof fn lemma_transfer_out_keeps_membership(records: Records, amount: u128)
    requires
        records.wf(),
    ensures
        match transfer_out_spec(records, amount) {
            Ok((after, _)) => keeps_membership(records, after),
            Err(_) => true,
        },
{
    records.lemma_reconciliation_keeps_membership();
    records.config.borrows_variable.lemma_removed(records.reserve.id);
}

/// Taking debt over keeps the membership sets in agreement with the balances.
pub proof fn lemma_transfer_in_keeps_membership(records: Records, amount: u128)
    requires
        records.wf(),
    ensures
        match transfer_in_spec(records, amount) {
            Ok((after, _)) => keeps_membership(records, after),
            Err(_) => true,
        },
{
    records.lemma_reconciliation_keeps_membership();
    records.config.borrows_variable.lemma_inserted(records.reserve.id);
}

/// Applies the giving away of debt to the records it touches.
pub fn transfer_out_step(records: &Records, amount: u128) -> (r: Result<
    (Records, AccruedInterest),
    LendingPoolTokenInterfaceError,
>)
    requires
        records.wf(),
    ensures
        r == transfer_out_spec(*records, amount),
{
    let mut reserve = records.reserve;
    let mut position = records.position;
    let mut config = records.config;
    let interest = match position.accumulate_user_interest(&mut reserve) {
        Ok(interest) => interest,
        Err(e) => {
            return Err(LendingPoolTokenInterfaceError::MathError(e));
        },
    };
    if position.variable_borrowed < amount {
        return Err(LendingPoolTokenInterfaceError::InsufficientBalance);
    }
    let left: u128 = position.variable_borrowed - amount;
    if left != 0 && left < reserve.restrictions.minimal_debt {
        return Err(LendingPoolTokenInterfaceError::MinimalDebt);
    }
    position.variable_borrowed = left;
    if left == 0 {
        config.borrows_variable.remove(reserve.id);
    }
    Ok((Records { reserve, position, config }, interest))
}

/// Applies the taking over of debt to the records it touches.
pub fn transfer_in_step(records: &Records, amount: u128) -> (r: Result<
    (Records, AccruedInterest),
    LendingPoolTokenInterfaceError,
>)
    requires
        records.wf(),
    ensures
        r == transfer_in_spec(*records, amount),
{
    let mut reserve = records.reserve;
    let mut position = records.position;
    let mut config = records.config;
    let interest = match position.accumulate_user_interest(&mut reserve) {
        Ok(interest) => interest,
        Err(e) => {
            return Err(LendingPoolTokenInterfaceError::MathError(e));
        },
    };
    let owed: u128 = match checked_sum(position.variable_borrowed, amount) {
        Ok(owed) => owed,
        Err(e) => {
            return Err(LendingPoolTokenInterfaceError::MathError(e));
        },
    };
    if owed != 0 && owed < reserve.restrictions.minimal_debt {
        return Err(LendingPoolTokenInterfaceError::MinimalDebt);
    }
    position.variable_borrowed = owed;
    if owed != 0 {
        config.borrows_variable.insert(reserve.id);
    }
    Ok((Records { reserve, position, config }, interest))
}

impl PoolView {
    /// The variable debt of the reserve of `underlying_asset` with interest up
    /// to `now`; nothing where the asset is not listed.
    pub open spec fn total_variable_debt_of(self, underlying_asset: AccountId, now: Timestamp) -> Result<
        u128,
        MathError,
    > {
        match self.asset_id(underlying_asset) {
            None => Ok(0),
            Some(id) => if self.reserves[id].total_variable_borrowed == 0 {
                Ok(0)
            } else {
                match self.reserves[id].accrued(now) {
                    Err(e) => Err(e),
                    Ok(reserve) => Ok(reserve.total_variable_borrowed),
                }
            },
        }
    }

    /// The variable debt of `user` in the reserve of `underlying_asset` with
    /// interest up to `now`; nothing where the asset is not listed.
    pub open spec fn user_variable_debt_of(
        self,
        underlying_asset: AccountId,
        user: AccountId,
        now: Timestamp,
    ) -> Result<u128, MathError> {
        match self.asset_id(underlying_asset) {
            None => Ok(0),
            Some(id) => if self.records(id, user).position.variable_borrowed == 0 {
                Ok(0)
            } else {
                match self.records(id, user).accrued(now) {
                    Err(e) => Err(e),
                    Ok((records, _)) => Ok(records.position.variable_borrowed),
                }
            },
        }
    }

    /// The pool after the variable-debt token `caller` moved `amount` of the
    /// variable debt in `underlying_asset` from `from` to `to` at time `now`,
    /// and the interest added to the two positions. The asset is listed and
    /// the caller is its variable-debt token; `from` has a position in the
    /// reserve, or else has no balance to give; the pool has a record of
    /// `to`, or else `to` has no collateral; `to` may borrow the asset;
    /// interest accrues on the reserve; `from` gives the amount away and then
    /// `to` takes it over; and the collateral of `to` covers the debt
    /// afterwards.
    pub open spec fn transfer_variable_debt_from_to(
        self,
        caller: AccountId,
        underlying_asset: AccountId,
        from: AccountId,
        to: AccountId,
        amount: u128,
        prices: Seq<Option<u128>>,
        now: Timestamp,
    ) -> Result<(PoolView, DebtTransfer), LendingPoolTokenInterfaceError> {
        match self.asset_id(underlying_asset) {
            None => Err(LendingPoolTokenInterfaceError::AssetNotRegistered),
            Some(id) => if self.reserves[id].tokens.v_token_address != caller {
                Err(LendingPoolTokenInterfaceError::WrongCaller)
            } else if !self.has_position(id, from) {
                Err(LendingPoolTokenInterfaceError::InsufficientBalance)
            } else if !self.has_account(to) {
                Err(LendingPoolTokenInterfaceError::InsufficientCollateral)
            } else if borrowing_enabled_spec(self.reserves[id], self.entry(id, to)) is Err {
                Err(LendingPoolTokenInterfaceError::TransfersDisabled)
            } else {
                match self.reserves[id].accrued(now) {
                    Err(e) => Err(LendingPoolTokenInterfaceError::MathError(e)),
                    Ok(reserve) => match transfer_out_spec(
                        Records { reserve, ..self.records(id, from) },
                        amount,
                    ) {
                        Err(e) => Err(e),
                        Ok((given, interest_from)) => {
                            let mid = self.with_records(id, from, given);
                            match transfer_in_spec(mid.records(id, to), amount) {
                                Err(e) => Err(e),
                                Ok((taken, interest_to)) => {
                                    let next = mid.with_records(id, to, taken);
                                    if next.guard(to, prices, now) is Err {
                                        Err(LendingPoolTokenInterfaceError::InsufficientCollateral)
                                    } else {
                                        Ok(
                                            (
                                                next,
                                                DebtTransfer { from: interest_from, to: interest_to },
                                            ),
                                        )
                                    }
                                },
                            }
                        },
                    }
                }
            },
        }
    }
}

impl LendingPool {
    /// The variable debt of a reserve with interest up to `now`.
    pub fn total_variable_debt_of(&self, underlying_asset: AccountId, now: Timestamp) -> (r: Result<
        u128,
        MathError,
    >)
        requires
            self.wf(),
        ensures
            r == self@.total_variable_debt_of(underlying_asset, now),
    {
        let id = match self.reserve_id(&underlying_asset) {
            Some(id) => id,
            None => {
                return Ok(0);
            },
        };
        let mut reserve = self.reserve_at(id);
        if reserve.total_variable_borrowed == 0 {
            return Ok(0);
        }
        reserve.accumulate_interest(now)?;
        Ok(reserve.total_variable_borrowed)
    }

    /// The variable debt of a user in a reserve with interest up to `now`.
    pub fn user_variable_debt_of(
        &self,
        underlying_asset: AccountId,
        user: AccountId,
        now: Timestamp,
    ) -> (r: Result<u128, MathError>)
        requires
            self.wf(),
        ensures
            r == self@.user_variable_debt_of(underlying_asset, user, now),
    {
        let id = match self.reserve_id(&underlying_asset) {
            Some(id) => id,
            None => {
                return Ok(0);
            },
        };
        let records = self.pull(id, &user);
        if records.position.variable_borrowed == 0 {
            return Ok(0);
        }
        let (accrued, _) = records.accumulate_interest(now)?;
        Ok(accrued.position.variable_borrowed)
    }

    /// Moves `amount` of variable debt from `from` to `to` on the request of
    /// the reserve's variable-debt token. A refused transfer leaves the pool
    /// as it was.
    pub fn transfer_variable_debt_from_to(
        &mut self,
        caller: AccountId,
        underlying_asset: AccountId,
        from: AccountId,
        to: AccountId,
        amount: u128,
        prices: &Vec<Option<u128>>,
        now: Timestamp,
    ) -> (r: Result<DebtTransfer, LendingPoolTokenInterfaceError>)
        requires
            old(self).wf(),
        ensures
            final(self).wf(),
            match old(self)@.transfer_variable_debt_from_to(
                caller,
                underlying_asset,
                from,
                to,
                amount,
                prices@,
                now,
            ) {
                Ok((view, done)) => r == Ok::<DebtTransfer, LendingPoolTokenInterfaceError>(done)
                    && final(self)@ == view,
                Err(e) => r == Err::<DebtTransfer, LendingPoolTokenInterfaceError>(e)
                    && final(self)@ == old(self)@,
            },
            r is Ok ==> final(self)@.collateralized(to, prices@, now),
            r is Err ==> final(self)@ == old(self)@,
    {
        let id = match self.reserve_id(&underlying_asset) {
            Some(id) => id,
            None => {
                return Err(LendingPoolTokenInterfaceError::AssetNotRegistered);
            },
        };
        let pulled_from = self.pull(id, &from);
        let pulled_to = self.pull(id, &to);
        if !pulled_from.reserve.tokens.v_token_address.same(&caller) {
            return Err(LendingPoolTokenInterfaceError::WrongCaller);
        }
        if !self.has_position(id, &from) {
            return Err(LendingPoolTokenInterfaceError::InsufficientBalance);
        }
        if !self.has_account(&to) {
            return Err(LendingPoolTokenInterfaceError::InsufficientCollateral);
        }
        let entry = self.rule_entry_of(pulled_to.config.market_rule_id, id);
        if check_borrowing_enabled(&pulled_to.reserve, &entry).is_err() {
            return Err(LendingPoolTokenInterfaceError::TransfersDisabled);
        }
        let mut reserve = pulled_from.reserve;
        match reserve.accumulate_interest(now) {
            Ok(()) => {},
            Err(e) => {
                return Err(LendingPoolTokenInterfaceError::MathError(e));
            },
        }
        let start = Records { reserve, position: pulled_from.position, config: pulled_from.config };
        proof {
            pulled_from.reserve.lemma_accrual_keeps_identity(now);
            lemma_transfer_out_keeps_membership(start, amount);
        }
        let (given, interest_from) = transfer_out_step(&start, amount)?;
        let ghost mid = self@.with_records(id as int, from, given);
        let same = from.same(&to);
        let receiving = if same {
            given
        } else {
            Records { reserve: given.reserve, position: pulled_to.position, config: pulled_to.config }
        };
        proof {
            assert(mid.users.contains_key(from));
            assert(receiving == mid.records(id as int, to));
            lemma_transfer_in_keeps_membership(receiving, amount);
        }
        let (taken, interest_to) = transfer_in_step(&receiving, amount)?;
        let ghost next = mid.with_records(id as int, to, taken);
        proof {
            let direct = self@.with_records(id as int, to, taken);
            assert(next.users.contains_key(to));
            assert(direct.users.contains_key(to));
            assert(next.reserves =~= direct.reserves);
            assert(next.user(to).positions =~= direct.user(to).positions);
            assert(next.guard(to, prices@, now) == direct.guard(to, prices@, now));
        }
        match self.prepare(id, to, &taken, true, prices, now) {
            Ok(_) => {},
            Err(_) => {
                return Err(LendingPoolTokenInterfaceError::InsufficientCollateral);
            },
        }
        let first: Result<(Records, ()), LendingPoolError> = Ok((given, ()));
        let no_prices: Vec<Option<u128>> = Vec::new();
        let _ = self.apply(id, from, first, false, &no_prices, now);
        assert(self@ == mid);
        let second: Result<(Records, ()), LendingPoolError> = Ok((taken, ()));
        let _ = self.apply(id, to, second, false, &no_prices, now);
        assert(self@ == next);
        Ok(DebtTransfer { from: interest_from, to: interest_to })
    }
}

} // verus!
