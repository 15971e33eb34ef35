//! The user position ledger: what one user supplied to and borrowed from one
//! reserve, and its reconciliation against the reserve's indices.

use crate::account::Timestamp;
use crate::fixed::{
    checked, checked_diff, checked_product, checked_sum, mul_div, mul_div_spec, MathError, E24,
};
use crate::reserve::{ReserveData, ReserveIndexes};
use vstd::prelude::*;

verus! {

/// The balances of one user in one reserve, as of the last reconciliation.
#[derive(Clone, Copy, Debug, PartialEq, Eq)]
pub struct UserReserveData {
    pub supplied: u128,
    pub variable_borrowed: u128,
    pub stable_borrowed: u128,
    /// The rate locked in for the stable debt, at scale 1e24 per unit of time.
    pub stable_borrow_rate_e24: u128,
    /// The reserve's indices at the last reconciliation.
    pub applied_indexes: ReserveIndexes,
    /// The time up to which stable interest has been charged.
    pub update_timestamp: Timestamp,
}

/// The interest that one reconciliation added to each balance of a position.
#[derive(Clone, Copy, Debug, PartialEq, Eq)]
pub struct AccruedInterest {
    pub supply: u128,
    pub variable_borrow: u128,
    pub stable_borrow: u128,
}

/// A position and its reserve after a reconciliation, with the interest added.
pub struct Reconciliation {
    pub position: UserReserveData,
    pub reserve: ReserveData,
    pub interest: AccruedInterest,
}

/// Simple interest on `principal` at `rate_e24` over `elapsed` units of time.
pub open spec fn stable_interest_spec(principal: int, rate_e24: int, elapsed: int) -> Result<
    u128,
    MathError,
> {
    match checked(rate_e24 * elapsed) {
        Err(e) => Err(e),
        Ok(growth) => mul_div_spec(principal, growth as int, E24 as int),
    }
}

impl UserReserveData {
    /// The position of a user who never touched the reserve.
    pub open spec fn empty() -> UserReserveData {
        UserReserveData {
            supplied: 0,
            variable_borrowed: 0,
            stable_borrowed: 0,
            stable_borrow_rate_e24: 0,
            applied_indexes: ReserveIndexes::initial(),
            update_timestamp: 0,
        }
    }

    pub fn new() -> (position: Self)
        ensures
            position == Self::empty(),
    {
        UserReserveData {
            supplied: 0,
            variable_borrowed: 0,
            stable_borrowed: 0,
            stable_borrow_rate_e24: 0,
            applied_indexes: ReserveIndexes::new(),
            update_timestamp: 0,
        }
    }

    /// The position brought up to the indices of `reserve`. The supplied
    /// balance grows by the ratio of the reserve's deposit index to the
    /// position's snapshot of it, the variable debt by the same ratio of the
    /// debt index, and the stable debt by simple interest at the position's
    /// own rate over the time since it was last charged, which is added to
    /// the reserve's sum of stable debt as well. The snapshot becomes the
    /// reserve's indices. An index below its snapshot, or a reserve older than
    /// the position, is an underflow.
    pub open spec fn reconciled(self, reserve: ReserveData) -> Result<Reconciliation, MathError> {
        match mul_div_spec(
            self.supplied as int,
            reserve.indexes.cumulative_deposit_index_e18 as int,
            self.applied_indexes.cumulative_deposit_index_e18 as int,
        ) {
            Err(e) => Err(e),
            Ok(supplied) => match checked(supplied - self.supplied) {
                Err(e) => Err(e),
                Ok(supply_interest) => match mul_div_spec(
                    self.variable_borrowed as int,
                    reserve.indexes.cumulative_debt_index_e18 as int,
                    self.applied_indexes.cumulative_debt_index_e18 as int,
                ) {
                    Err(e) => Err(e),
                    Ok(borrowed) => match checked(borrowed - self.variable_borrowed) {
                        Err(e) => Err(e),
                        Ok(variable_interest) => match checked(
                            reserve.last_update_timestamp - self.update_timestamp,
                        ) {
                            Err(e) => Err(e),
                            Ok(elapsed) => match stable_interest_spec(
                                self.stable_borrowed as int,
                                self.stable_borrow_rate_e24 as int,
                                elapsed as int,
                            ) {
                                Err(e) => Err(e),
                                Ok(stable_interest) => match checked(
                                    self.stable_borrowed + stable_interest,
                                ) {
                                    Err(e) => Err(e),
                                    Ok(stable) => match checked(
                                        reserve.sum_stable_debt + stable_interest,
                                    ) {
                                        Err(e) => Err(e),
                                        Ok(sum_stable) => Ok(
                                            Reconciliation {
                                                position: UserReserveData {
                                                    supplied,
                                                    variable_borrowed: borrowed,
                                                    stable_borrowed: stable,
                                                    applied_indexes: reserve.indexes,
                                                    update_timestamp:
                                                        reserve.last_update_timestamp,
                                                    ..self
                                                },
                                                reserve: ReserveData {
                                                    sum_stable_debt: sum_stable,
                                                    ..reserve
                                                },
                                                interest: AccruedInterest {
                                                    supply: supply_interest,
                                                    variable_borrow: variable_interest,
                                                    stable_borrow: stable_interest,
                                                },
                                            },
                                        ),
                                    },
                                },
                            },
                        },
                    },
                },
            },
        }
    }

    /// Reconciles the position against `reserve`, whose indices are to be up
    /// to date, and returns the interest added to each balance. On an error
    /// both are left as they were.
    pub fn accumulate_user_interest(&mut self, reserve: &mut ReserveData) -> (r: Result<
        AccruedInterest,
        MathError,
    >)
        ensures
            match old(self).reconciled(*old(reserve)) {
                Ok(done) => r == Ok::<AccruedInterest, MathError>(done.interest) && *final(self)
                    == done.position && *final(reserve) == done.reserve,
                Err(e) => r == Err::<AccruedInterest, MathError>(e) && *final(self) == *old(self)
                    && *final(reserve) == *old(reserve),
            },
    {
        let supplied = mul_div(
            self.supplied,
            reserve.indexes.cumulative_deposit_index_e18,
            self.applied_indexes.cumulative_deposit_index_e18,
        )?;
        let supply_interest = checked_diff(supplied, self.supplied)?;
        let borrowed = mul_div(
            self.variable_borrowed,
            reserve.indexes.cumulative_debt_index_e18,
            self.applied_indexes.cumulative_debt_index_e18,
        )?;
        let variable_interest = checked_diff(borrowed, self.variable_borrowed)?;
        if reserve.last_update_timestamp < self.update_timestamp {
            return Err(MathError::Underflow);
        }
        let elapsed: u128 = (reserve.last_update_timestamp - self.update_timestamp) as u128;
        let growth = checked_product(self.stable_borrow_rate_e24, elapsed)?;
        let stable_interest = mul_div(self.stable_borrowed, growth, E24)?;
        let stable = checked_sum(self.stable_borrowed, stable_interest)?;
        let sum_stable = checked_sum(reserve.sum_stable_debt, stable_interest)?;
        self.supplied = supplied;
        self.variable_borrowed = borrowed;
        self.stable_borrowed = stable;
        self.applied_indexes = reserve.indexes;
        self.update_timestamp = reserve.last_update_timestamp;
        reserve.sum_stable_debt = sum_stable;
        Ok(
            AccruedInterest {
                supply: supply_interest,
                variable_borrow: variable_interest,
                stable_borrow: stable_interest,
            },
        )
    }
}

} // verus!
