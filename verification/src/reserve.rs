//! The reserve ledger: the aggregate state of one listed asset, its interest
//! rates and the accrual of interest into its indices and totals.

use crate::account::{AccountId, Timestamp};
use crate::fixed::{
    checked, checked_diff, checked_sum, mul_add_mul_div, mul_add_mul_div_spec, mul_div,
    mul_div_spec, MathError, E18, E6,
};
use vstd::prelude::*;

verus! {

/// The wrapped-balance tokens of a reserve.
#[derive(Clone, Copy, Debug, PartialEq, Eq)]
pub struct ReserveAbacusTokens {
    /// Token that represents deposits.
    pub a_token_address: AccountId,
    /// Token that represents variable debt.
    pub v_token_address: AccountId,
}

impl ReserveAbacusTokens {
    pub fn new(a_token_address: &AccountId, v_token_address: &AccountId) -> (tokens: Self)
        ensures
            tokens.a_token_address == *a_token_address,
            tokens.v_token_address == *v_token_address,
    {
        ReserveAbacusTokens {
            a_token_address: *a_token_address,
            v_token_address: *v_token_address,
        }
    }
}

/// The cumulative multipliers of a reserve, at scale 1e18.
#[derive(Clone, Copy, Debug, PartialEq, Eq)]
pub struct ReserveIndexes {
    /// Index by which deposits grow.
    pub cumulative_deposit_index_e18: u128,
    /// Index by which variable debt grows.
    pub cumulative_debt_index_e18: u128,
}

impl ReserveIndexes {
    /// The indices of a reserve on which no interest has accrued.
    pub open spec fn initial() -> ReserveIndexes {
        ReserveIndexes { cumulative_deposit_index_e18: E18, cumulative_debt_index_e18: E18 }
    }

    pub fn new() -> (indexes: Self)
        ensures
            indexes == Self::initial(),
    {
        ReserveIndexes { cumulative_deposit_index_e18: E18, cumulative_debt_index_e18: E18 }
    }
}

/// Ceilings and floors on the amounts of a reserve.
#[derive(Clone, Copy, Debug, PartialEq, Eq)]
pub struct ReserveRestrictions {
    /// Ceiling on the total supplied; `None` is unbounded.
    pub maximal_total_supply: Option<u128>,
    /// Ceiling on the total debt; `None` is unbounded.
    pub maximal_total_debt: Option<u128>,
    /// Least deposit that may serve as collateral.
    pub minimal_collateral: u128,
    /// Least debt a user may hold of one kind.
    pub minimal_debt: u128,
}

impl ReserveRestrictions {
    pub fn new(
        maximal_total_supply: &Option<u128>,
        maximal_total_debt: &Option<u128>,
        minimal_collateral: &u128,
        minimal_debt: &u128,
    ) -> (restrictions: Self)
        ensures
            restrictions == (ReserveRestrictions {
                maximal_total_supply: *maximal_total_supply,
                maximal_total_debt: *maximal_total_debt,
                minimal_collateral: *minimal_collateral,
                minimal_debt: *minimal_debt,
            }),
    {
        ReserveRestrictions {
            maximal_total_supply: *maximal_total_supply,
            maximal_total_debt: *maximal_total_debt,
            minimal_collateral: *minimal_collateral,
            minimal_debt: *minimal_debt,
        }
    }
}

/// The parameters from which a reserve derives its rates and fees.
#[derive(Clone, Copy, Debug, PartialEq, Eq)]
pub struct ReserveDataParameters {
    /// Debt rates, at scale 1e24 per unit of time, reached at utilizations of
    /// 68%, 84%, 92%, 96%, 98%, 99% and 100%.
    pub interest_rate_model: [u128; 7],
    /// Share of the interest income that goes to suppliers, at scale 1e6.
    pub income_for_suppliers_part_e6: u128,
    /// Fee on flash loans, at scale 1e6.
    pub flash_loan_fee_e6: u128,
}

/// The aggregate ledger of one listed asset.
#[derive(Clone, Copy, Debug, PartialEq, Eq)]
pub struct ReserveData {
    /// Position of the reserve in the membership sets of users.
    pub id: u32,
    pub active: bool,
    pub frozen: bool,
    /// Ten to the power of the asset's decimals.
    pub decimal_multiplier: u128,
    pub parameters: ReserveDataParameters,
    pub restrictions: ReserveRestrictions,
    pub tokens: ReserveAbacusTokens,
    pub total_supplied: u128,
    pub total_variable_borrowed: u128,
    pub sum_stable_debt: u128,
    /// Average of the stable rates, weighted by principal, at scale 1e24.
    pub average_stable_rate_e24: u128,
    /// Rate at which deposits grow, at scale 1e24 per unit of time.
    pub current_deposit_rate_e24: u128,
    /// Rate at which variable debt grows, at scale 1e24 per unit of time.
    pub current_debt_rate_e24: u128,
    pub indexes: ReserveIndexes,
    pub last_update_timestamp: Timestamp,
}

/// The rate on the segment of the curve that starts at utilization `from`
/// with rate `low` and reaches rate `high` after `width`.
pub open spec fn rate_between_spec(low: int, high: int, from: int, width: int, u: int) -> Result<
    u128,
    MathError,
> {
    if high < low {
        Err(MathError::Underflow)
    } else {
        checked(low + (high - low) * (u - from) / width)
    }
}

/// The debt rate that a model gives at utilization `u`: linear between the
/// knots, from zero at no utilization, and in proportion to the utilization
/// beyond the last knot.
pub open spec fn debt_rate_spec(model: [u128; 7], u: int) -> Result<u128, MathError> {
    if u < 680_000 {
        rate_between_spec(0, model[0] as int, 0, 680_000, u)
    } else if u < 840_000 {
        rate_between_spec(model[0] as int, model[1] as int, 680_000, 160_000, u)
    } else if u < 920_000 {
        rate_between_spec(model[1] as int, model[2] as int, 840_000, 80_000, u)
    } else if u < 960_000 {
        rate_between_spec(model[2] as int, model[3] as int, 920_000, 40_000, u)
    } else if u < 980_000 {
        rate_between_spec(model[3] as int, model[4] as int, 960_000, 20_000, u)
    } else if u < 990_000 {
        rate_between_spec(model[4] as int, model[5] as int, 980_000, 10_000, u)
    } else if u < 1_000_000 {
        rate_between_spec(model[5] as int, model[6] as int, 990_000, 10_000, u)
    } else {
        mul_div_spec(model[6] as int, u, E6 as int)
    }
}

/// The share of the supply that is lent out, at scale 1e6; zero where
/// nothing is supplied.
pub open spec fn utilization_spec(total_debt: int, total_supplied: int) -> Result<
    u128,
    MathError,
> {
    if total_supplied == 0 {
        Ok(0)
    } else {
        match checked(total_debt) {
            Ok(debt) => mul_div_spec(debt as int, E6 as int, total_supplied),
            Err(e) => Err(e),
        }
    }
}

/// The factor, at scale 1e18, by which an index grows over `elapsed` units of
/// time at `rate_e24`.
pub open spec fn index_multiplier_spec(rate_e24: int, elapsed: int) -> Result<u128, MathError> {
    match mul_div_spec(rate_e24, elapsed, E6 as int) {
        Ok(growth) => checked(E18 + growth),
        Err(e) => Err(e),
    }
}

proof fn lemma_quotient_nonnegative(a: int, b: int, d: int)
    by (nonlinear_arith)
    requires
        a >= 0,
        b >= 0,
        d > 0,
    ensures
        a * b / d >= 0,
{
}

fn rate_between(low: u128, high: u128, from: u128, width: u128, u: u128) -> (r: Result<
    u128,
    MathError,
>)
    requires
        from <= u,
        width > 0,
    ensures
        r == rate_between_spec(low as int, high as int, from as int, width as int, u as int),
{
    let rise = checked_diff(high, low)?;
    proof {
        lemma_quotient_nonnegative(rise as int, u - from, width as int);
    }
    let part = mul_div(rise, u - from, width)?;
    checked_sum(low, part)
}

/// The debt rate of `model` at utilization `utilization_e6`.
pub fn debt_rate(model: &[u128; 7], utilization_e6: u128) -> (r: Result<u128, MathError>)
    ensures
        r == debt_rate_spec(*model, utilization_e6 as int),
{
    let u = utilization_e6;
    if u < 680_000 {
        rate_between(0, model[0], 0, 680_000, u)
    } else if u < 840_000 {
        rate_between(model[0], model[1], 680_000, 160_000, u)
    } else if u < 920_000 {
        rate_between(model[1], model[2], 840_000, 80_000, u)
    } else if u < 960_000 {
        rate_between(model[2], model[3], 920_000, 40_000, u)
    } else if u < 980_000 {
        rate_between(model[3], model[4], 960_000, 20_000, u)
    } else if u < 990_000 {
        rate_between(model[4], model[5], 980_000, 10_000, u)
    } else if u < 1_000_000 {
        rate_between(model[5], model[6], 990_000, 10_000, u)
    } else {
        mul_div(model[6], u, E6)
    }
}

/// The utilization of a reserve whose debt is `variable + stable + opening`.
pub fn utilization(variable: u128, stable: u128, opening: u128, total_supplied: u128) -> (r: Result<
    u128,
    MathError,
>)
    ensures
        r == utilization_spec(variable + stable + opening, total_supplied as int),
{
    if total_supplied == 0 {
        return Ok(0);
    }
    let standing = checked_sum(variable, stable)?;
    let debt = checked_sum(standing, opening)?;
    mul_div(debt, E6, total_supplied)
}

fn index_multiplier(rate_e24: u128, elapsed: u128) -> (r: Result<u128, MathError>)
    ensures
        r == index_multiplier_spec(rate_e24 as int, elapsed as int),
{
    let growth = mul_div(rate_e24, elapsed, E6)?;
    checked_sum(E18, growth)
}

/// The rate that a reserve offers on a stable loan of `amount`: the debt rate
/// at the utilization that the loan brings about.
pub open spec fn stable_rate_after_borrow_spec(reserve: ReserveData, amount: int) -> Result<
    u128,
    MathError,
> {
    match utilization_spec(reserve.total_debt() + amount, reserve.total_supplied as int) {
        Err(e) => Err(e),
        Ok(u) => debt_rate_spec(reserve.parameters.interest_rate_model, u as int),
    }
}

impl ReserveData {
    /// The rate offered on a stable loan of `amount`.
    pub fn after_borrow_stable_borrow_rate_e24(&self, amount: u128) -> (r: Result<u128, MathError>)
        ensures
            r == stable_rate_after_borrow_spec(*self, amount as int),
    {
        let u = utilization(
            self.total_variable_borrowed,
            self.sum_stable_debt,
            amount,
            self.total_supplied,
        )?;
        debt_rate(&self.parameters.interest_rate_model, u)
    }

    /// A reserve without balances, listed at `timestamp`.
    pub open spec fn initial(
        id: u32,
        decimal_multiplier: u128,
        parameters: ReserveDataParameters,
        restrictions: ReserveRestrictions,
        tokens: ReserveAbacusTokens,
        timestamp: Timestamp,
    ) -> ReserveData {
        ReserveData {
            id,
            active: true,
            frozen: false,
            decimal_multiplier,
            parameters,
            restrictions,
            tokens,
            total_supplied: 0,
            total_variable_borrowed: 0,
            sum_stable_debt: 0,
            average_stable_rate_e24: 0,
            current_deposit_rate_e24: 0,
            current_debt_rate_e24: 0,
            indexes: ReserveIndexes::initial(),
            last_update_timestamp: timestamp,
        }
    }

    pub fn new(
        id: u32,
        decimal_multiplier: u128,
        parameters: &ReserveDataParameters,
        restrictions: &ReserveRestrictions,
        tokens: &ReserveAbacusTokens,
        timestamp: &Timestamp,
    ) -> (reserve: Self)
        ensures
            reserve == Self::initial(
                id,
                decimal_multiplier,
                *parameters,
                *restrictions,
                *tokens,
                *timestamp,
            ),
    {
        ReserveData {
            id,
            active: true,
            frozen: false,
            decimal_multiplier,
            parameters: *parameters,
            restrictions: *restrictions,
            tokens: *tokens,
            total_supplied: 0,
            total_variable_borrowed: 0,
            sum_stable_debt: 0,
            average_stable_rate_e24: 0,
            current_deposit_rate_e24: 0,
            current_debt_rate_e24: 0,
            indexes: ReserveIndexes::new(),
            last_update_timestamp: *timestamp,
        }
    }

    /// Variable and stable debt together.
    pub open spec fn total_debt(self) -> int {
        self.total_variable_borrowed + self.sum_stable_debt
    }

    /// The reserve with its rates derived anew from its totals. The debt rate
    /// is that of the model at the current utilization. The deposit rate is
    /// the suppliers' share of the interest that variable and stable debt pay
    /// per unit supplied. Both are zero where nothing is supplied.
    pub open spec fn recalculated(self) -> Result<ReserveData, MathError> {
        if self.total_supplied == 0 {
            Ok(ReserveData { current_deposit_rate_e24: 0, current_debt_rate_e24: 0, ..self })
        } else {
            match utilization_spec(self.total_debt(), self.total_supplied as int) {
                Err(e) => Err(e),
                Ok(u) => match debt_rate_spec(self.parameters.interest_rate_model, u as int) {
                    Err(e) => Err(e),
                    Ok(debt_rate) => match mul_add_mul_div_spec(
                        self.total_variable_borrowed as int,
                        debt_rate as int,
                        self.sum_stable_debt as int,
                        self.average_stable_rate_e24 as int,
                        self.total_supplied as int,
                    ) {
                        Err(e) => Err(e),
                        Ok(income) => match mul_div_spec(
                            income as int,
                            self.parameters.income_for_suppliers_part_e6 as int,
                            E6 as int,
                        ) {
                            Err(e) => Err(e),
                            Ok(deposit_rate) => Ok(
                                ReserveData {
                                    current_deposit_rate_e24: deposit_rate,
                                    current_debt_rate_e24: debt_rate,
                                    ..self
                                },
                            ),
                        },
                    },
                },
            }
        }
    }

    /// The reserve with interest accrued up to `now`. Each index grows by the
    /// factor that its current rate gives for the elapsed time, and both
    /// totals grow by the ratio of the new debt index to the old one. Nothing
    /// changes when no time has passed; a clock that moved backward is an
    /// underflow.
    pub open spec fn accrued(self, now: Timestamp) -> Result<ReserveData, MathError> {
        if now < self.last_update_timestamp {
            Err(MathError::Underflow)
        } else if now == self.last_update_timestamp {
            Ok(self)
        } else {
            let elapsed = now - self.last_update_timestamp;
            let old_deposit = self.indexes.cumulative_deposit_index_e18 as int;
            let old_debt = self.indexes.cumulative_debt_index_e18 as int;
            match index_multiplier_spec(self.current_deposit_rate_e24 as int, elapsed) {
                Err(e) => Err(e),
                Ok(deposit_factor) => match index_multiplier_spec(
                    self.current_debt_rate_e24 as int,
                    elapsed,
                ) {
                    Err(e) => Err(e),
                    Ok(debt_factor) => match mul_div_spec(
                        old_deposit,
                        deposit_factor as int,
                        E18 as int,
                    ) {
                        Err(e) => Err(e),
                        Ok(new_deposit) => match mul_div_spec(
                            old_debt,
                            debt_factor as int,
                            E18 as int,
                        ) {
                            Err(e) => Err(e),
                            Ok(new_debt) => match mul_div_spec(
                                self.total_supplied as int,
                                new_debt as int,
                                old_debt,
                            ) {
                                Err(e) => Err(e),
                                Ok(supplied) => match mul_div_spec(
                                    self.total_variable_borrowed as int,
                                    new_debt as int,
                                    old_debt,
                                ) {
                                    Err(e) => Err(e),
                                    Ok(borrowed) => Ok(
                                        ReserveData {
                                            total_supplied: supplied,
                                            total_variable_borrowed: borrowed,
                                            indexes: ReserveIndexes {
                                                cumulative_deposit_index_e18: new_deposit,
                                                cumulative_debt_index_e18: new_debt,
                                            },
                                            last_update_timestamp: now,
                                            ..self
                                        },
                                    ),
                                },
                            },
                        },
                    },
                },
            }
        }
    }

    /// Accrual changes the totals, the indices and the time of the last
    /// update, and nothing else.
    pub proof fn lemma_accrual_keeps_identity(self, now: Timestamp)
        ensures
            match self.accrued(now) {
                Ok(after) => after == (ReserveData {
                    total_supplied: after.total_supplied,
                    total_variable_borrowed: after.total_variable_borrowed,
                    indexes: after.indexes,
                    last_update_timestamp: now,
                    ..self
                }),
                Err(_) => true,
            },
    {
    }

    /// Derives the current rates from the totals. On an error the reserve is
    /// left as it was.
    pub fn recalculate_current_rates(&mut self) -> (r: Result<(), MathError>)
        ensures
            match old(self).recalculated() {
                Ok(reserve) => r is Ok && *final(self) == reserve,
                Err(e) => r == Err::<(), MathError>(e) && *final(self) == *old(self),
            },
    {
        if self.total_supplied == 0 {
            self.current_deposit_rate_e24 = 0;
            self.current_debt_rate_e24 = 0;
            return Ok(());
        }
        let u = utilization(
            self.total_variable_borrowed,
            self.sum_stable_debt,
            0,
            self.total_supplied,
        )?;
        let debt_rate = debt_rate(&self.parameters.interest_rate_model, u)?;
        let income = mul_add_mul_div(
            self.total_variable_borrowed,
            debt_rate,
            self.sum_stable_debt,
            self.average_stable_rate_e24,
            self.total_supplied,
        )?;
        let deposit_rate = mul_div(income, self.parameters.income_for_suppliers_part_e6, E6)?;
        self.current_deposit_rate_e24 = deposit_rate;
        self.current_debt_rate_e24 = debt_rate;
        Ok(())
    }

    /// Accrues interest up to `new_timestamp`. On an error the reserve is left
    /// as it was.
    pub fn accumulate_interest(&mut self, new_timestamp: Timestamp) -> (r: Result<(), MathError>)
        ensures
            match old(self).accrued(new_timestamp) {
                Ok(reserve) => r is Ok && *final(self) == reserve,
                Err(e) => r == Err::<(), MathError>(e) && *final(self) == *old(self),
            },
    {
        if new_timestamp < self.last_update_timestamp {
            return Err(MathError::Underflow);
        }
        if new_timestamp == self.last_update_timestamp {
            return Ok(());
        }
        let elapsed: u128 = (new_timestamp - self.last_update_timestamp) as u128;
        let old_debt = self.indexes.cumulative_debt_index_e18;
        let deposit_factor = index_multiplier(self.current_deposit_rate_e24, elapsed)?;
        let debt_factor = index_multiplier(self.current_debt_rate_e24, elapsed)?;
        let new_deposit = mul_div(self.indexes.cumulative_deposit_index_e18, deposit_factor, E18)?;
        let new_debt = mul_div(old_debt, debt_factor, E18)?;
        let supplied = mul_div(self.total_supplied, new_debt, old_debt)?;
        let borrowed = mul_div(self.total_variable_borrowed, new_debt, old_debt)?;
        self.total_supplied = supplied;
        self.total_variable_borrowed = borrowed;
        self.indexes.cumulative_deposit_index_e18 = new_deposit;
        self.indexes.cumulative_debt_index_e18 = new_debt;
        self.last_update_timestamp = new_timestamp;
        Ok(())
    }
}

} // verus!
