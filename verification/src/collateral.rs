//! The collateralization engine: what a user's deposits are worth as
//! collateral and what the user's debts weigh, over all reserves, and whether
//! the one covers the other.

use crate::account::Timestamp;
use crate::config::{
    borrow_coefficient, collateral_coefficient, get_rule_entry, AssetRules, MarketRule, UserConfig,
};
use crate::errors::{lift, LendingPoolError};
use crate::fixed::{checked, checked_sum, mul_div, mul_div_spec, MathError, E6};
use crate::position::UserReserveData;
use crate::records::lifted;
use crate::reserve::ReserveData;
use vstd::prelude::*;

verus! {

/// The collateral value and the debt value of a user, at the scale of prices.
#[derive(Clone, Copy, Debug, PartialEq, Eq)]
pub struct Values {
    pub collateral: u128,
    pub debt: u128,
}

/// The value of `amount` of an asset at `price_e8`, weighted by
/// `coefficient_e6`.
pub open spec fn weighted_value_spec(
    amount: int,
    price_e8: int,
    decimal_multiplier: int,
    coefficient_e6: int,
) -> Result<u128, MathError> {
    match mul_div_spec(amount, price_e8, decimal_multiplier) {
        Err(e) => Err(e),
        Ok(value) => mul_div_spec(value as int, coefficient_e6, E6 as int),
    }
}

/// The price of reserve `id`, if the oracle gave one.
pub open spec fn price_at(prices: Seq<Option<u128>>, id: int) -> Option<u128> {
    if 0 <= id < prices.len() {
        prices[id]
    } else {
        None
    }
}

/// The position in reserve `id`; an untouched one where none is kept.
pub open spec fn position_at(positions: Seq<UserReserveData>, id: int) -> UserReserveData {
    if 0 <= id < positions.len() {
        positions[id]
    } else {
        UserReserveData::empty()
    }
}

/// What the position of a user in reserve `id` adds to the user's values at
/// time `now`. A reserve in which the user holds nothing adds nothing and
/// needs no price. Otherwise the price has to be there; interest accrues on
/// the reserve and the position; the supplied balance counts as collateral,
/// weighted by the rule's collateral coefficient, where the user offers the
/// deposit as collateral and the rule has such a coefficient; the two debts
/// together count weighted by the rule's borrow coefficient, or unweighted
/// where the rule has none.
pub open spec fn reserve_values_spec(
    id: int,
    reserve: ReserveData,
    position: UserReserveData,
    config: UserConfig,
    rule: Seq<Option<AssetRules>>,
    price: Option<u128>,
    now: Timestamp,
) -> Result<Values, LendingPoolError> {
    if !config.holds(id) {
        Ok(Values { collateral: 0, debt: 0 })
    } else {
        match price {
            None => Err(LendingPoolError::PriceMissing),
            Some(price_e8) => match lift(reserve.accrued(now)) {
                Err(e) => Err(e),
                Ok(accrued) => match lift(position.reconciled(accrued)) {
                    Err(e) => Err(e),
                    Ok(done) => match lift(
                        match collateral_coefficient(rule, id) {
                            Some(c) if config.deposits@.contains(id) && config.collaterals@.contains(
                                id,
                            ) => weighted_value_spec(
                                done.position.supplied as int,
                                price_e8 as int,
                                reserve.decimal_multiplier as int,
                                c as int,
                            ),
                            _ => Ok(0),
                        },
                    ) {
                        Err(e) => Err(e),
                        Ok(collateral) => match lift(
                            checked(
                                done.position.variable_borrowed + done.position.stable_borrowed,
                            ),
                        ) {
                            Err(e) => Err(e),
                            Ok(owed) => match lift(
                                weighted_value_spec(
                                    owed as int,
                                    price_e8 as int,
                                    reserve.decimal_multiplier as int,
                                    match borrow_coefficient(rule, id) {
                                        Some(c) => c as int,
                                        None => E6 as int,
                                    },
                                ),
                            ) {
                                Err(e) => Err(e),
                                Ok(debt) => Ok(Values { collateral, debt }),
                            },
                        },
                    },
                },
            },
        }
    }
}

/// The values of a user over the first `upto` reserves, taken in the order of
/// their ids; the first reserve that fails decides the error.
pub open spec fn user_values_spec(
    reserves: Seq<ReserveData>,
    positions: Seq<UserReserveData>,
    config: UserConfig,
    rule: Seq<Option<AssetRules>>,
    prices: Seq<Option<u128>>,
    now: Timestamp,
    upto: nat,
) -> Result<Values, LendingPoolError>
    decreases upto,
{
    if upto == 0 || upto > reserves.len() {
        Ok(Values { collateral: 0, debt: 0 })
    } else {
        let id = upto - 1;
        match user_values_spec(reserves, positions, config, rule, prices, now, id as nat) {
            Err(e) => Err(e),
            Ok(before) => match reserve_values_spec(
                id,
                reserves[id],
                position_at(positions, id),
                config,
                rule,
                price_at(prices, id),
                now,
            ) {
                Err(e) => Err(e),
                Ok(here) => match lift(checked(before.collateral + here.collateral)) {
                    Err(e) => Err(e),
                    Ok(collateral) => match lift(checked(before.debt + here.debt)) {
                        Err(e) => Err(e),
                        Ok(debt) => Ok(Values { collateral, debt }),
                    },
                },
            },
        }
    }
}

/// Whether the collateral covers the debt, and by how much the two differ:
/// the free collateral of a covered user, the deficit of one who is not.
pub open spec fn free_collateral_spec(values: Values) -> (bool, u128) {
    if values.collateral >= values.debt {
        (true, (values.collateral - values.debt) as u128)
    } else {
        (false, (values.debt - values.collateral) as u128)
    }
}

/// The solvency guard over the records of one user: the values can be
/// computed and the collateral covers the debt.
pub open spec fn guard_spec(
    reserves: Seq<ReserveData>,
    positions: Seq<UserReserveData>,
    config: UserConfig,
    rule: Seq<Option<AssetRules>>,
    prices: Seq<Option<u128>>,
    now: Timestamp,
) -> Result<(), LendingPoolError> {
    match user_values_spec(reserves, positions, config, rule, prices, now, reserves.len()) {
        Err(e) => Err(e),
        Ok(values) => if values.collateral >= values.debt {
            Ok(())
        } else {
            Err(LendingPoolError::InsufficientUserFreeCollateral)
        },
    }
}

/// Whether a user with these records is covered at time `now`.
pub open spec fn is_collateralized(
    reserves: Seq<ReserveData>,
    positions: Seq<UserReserveData>,
    config: UserConfig,
    rule: Seq<Option<AssetRules>>,
    prices: Seq<Option<u128>>,
    now: Timestamp,
) -> bool {
    match user_values_spec(reserves, positions, config, rule, prices, now, reserves.len()) {
        Ok(values) => values.collateral >= values.debt,
        Err(_) => false,
    }
}

/// An error met at one reserve is the error of every evaluation that goes
/// further.
pub proof fn lemma_error_stays(
    reserves: Seq<ReserveData>,
    positions: Seq<UserReserveData>,
    config: UserConfig,
    rule: Seq<Option<AssetRules>>,
    prices: Seq<Option<u128>>,
    now: Timestamp,
    at: nat,
    upto: nat,
)
    requires
        at <= upto <= reserves.len(),
        user_values_spec(reserves, positions, config, rule, prices, now, at) is Err,
    ensures
        user_values_spec(reserves, positions, config, rule, prices, now, upto)
            == user_values_spec(reserves, positions, config, rule, prices, now, at),
    decreases upto,
{
    if at < upto {
        lemma_error_stays(reserves, positions, config, rule, prices, now, at, (upto - 1) as nat);
    }
}

fn weighted_value(amount: u128, price_e8: u128, decimal_multiplier: u128, coefficient_e6: u128) -> (r:
    Result<u128, MathError>)
    ensures
        r == weighted_value_spec(
            amount as int,
            price_e8 as int,
            decimal_multiplier as int,
            coefficient_e6 as int,
        ),
{
    let value = mul_div(amount, price_e8, decimal_multiplier)?;
    mul_div(value, coefficient_e6, E6)
}

/// Computes what one reserve adds to the values of a user.
pub fn reserve_values(
    id: usize,
    reserve: &ReserveData,
    position: &UserReserveData,
    config: &UserConfig,
    rule: &MarketRule,
    price: Option<u128>,
    now: Timestamp,
) -> (r: Result<Values, LendingPoolError>)
    ensures
        r == reserve_values_spec(id as int, *reserve, *position, *config, rule@, price, now),
{
    if id >= 128 {
        return Ok(Values { collateral: 0, debt: 0 });
    }
    let bit: u32 = id as u32;
    let deposited = config.deposits.contains(bit);
    if !(deposited || config.borrows_variable.contains(bit) || config.borrows_stable.contains(bit)) {
        return Ok(Values { collateral: 0, debt: 0 });
    }
    let price_e8: u128 = match price {
        Some(p) => p,
        None => {
            return Err(LendingPoolError::PriceMissing);
        },
    };
    let mut accrued = *reserve;
    lifted(accrued.accumulate_interest(now))?;
    let mut reconciled = *position;
    lifted(reconciled.accumulate_user_interest(&mut accrued))?;
    let entry = get_rule_entry(rule, bit);
    let weight: Option<u128> = match entry {
        Some(rules) => rules.collateral_coefficient_e6,
        None => None,
    };
    let collateral: u128 = match weight {
        Some(c) => {
            if deposited && config.collaterals.contains(bit) {
                lifted(weighted_value(reconciled.supplied, price_e8, reserve.decimal_multiplier, c))?
            } else {
                0
            }
        },
        None => 0,
    };
    let owed = lifted(checked_sum(reconciled.variable_borrowed, reconciled.stable_borrowed))?;
    let burden: u128 = match entry {
        Some(rules) => match rules.borrow_coefficient_e6 {
            Some(c) => c,
            None => E6,
        },
        None => E6,
    };
    let debt = lifted(weighted_value(owed, price_e8, reserve.decimal_multiplier, burden))?;
    Ok(Values { collateral, debt })
}

/// Computes the values of a user over all reserves.
pub fn user_values(
    reserves: &Vec<ReserveData>,
    positions: &Vec<UserReserveData>,
    config: &UserConfig,
    rule: &MarketRule,
    prices: &Vec<Option<u128>>,
    now: Timestamp,
) -> (r: Result<Values, LendingPoolError>)
    ensures
        r == user_values_spec(
            reserves@,
            positions@,
            *config,
            rule@,
            prices@,
            now,
            reserves@.len(),
        ),
{
    let mut total = Values { collateral: 0, debt: 0 };
    let mut i: usize = 0;
    let empty = UserReserveData::new();
    while i < reserves.len()
        invariant
            i <= reserves.len(),
            empty == UserReserveData::empty(),
            Ok::<Values, LendingPoolError>(total) == user_values_spec(
                reserves@,
                positions@,
                *config,
                rule@,
                prices@,
                now,
                i as nat,
            ),
        decreases reserves.len() - i,
    {
        let position: UserReserveData = if i < positions.len() {
            positions[i]
        } else {
            empty
        };
        let price: Option<u128> = if i < prices.len() {
            prices[i]
        } else {
            None
        };
        let step = match reserve_values(i, &reserves[i], &position, config, rule, price, now) {
            Err(e) => Err(e),
            Ok(here) => match lifted(checked_sum(total.collateral, here.collateral)) {
                Err(e) => Err(e),
                Ok(collateral) => match lifted(checked_sum(total.debt, here.debt)) {
                    Err(e) => Err(e),
                    Ok(debt) => Ok(Values { collateral, debt }),
                },
            },
        };
        assert(step == user_values_spec(
            reserves@,
            positions@,
            *config,
            rule@,
            prices@,
            now,
            (i + 1) as nat,
        ));
        match step {
            Ok(next) => {
                total = next;
            },
            Err(e) => {
                proof {
                    lemma_error_stays(
                        reserves@,
                        positions@,
                        *config,
                        rule@,
                        prices@,
                        now,
                        (i + 1) as nat,
                        reserves@.len(),
                    );
                }
                return Err(e);
            },
        }
        i = i + 1;
    }
    Ok(total)
}

/// Checks that the collateral of a user covers the debt.
pub fn check_user_free_collateral(
    reserves: &Vec<ReserveData>,
    positions: &Vec<UserReserveData>,
    config: &UserConfig,
    rule: &MarketRule,
    prices: &Vec<Option<u128>>,
    now: Timestamp,
) -> (r: Result<(), LendingPoolError>)
    ensures
        r == guard_spec(reserves@, positions@, *config, rule@, prices@, now),
        r is Ok ==> is_collateralized(reserves@, positions@, *config, rule@, prices@, now),
{
    let values = user_values(reserves, positions, config, rule, prices, now)?;
    if values.collateral >= values.debt {
        Ok(())
    } else {
        Err(LendingPoolError::InsufficientUserFreeCollateral)
    }
}

/// Tells whether the collateral covers the debt, and the difference.
pub fn free_collateral(values: &Values) -> (r: (bool, u128))
    ensures
        r == free_collateral_spec(*values),
{
    if values.collateral >= values.debt {
        (true, values.collateral - values.debt)
    } else {
        (false, values.debt - values.collateral)
    }
}

} // verus!
