//! What holds of the ledger whatever the inputs: the laws that the
//! transitions obey.

use crate::account::{AccountId, Timestamp};
use crate::actions::borrow::{
    average_after_repay_spec, blended_rate_spec, borrow_spec, borrow_stable_spec,
    repay_spec, repay_stable_spec, weighted_mean_spec, MODE_STABLE, MODE_VARIABLE,
};
use crate::actions::deposit::{amount_or_all, deposit_spec, redeem_spec};
use crate::bitset::ReserveSet;
use crate::collateral::position_at;
use crate::config::{AssetRules, UserConfig};
use crate::errors::{LendingPoolError, LendingPoolTokenInterfaceError};
use crate::fixed::{MathError, E18, E24};
use crate::pool::PoolView;
use crate::position::{AccruedInterest, UserReserveData};
use crate::records::{bits_match, borrowing_enabled_spec, same_elsewhere, Receipt, Records};
use crate::v_token_interface::{
    lemma_transfer_in_keeps_membership, lemma_transfer_out_keeps_membership, transfer_in_spec,
    transfer_out_spec, DebtTransfer,
};
use crate::manage::AssetRegistration;
use crate::reserve::{
    debt_rate_spec, index_multiplier_spec, ReserveData, ReserveDataParameters, ReserveIndexes,
};
use vstd::arithmetic::div_mod::{
    lemma_div_is_ordered, lemma_div_multiples_vanish, lemma_fundamental_div_mod,
    lemma_mod_pos_bound,
};
use vstd::prelude::*;

verus! {

/// Whether no index of `after` is below the same index of `before`.
pub open spec fn not_below(after: ReserveIndexes, before: ReserveIndexes) -> bool {
    &&& after.cumulative_deposit_index_e18 >= before.cumulative_deposit_index_e18
    &&& after.cumulative_debt_index_e18 >= before.cumulative_debt_index_e18
}

proof fn lemma_scaled_up(index: int, factor: int, unit: int)
    requires
        index >= 0,
        factor >= unit > 0,
    ensures
        index * factor / unit >= index,
{
    assert(unit * index <= index * factor) by (nonlinear_arith)
        requires
            index >= 0,
            factor >= unit > 0,
    ;
    lemma_div_is_ordered(unit * index, index * factor, unit);
    lemma_div_multiples_vanish(index, unit);
}

/// Accrual never lowers an index of a reserve, and accrual over no time
/// changes nothing.
pub proof fn lemma_accrual_is_monotonic(reserve: ReserveData, now: Timestamp)
    ensures
        reserve.accrued(now) matches Ok(after) ==> not_below(after.indexes, reserve.indexes),
        now == reserve.last_update_timestamp ==> reserve.accrued(now) == Ok::<
            ReserveData,
            MathError,
        >(reserve),
{
    if now > reserve.last_update_timestamp {
        let elapsed = now - reserve.last_update_timestamp;
        if let Ok(f) = index_multiplier_spec(reserve.current_deposit_rate_e24 as int, elapsed) {
            lemma_scaled_up(
                reserve.indexes.cumulative_deposit_index_e18 as int,
                f as int,
                E18 as int,
            );
        }
        if let Ok(f) = index_multiplier_spec(reserve.current_debt_rate_e24 as int, elapsed) {
            lemma_scaled_up(reserve.indexes.cumulative_debt_index_e18 as int, f as int, E18 as int);
        }
    }
}

/// No action on the records of a reserve lowers an index of the reserve.
pub proof fn lemma_actions_keep_indexes_monotonic(
    records: Records,
    entry: Option<AssetRules>,
    amount: u128,
    named: Option<u128>,
    data: Seq<u8>,
    now: Timestamp,
)
    ensures
        deposit_spec(records, amount, now) matches Ok((after, _)) ==> not_below(
            after.reserve.indexes,
            records.reserve.indexes,
        ),
        redeem_spec(records, named, now) matches Ok((after, _)) ==> not_below(
            after.reserve.indexes,
            records.reserve.indexes,
        ),
        borrow_spec(records, entry, amount, data, now) matches Ok((after, _)) ==> not_below(
            after.reserve.indexes,
            records.reserve.indexes,
        ),
        repay_spec(records, named, data, now) matches Ok((after, _)) ==> not_below(
            after.reserve.indexes,
            records.reserve.indexes,
        ),
{
    lemma_accrual_is_monotonic(records.reserve, now);
}

/// Whether the rates of a model do not fall from one knot to the next.
pub open spec fn rises(model: [u128; 7]) -> bool {
    model[0] <= model[1] <= model[2] <= model[3] <= model[4] <= model[5] <= model[6]
}

proof fn lemma_whole_quotient(x: int, d: int)
    requires
        d > 0,
    ensures
        (x * d) / d == x,
        (0 * x) / d == 0,
{
    lemma_div_multiples_vanish(x, d);
    assert(x * d == d * x) by (nonlinear_arith);
    assert(0 * x == d * 0) by (nonlinear_arith);
    lemma_div_multiples_vanish(0, d);
}

/// A model whose rates rise gives no rate at no utilization and, at each
/// knot, the rate that it names for the knot.
pub proof fn lemma_debt_rate_at_the_knots(model: [u128; 7])
    requires
        rises(model),
    ensures
        debt_rate_spec(model, 0) == Ok::<u128, MathError>(0),
        debt_rate_spec(model, 680_000) == Ok::<u128, MathError>(model[0]),
        debt_rate_spec(model, 840_000) == Ok::<u128, MathError>(model[1]),
        debt_rate_spec(model, 920_000) == Ok::<u128, MathError>(model[2]),
        debt_rate_spec(model, 960_000) == Ok::<u128, MathError>(model[3]),
        debt_rate_spec(model, 980_000) == Ok::<u128, MathError>(model[4]),
        debt_rate_spec(model, 990_000) == Ok::<u128, MathError>(model[5]),
        debt_rate_spec(model, 1_000_000) == Ok::<u128, MathError>(model[6]),
{
    lemma_whole_quotient(model[0] as int, 680_000);
    lemma_whole_quotient(model[1] - model[0], 160_000);
    lemma_whole_quotient(model[2] - model[1], 80_000);
    lemma_whole_quotient(model[3] - model[2], 40_000);
    lemma_whole_quotient(model[4] - model[3], 20_000);
    lemma_whole_quotient(model[5] - model[4], 10_000);
    lemma_whole_quotient(model[6] - model[5], 10_000);
    lemma_whole_quotient(model[6] as int, 1_000_000);
}

proof fn lemma_segment_is_monotonic(low: int, high: int, from: int, width: int, u: int, v: int)
    requires
        0 <= low <= high,
        width > 0,
        from <= u <= v <= from + width,
    ensures
        low <= low + (high - low) * (u - from) / width <= low + (high - low) * (v - from) / width
            <= high,
{
    let rise = high - low;
    assert(0 <= rise * (u - from) <= rise * (v - from) <= width * rise) by (nonlinear_arith)
        requires
            rise >= 0,
            0 <= u - from <= v - from <= width,
    ;
    lemma_div_is_ordered(0, rise * (u - from), width);
    lemma_div_is_ordered(rise * (u - from), rise * (v - from), width);
    lemma_div_is_ordered(rise * (v - from), width * rise, width);
    lemma_div_multiples_vanish(rise, width);
}

proof fn lemma_rate_within_its_segment(model: [u128; 7], u: int)
    requires
        rises(model),
        0 <= u < 1_000_000,
    ensures
        debt_rate_spec(model, u) matches Ok(rate) && {
            &&& u < 680_000 ==> 0 <= rate <= model[0]
            &&& 680_000 <= u < 840_000 ==> model[0] <= rate <= model[1]
            &&& 840_000 <= u < 920_000 ==> model[1] <= rate <= model[2]
            &&& 920_000 <= u < 960_000 ==> model[2] <= rate <= model[3]
            &&& 960_000 <= u < 980_000 ==> model[3] <= rate <= model[4]
            &&& 980_000 <= u < 990_000 ==> model[4] <= rate <= model[5]
            &&& 990_000 <= u ==> model[5] <= rate <= model[6]
        },
{
    let m = model;
    if u < 680_000 {
        lemma_segment_is_monotonic(0, m[0] as int, 0, 680_000, u, u);
    } else if u < 840_000 {
        lemma_segment_is_monotonic(m[0] as int, m[1] as int, 680_000, 160_000, u, u);
    } else if u < 920_000 {
        lemma_segment_is_monotonic(m[1] as int, m[2] as int, 840_000, 80_000, u, u);
    } else if u < 960_000 {
        lemma_segment_is_monotonic(m[2] as int, m[3] as int, 920_000, 40_000, u, u);
    } else if u < 980_000 {
        lemma_segment_is_monotonic(m[3] as int, m[4] as int, 960_000, 20_000, u, u);
    } else if u < 990_000 {
        lemma_segment_is_monotonic(m[4] as int, m[5] as int, 980_000, 10_000, u, u);
    } else {
        lemma_segment_is_monotonic(m[5] as int, m[6] as int, 990_000, 10_000, u, u);
    }
}

/// Under a model whose rates rise, a higher utilization never pays a lower
/// rate.
pub proof fn lemma_debt_rate_is_monotonic(model: [u128; 7], u: int, v: int)
    requires
        rises(model),
        0 <= u <= v,
    ensures
        match (debt_rate_spec(model, u), debt_rate_spec(model, v)) {
            (Ok(lower), Ok(higher)) => lower <= higher,
            _ => true,
        },
{
    let m = model;
    if v < 1_000_000 {
        lemma_rate_within_its_segment(model, u);
        lemma_rate_within_its_segment(model, v);
        if v < 680_000 {
            lemma_segment_is_monotonic(0, m[0] as int, 0, 680_000, u, v);
        } else if 680_000 <= u && v < 840_000 {
            lemma_segment_is_monotonic(m[0] as int, m[1] as int, 680_000, 160_000, u, v);
        } else if 840_000 <= u && v < 920_000 {
            lemma_segment_is_monotonic(m[1] as int, m[2] as int, 840_000, 80_000, u, v);
        } else if 920_000 <= u && v < 960_000 {
            lemma_segment_is_monotonic(m[2] as int, m[3] as int, 920_000, 40_000, u, v);
        } else if 960_000 <= u && v < 980_000 {
            lemma_segment_is_monotonic(m[3] as int, m[4] as int, 960_000, 20_000, u, v);
        } else if 980_000 <= u && v < 990_000 {
            lemma_segment_is_monotonic(m[4] as int, m[5] as int, 980_000, 10_000, u, v);
        } else if 990_000 <= u {
            lemma_segment_is_monotonic(m[5] as int, m[6] as int, 990_000, 10_000, u, v);
        }
    } else {
        assert(m[6] * 1_000_000 <= m[6] * v) by (nonlinear_arith)
            requires
                m[6] >= 0,
                v >= 1_000_000,
        ;
        lemma_div_is_ordered(m[6] * 1_000_000, m[6] * v, 1_000_000);
        lemma_whole_quotient(m[6] as int, 1_000_000);
        if u < 1_000_000 {
            lemma_rate_within_its_segment(model, u);
        } else {
            assert(m[6] * u <= m[6] * v) by (nonlinear_arith)
                requires
                    m[6] >= 0,
                    u <= v,
            ;
            lemma_div_is_ordered(m[6] * u, m[6] * v, 1_000_000);
        }
    }
}

/// Whether `after` has every reserve of `before`, none with an index below
/// what it was.
pub open spec fn indexes_not_below(after: PoolView, before: PoolView) -> bool {
    &&& after.reserves.len() >= before.reserves.len()
    &&& forall|id: int|
        0 <= id < before.reserves.len() ==> #[trigger] not_below(
            after.reserves[id].indexes,
            before.reserves[id].indexes,
        )
}

proof fn lemma_rewritten_records_keep_indexes(
    pool: PoolView,
    id: int,
    user: AccountId,
    records: Records,
)
    requires
        0 <= id < pool.reserves.len(),
        not_below(records.reserve.indexes, pool.reserves[id].indexes),
    ensures
        indexes_not_below(pool.with_records(id, user, records), pool),
{
}

proof fn lemma_listed_asset_has_a_reserve(pool: PoolView, asset: AccountId)
    requires
        pool.wf(),
    ensures
        pool.asset_id(asset) matches Some(id) ==> 0 <= id < pool.reserves.len(),
{
}

/// Neither a deposit nor a redemption lowers an index of any reserve.
pub proof fn lemma_supply_keeps_indexes_monotonic(
    pool: PoolView,
    asset: AccountId,
    user: AccountId,
    amount: u128,
    named: Option<u128>,
    prices: Seq<Option<u128>>,
    now: Timestamp,
)
    requires
        pool.wf(),
    ensures
        pool.deposit(asset, user, amount, now) matches Ok((after, _)) ==> indexes_not_below(
            after,
            pool,
        ),
        pool.redeem(asset, user, named, prices, now) matches Ok((after, _)) ==> indexes_not_below(
            after,
            pool,
        ),
{
    lemma_listed_asset_has_a_reserve(pool, asset);
    if let Some(id) = pool.asset_id(asset) {
        let records = pool.records(id, user);
        lemma_actions_keep_indexes_monotonic(records, None, amount, named, Seq::empty(), now);
        if let Ok((next, _)) = deposit_spec(records, amount, now) {
            lemma_rewritten_records_keep_indexes(pool, id, user, next);
        }
        if let Ok((next, _)) = redeem_spec(records, named, now) {
            lemma_rewritten_records_keep_indexes(pool, id, user, next);
        }
    }
}

/// Neither a loan nor a repayment lowers an index of any reserve.
pub proof fn lemma_debt_keeps_indexes_monotonic(
    pool: PoolView,
    asset: AccountId,
    user: AccountId,
    amount: u128,
    named: Option<u128>,
    data: Seq<u8>,
    prices: Seq<Option<u128>>,
    now: Timestamp,
)
    requires
        pool.wf(),
    ensures
        pool.borrow(asset, user, amount, data, prices, now) matches Ok((after, _))
            ==> indexes_not_below(after, pool),
        pool.repay(asset, user, named, data, now) matches Ok((after, _)) ==> indexes_not_below(
            after,
            pool,
        ),
{
    lemma_listed_asset_has_a_reserve(pool, asset);
    if let Some(id) = pool.asset_id(asset) {
        let records = pool.records(id, user);
        let entry = pool.entry(id, user);
        lemma_actions_keep_indexes_monotonic(records, entry, amount, named, data, now);
        if let Ok((next, _)) = borrow_spec(records, entry, amount, data, now) {
            lemma_rewritten_records_keep_indexes(pool, id, user, next);
        }
        if let Ok((next, _)) = repay_spec(records, named, data, now) {
            lemma_rewritten_records_keep_indexes(pool, id, user, next);
        }
    }
}

/// A transfer of debt lowers no index of any reserve.
pub proof fn lemma_debt_transfer_keeps_indexes_monotonic(
    pool: PoolView,
    caller: AccountId,
    asset: AccountId,
    from: AccountId,
    to: AccountId,
    amount: u128,
    prices: Seq<Option<u128>>,
    now: Timestamp,
)
    requires
        pool.wf(),
    ensures
        pool.transfer_variable_debt_from_to(caller, asset, from, to, amount, prices, now) matches Ok(
            (after, _),
        ) ==> indexes_not_below(after, pool),
{
    lemma_listed_asset_has_a_reserve(pool, asset);
    if let Some(id) = pool.asset_id(asset) {
        lemma_accrual_is_monotonic(pool.reserves[id], now);
        if let Ok(reserve) = pool.reserves[id].accrued(now) {
            let start = Records { reserve, ..pool.records(id, from) };
            if let Ok((given, _)) = transfer_out_spec(start, amount) {
                lemma_rewritten_records_keep_indexes(pool, id, from, given);
                let mid = pool.with_records(id, from, given);
                if let Ok((taken, _)) = transfer_in_spec(mid.records(id, to), amount) {
                    lemma_rewritten_records_keep_indexes(mid, id, to, taken);
                }
            }
        }
    }
}

/// The variable debt of `user` in reserve `id` with the interest up to `now`,
/// as a transfer of debt finds it.
pub open spec fn accrued_variable_debt(pool: PoolView, id: int, user: AccountId, now: Timestamp) -> Option<
    u128,
> {
    match pool.reserves[id].accrued(now) {
        Err(_) => None,
        Ok(reserve) => match pool.records(id, user).position.reconciled(reserve) {
            Err(_) => None,
            Ok(done) => Some(done.position.variable_borrowed),
        },
    }
}

/// A transfer of debt between two users takes the amount from the debt of
/// the one and adds it to the debt of the other as the transfer finds them,
/// and the reserve is a member of each user's variable borrows exactly where
/// debt is left; what the users hold in other reserves is not touched.
pub proof fn lemma_debt_transfer_moves_the_debt(
    pool: PoolView,
    caller: AccountId,
    asset: AccountId,
    from: AccountId,
    to: AccountId,
    amount: u128,
    prices: Seq<Option<u128>>,
    now: Timestamp,
)
    requires
        pool.wf(),
        from != to,
    ensures
        match (
            pool.asset_id(asset),
            pool.transfer_variable_debt_from_to(caller, asset, from, to, amount, prices, now),
        ) {
            (Some(id), Ok((after, _))) => {
                let gave = position_at(after.user(from).positions, id).variable_borrowed;
                let took = position_at(after.user(to).positions, id).variable_borrowed;
                &&& accrued_variable_debt(pool, id, from, now) matches Some(owed)
                &&& owed >= amount
                &&& gave == owed - amount
                &&& after.user(from).config.borrows_variable@.contains(id) <==> owed - amount > 0
                &&& after.user(to).config.borrows_variable@.contains(id) <==> took > 0
                &&& amount > 0 ==> after.user(to).config.borrows_variable@.contains(id)
                &&& same_elsewhere(pool.user(from).config, after.user(from).config, id)
                &&& same_elsewhere(pool.user(to).config, after.user(to).config, id)
            },
            _ => true,
        },
{
    lemma_listed_asset_has_a_reserve(pool, asset);
    if let Some(id) = pool.asset_id(asset) {
        lemma_bitmask_consistency(pool, from, id);
        lemma_bitmask_consistency(pool, to, id);
        if let Ok(reserve) = pool.reserves[id].accrued(now) {
            pool.reserves[id].lemma_accrual_keeps_identity(now);
            let start = Records { reserve, ..pool.records(id, from) };
            lemma_transfer_out_keeps_membership(start, amount);
            if let Ok((given, _)) = transfer_out_spec(start, amount) {
                let mid = pool.with_records(id, from, given);
                assert(mid.users.contains_key(from));
                assert(mid.user(to) == pool.user(to));
                let receiving = mid.records(id, to);
                lemma_transfer_in_keeps_membership(receiving, amount);
                if let Ok((taken, _)) = transfer_in_spec(receiving, amount) {
                    let after = mid.with_records(id, to, taken);
                    assert(after.users.contains_key(to));
                    assert(after.user(from) == mid.user(from));
                }
            }
        }
    }
}

/// A transfer of debt asks for the records of both users before anything
/// else that concerns them: a source for whom no position was opened in the
/// reserve has no balance to give, and a destination of whom the pool has no
/// record has no collateral, whether or not the reserve takes new debt.
pub proof fn lemma_debt_transfer_needs_the_records(
    pool: PoolView,
    caller: AccountId,
    asset: AccountId,
    from: AccountId,
    to: AccountId,
    amount: u128,
    prices: Seq<Option<u128>>,
    now: Timestamp,
)
    requires
        pool.asset_id(asset) matches Some(id) && pool.reserves[id].tokens.v_token_address == caller,
    ensures
        ({
            let id = pool.asset_id(asset)->Some_0;
            let outcome = pool.transfer_variable_debt_from_to(
                caller,
                asset,
                from,
                to,
                amount,
                prices,
                now,
            );
            &&& !pool.has_position(id, from) ==> outcome == Err::<
                (PoolView, DebtTransfer),
                LendingPoolTokenInterfaceError,
            >(LendingPoolTokenInterfaceError::InsufficientBalance)
            &&& pool.has_position(id, from) && !pool.has_account(to) ==> outcome == Err::<
                (PoolView, DebtTransfer),
                LendingPoolTokenInterfaceError,
            >(LendingPoolTokenInterfaceError::InsufficientCollateral)
        }),
{
}

/// A transfer of more than the source owes, with the interest accrued, is
/// refused for want of balance.
pub proof fn lemma_debt_transfer_beyond_the_debt(
    pool: PoolView,
    caller: AccountId,
    asset: AccountId,
    from: AccountId,
    to: AccountId,
    amount: u128,
    prices: Seq<Option<u128>>,
    now: Timestamp,
)
    requires
        pool.asset_id(asset) matches Some(id) && {
            &&& pool.reserves[id].tokens.v_token_address == caller
            &&& pool.has_position(id, from)
            &&& pool.has_account(to)
            &&& borrowing_enabled_spec(pool.reserves[id], pool.entry(id, to)) is Ok
            &&& accrued_variable_debt(pool, id, from, now) matches Some(owed) && amount > owed
        },
    ensures
        pool.transfer_variable_debt_from_to(caller, asset, from, to, amount, prices, now) == Err::<
            (PoolView, DebtTransfer),
            LendingPoolTokenInterfaceError,
        >(LendingPoolTokenInterfaceError::InsufficientBalance),
{
}

/// A transfer of debt from a user to the same user leaves the debt as the
/// transfer finds it.
pub proof fn lemma_debt_transfer_to_oneself(
    pool: PoolView,
    caller: AccountId,
    asset: AccountId,
    user: AccountId,
    amount: u128,
    prices: Seq<Option<u128>>,
    now: Timestamp,
)
    requires
        pool.wf(),
    ensures
        match (
            pool.asset_id(asset),
            pool.transfer_variable_debt_from_to(caller, asset, user, user, amount, prices, now),
        ) {
            (Some(id), Ok((after, _))) => {
                let owes = position_at(after.user(user).positions, id).variable_borrowed;
                &&& accrued_variable_debt(pool, id, user, now) == Some(owes)
                &&& after.user(user).config.borrows_variable@.contains(id) <==> owes > 0
                &&& same_elsewhere(pool.user(user).config, after.user(user).config, id)
            },
            _ => true,
        },
{
    lemma_listed_asset_has_a_reserve(pool, asset);
    if let Some(id) = pool.asset_id(asset) {
        lemma_bitmask_consistency(pool, user, id);
        if let Ok(reserve) = pool.reserves[id].accrued(now) {
            pool.reserves[id].lemma_accrual_keeps_identity(now);
            let start = Records { reserve, ..pool.records(id, user) };
            lemma_transfer_out_keeps_membership(start, amount);
            if let Ok((given, _)) = transfer_out_spec(start, amount) {
                let mid = pool.with_records(id, user, given);
                assert(mid.users.contains_key(user));
                let receiving = mid.records(id, user);
                assert(receiving == given);
                lemma_transfer_in_keeps_membership(receiving, amount);
                lemma_reconciling_twice(
                    start.position,
                    start.reserve,
                    given.position.variable_borrowed,
                );
                if let Ok((taken, _)) = transfer_in_spec(receiving, amount) {
                    let after = mid.with_records(id, user, taken);
                    assert(after.users.contains_key(user));
                }
            }
        }
    }
}

/// A position that was just reconciled against a reserve gains no variable
/// debt from being reconciled against it again.
proof fn lemma_reconciling_twice(position: UserReserveData, reserve: ReserveData, debt: u128)
    ensures
        match position.reconciled(reserve) {
            Ok(done) => match (UserReserveData {
                variable_borrowed: debt,
                ..done.position
            }).reconciled(done.reserve) {
                Ok(again) => again.position.variable_borrowed == debt,
                Err(_) => true,
            },
            Err(_) => true,
        },
{
    if let Ok(done) = position.reconciled(reserve) {
        if done.reserve.indexes.cumulative_debt_index_e18 != 0 {
            lemma_whole_quotient(debt as int, done.reserve.indexes.cumulative_debt_index_e18 as int);
        }
    }
}

/// No administrative change lowers an index of any reserve.
pub proof fn lemma_administration_keeps_indexes_monotonic(
    pool: PoolView,
    asset: AccountId,
    parameters: ReserveDataParameters,
    registration: AssetRegistration,
    now: Timestamp,
)
    requires
        pool.wf(),
    ensures
        pool.set_reserve_parameters(asset, parameters, now) matches Ok(after) ==> indexes_not_below(
            after,
            pool,
        ),
        pool.register_asset(asset, registration, now) matches Ok(after) ==> indexes_not_below(
            after,
            pool,
        ),
{
    lemma_listed_asset_has_a_reserve(pool, asset);
    if let Some(id) = pool.asset_id(asset) {
        lemma_accrual_is_monotonic(pool.reserves[id], now);
    }
}

/// In a well-formed pool, for every user and every reserve, the reserve is a
/// member of the user's deposits, variable borrows and stable borrows exactly
/// where the user's balance of that kind in the reserve is not zero.
pub proof fn lemma_bitmask_consistency(pool: PoolView, user: AccountId, id: int)
    requires
        pool.wf(),
    ensures
        bits_match(pool.user(user).config, position_at(pool.user(user).positions, id), id),
{
    if pool.users.contains_key(user) {
        assert(pool.users[user].consistent());
    } else {
        ReserveSet::lemma_zero_is_empty();
    }
}

/// An action that can raise a user's debt value or lower the collateral
/// value stands only where the user's collateral covers the debt afterwards.
pub proof fn lemma_solvency_guard(
    pool: PoolView,
    caller: AccountId,
    asset: AccountId,
    user: AccountId,
    to: AccountId,
    amount: u128,
    named: Option<u128>,
    data: Seq<u8>,
    prices: Seq<Option<u128>>,
    now: Timestamp,
)
    ensures
        pool.borrow(asset, user, amount, data, prices, now) matches Ok((after, _))
            ==> after.collateralized(user, prices, now),
        pool.redeem(asset, user, named, prices, now) matches Ok((after, _))
            ==> after.collateralized(user, prices, now),
        pool.set_as_collateral(user, asset, false, prices, now) matches Ok((after, _))
            ==> after.collateralized(user, prices, now),
        pool.transfer_variable_debt_from_to(caller, asset, user, to, amount, prices, now) matches Ok(
            (after, _),
        ) ==> after.collateralized(to, prices, now),
{
}

/// Redeeming without naming an amount takes the whole supplied balance, with
/// the interest accrued, and takes the reserve out of the user's deposits.
pub proof fn lemma_redeem_all(records: Records, now: Timestamp)
    requires
        records.wf(),
    ensures
        redeem_spec(records, None, now) matches Ok((after, receipt)) ==> {
            &&& after.position.supplied == 0
            &&& !after.config.deposits@.contains(records.reserve.id as int)
            &&& records.accrued(now) matches Ok((accrued, _))
            &&& receipt.amount == accrued.position.supplied
        },
{
    records.lemma_accrual_keeps_membership(now);
    records.config.deposits.lemma_removed(records.reserve.id);
}

/// Repaying without naming an amount takes the whole debt of the mode, with
/// the interest accrued, and takes the reserve out of the user's borrows of
/// that mode.
pub proof fn lemma_repay_all(records: Records, data: Seq<u8>, now: Timestamp)
    requires
        records.wf(),
    ensures
        repay_spec(records, None, data, now) matches Ok((after, receipt)) ==> {
            &&& records.accrued(now) matches Ok((accrued, _))
            &&& data[0] == MODE_VARIABLE ==> {
                &&& after.position.variable_borrowed == 0
                &&& !after.config.borrows_variable@.contains(records.reserve.id as int)
                &&& receipt.amount == accrued.position.variable_borrowed
            }
            &&& data[0] == MODE_STABLE ==> {
                &&& after.position.stable_borrowed == 0
                &&& !after.config.borrows_stable@.contains(records.reserve.id as int)
                &&& receipt.amount == accrued.position.stable_borrowed
            }
        },
{
    records.lemma_accrual_keeps_membership(now);
    records.config.borrows_variable.lemma_removed(records.reserve.id);
    records.config.borrows_stable.lemma_removed(records.reserve.id);
}

/// The debt of a position in the mode that `mode` selects.
pub open spec fn debt_of(position: UserReserveData, mode: u8) -> u128 {
    if mode == MODE_VARIABLE {
        position.variable_borrowed
    } else {
        position.stable_borrowed
    }
}

/// The reserves in which a user owes debt of the mode that `mode` selects.
pub open spec fn borrows_of(config: UserConfig, mode: u8) -> ReserveSet {
    if mode == MODE_VARIABLE {
        config.borrows_variable
    } else {
        config.borrows_stable
    }
}

/// Redeeming a part of the supplied balance, with the interest accrued,
/// hands out the amount named, takes it from the balance and from the
/// reserve's total, and leaves the reserve among the user's deposits.
pub proof fn lemma_redeem_part(records: Records, amount: u128, now: Timestamp)
    requires
        records.wf(),
        bits_match(records.config, records.position, records.reserve.id as int),
    ensures
        match (records.accrued(now), redeem_spec(records, Some(amount), now)) {
            (Ok((accrued, _)), Ok((after, receipt))) => {
                &&& 0 < amount <= accrued.position.supplied
                &&& receipt.amount == amount
                &&& after.position.supplied == accrued.position.supplied - amount
                &&& after.reserve.total_supplied == accrued.reserve.total_supplied - amount
                &&& after.config.deposits@.contains(records.reserve.id as int) <==> amount
                    < accrued.position.supplied
            },
            (Err(_), Ok(_)) => false,
            _ => true,
        },
{
    records.lemma_accrual_keeps_membership(now);
    records.config.deposits.lemma_removed(records.reserve.id);
}

/// Repaying a part of a debt, with the interest accrued: where what is left
/// would be below the reserve's minimal debt the repayment is refused for
/// that; and a repayment that stands takes the amount named from the debt
/// of the mode and from the reserve's, and leaves the reserve among the
/// user's borrows of that mode.
pub proof fn lemma_repay_part(records: Records, amount: u128, data: Seq<u8>, now: Timestamp)
    requires
        records.wf(),
        bits_match(records.config, records.position, records.reserve.id as int),
        records.reserve.active,
        data.len() > 0,
        data[0] == MODE_VARIABLE || data[0] == MODE_STABLE,
        match records.accrued(now) {
            Ok((accrued, _)) => 0 < amount < debt_of(accrued.position, data[0]),
            Err(_) => false,
        },
    ensures
        match (records.accrued(now), repay_spec(records, Some(amount), data, now)) {
            (Ok((accrued, _)), Ok((after, receipt))) => {
                &&& debt_of(accrued.position, data[0]) - amount
                    >= records.reserve.restrictions.minimal_debt
                &&& receipt.amount == amount
                &&& debt_of(after.position, data[0]) == debt_of(accrued.position, data[0]) - amount
                &&& borrows_of(after.config, data[0])@.contains(records.reserve.id as int)
                &&& data[0] == MODE_VARIABLE ==> after.reserve.total_variable_borrowed
                    == accrued.reserve.total_variable_borrowed - amount
                &&& data[0] == MODE_STABLE ==> after.reserve.sum_stable_debt
                    == accrued.reserve.sum_stable_debt - amount
            },
            (Ok((accrued, _)), Err(e)) => debt_of(accrued.position, data[0]) - amount
                < records.reserve.restrictions.minimal_debt ==> e == LendingPoolError::MinimalDebt,
            _ => true,
        },
{
    records.lemma_accrual_keeps_membership(now);
    records.reserve.lemma_accrual_keeps_identity(now);
    if let Ok(reserve) = records.reserve.accrued(now) {
        (Records { reserve, ..records }).lemma_reconciliation_keeps_membership();
    }
}

/// What becomes of a repayment of stable debt on the records it touches: it
/// is refused for an amount of zero and for one above the debt; every other
/// amount is repaid exactly where the reserve's sum of stable debt holds it
/// and the average rate of what is left has a value; and a repayment that
/// stands takes the amount from the debt and from the sum, and takes the
/// reserve out of the user's stable borrows exactly when nothing is left.
pub proof fn lemma_repay_stable_outcome(records: Records, amount: Option<u128>)
    requires
        records.wf(),
    ensures
        ({
            let debt = records.position.stable_borrowed;
            let repaid = amount_or_all(amount, debt);
            let outcome = repay_stable_spec(records, amount);
            &&& repaid == 0 ==> outcome == Err::<(Records, u128), LendingPoolError>(
                LendingPoolError::AmountNotGreaterThanZero,
            )
            &&& repaid > debt ==> outcome == Err::<(Records, u128), LendingPoolError>(
                LendingPoolError::AmountExceedsUserDebt,
            )
            &&& 0 < repaid <= debt ==> (outcome is Ok <==> records.reserve.sum_stable_debt
                >= repaid && average_after_repay_spec(
                records.reserve.average_stable_rate_e24 as int,
                records.reserve.sum_stable_debt as int,
                records.position.stable_borrow_rate_e24 as int,
                repaid as int,
            ) is Ok)
            &&& 0 < repaid <= debt ==> (match outcome {
                Ok(_) => true,
                Err(LendingPoolError::MathError(_)) => true,
                Err(_) => false,
            })
            &&& match outcome {
                Ok((after, done)) => {
                    &&& done == repaid
                    &&& after.position.stable_borrowed == debt - repaid
                    &&& after.reserve.sum_stable_debt == records.reserve.sum_stable_debt
                        - repaid
                    &&& after.config.borrows_stable == (if repaid == debt {
                        records.config.borrows_stable.removed(records.reserve.id)
                    } else {
                        records.config.borrows_stable
                    })
                    &&& after.config.deposits == records.config.deposits
                    &&& after.config.borrows_variable == records.config.borrows_variable
                    &&& after.config.collaterals == records.config.collaterals
                    &&& bits_match(
                        records.config,
                        records.position,
                        records.reserve.id as int,
                    ) ==> (after.config.borrows_stable@.contains(records.reserve.id as int)
                        <==> after.position.stable_borrowed != 0)
                },
                Err(_) => true,
            }
        }),
{
    records.config.borrows_stable.lemma_removed(records.reserve.id);
}

/// Where the position's snapshot is the reserve's present state, accrual
/// over no time adds no interest and changes nothing; a deposit then tells
/// the deposit token of the amount exactly and the debt tokens of nothing.
pub proof fn lemma_no_interest_over_no_time(records: Records, amount: u128, now: Timestamp)
    requires
        now == records.reserve.last_update_timestamp,
        records.position.applied_indexes == records.reserve.indexes,
        records.position.update_timestamp == records.reserve.last_update_timestamp,
        records.reserve.indexes.cumulative_deposit_index_e18 != 0,
        records.reserve.indexes.cumulative_debt_index_e18 != 0,
    ensures
        records.accrued(now) == Ok::<(Records, AccruedInterest), MathError>(
            (records, AccruedInterest { supply: 0, variable_borrow: 0, stable_borrow: 0 }),
        ),
        match deposit_spec(records, amount, now) {
            Ok((after, receipt)) => {
                &&& receipt.a_token_delta == amount
                &&& receipt.v_token_delta == 0
                &&& receipt.s_token_delta == 0
                &&& after.reserve.indexes == records.reserve.indexes
            },
            Err(_) => true,
        },
{
    let position = records.position;
    let reserve = records.reserve;
    lemma_whole_quotient(
        position.supplied as int,
        reserve.indexes.cumulative_deposit_index_e18 as int,
    );
    lemma_whole_quotient(
        position.variable_borrowed as int,
        reserve.indexes.cumulative_debt_index_e18 as int,
    );
    assert(position.stable_borrow_rate_e24 * 0 == 0) by (nonlinear_arith);
    assert(position.stable_borrowed * 0 == 0) by (nonlinear_arith);
    assert(0int / (E24 as int) == 0);
}

/// An action that stands leaves the reserve at the time of the action.
pub proof fn lemma_actions_bring_the_reserve_up_to_now(
    records: Records,
    entry: Option<AssetRules>,
    amount: u128,
    named: Option<u128>,
    data: Seq<u8>,
    now: Timestamp,
)
    ensures
        deposit_spec(records, amount, now) matches Ok((after, _))
            ==> after.reserve.last_update_timestamp == now,
        redeem_spec(records, named, now) matches Ok((after, _))
            ==> after.reserve.last_update_timestamp == now,
        borrow_spec(records, entry, amount, data, now) matches Ok((after, _))
            ==> after.reserve.last_update_timestamp == now,
        repay_spec(records, named, data, now) matches Ok((after, _))
            ==> after.reserve.last_update_timestamp == now,
{
    records.reserve.lemma_accrual_keeps_identity(now);
}

/// Repaying more than the debt of the mode, with the interest accrued, is
/// refused.
pub proof fn lemma_repay_too_much(records: Records, amount: u128, data: Seq<u8>, now: Timestamp)
    requires
        data.len() > 0,
        records.reserve.active,
        records.accrued(now) matches Ok((accrued, _)) && {
            ||| data[0] == MODE_VARIABLE && amount > accrued.position.variable_borrowed
            ||| data[0] == MODE_STABLE && amount > accrued.position.stable_borrowed
        },
    ensures
        repay_spec(records, Some(amount), data, now) == Err::<
            (Records, Receipt),
            LendingPoolError,
        >(LendingPoolError::AmountExceedsUserDebt),
{
}

/// The weighted average of two rates lies between them.
pub proof fn lemma_weighted_mean_between(rate: u128, principal: u128, new_rate: u128, amount: u128)
    requires
        0 < principal + amount <= u128::MAX,
    ensures
        weighted_mean_spec(rate as int, principal as int, new_rate as int, amount as int)
            matches Ok(mean) && {
            &&& mean == (rate * principal + new_rate * amount) / (principal + amount)
            &&& rate <= new_rate ==> rate <= mean <= new_rate
            &&& new_rate <= rate ==> new_rate <= mean <= rate
        },
{
    let total = principal + amount;
    let sum = rate * principal + new_rate * amount;
    let low: int = if rate <= new_rate {
        rate as int
    } else {
        new_rate as int
    };
    let high: int = if rate <= new_rate {
        new_rate as int
    } else {
        rate as int
    };
    assert(total * low <= sum <= total * high) by (nonlinear_arith)
        requires
            total == principal + amount,
            sum == rate * principal + new_rate * amount,
            low <= rate <= high,
            low <= new_rate <= high,
            principal >= 0,
            amount >= 0,
    ;
    lemma_div_is_ordered(total * low, sum, total);
    lemma_div_is_ordered(sum, total * high, total);
    lemma_div_multiples_vanish(low, total);
    lemma_div_multiples_vanish(high, total);
}

/// Borrowing `amount` at the rate `new_rate` into a stable position of
/// `principal` at `rate` gives the position the weighted average of the two
/// rates, rounded down, and one unit on top: the least rate of which the
/// interest on the whole exceeds the interest that the two parts pay apart.
pub proof fn lemma_stable_rate_blend(rate: u128, principal: u128, new_rate: u128, amount: u128)
    requires
        amount > 0,
        principal + amount <= u128::MAX,
        (rate * principal + new_rate * amount) / (principal + amount) < u128::MAX,
    ensures
        blended_rate_spec(rate as int, principal as int, new_rate as int, amount as int)
            matches Ok(blend) && {
            &&& blend == (rate * principal + new_rate * amount) / (principal + amount) + 1
            &&& blend * (principal + amount) > rate * principal + new_rate * amount
            &&& (blend - 1) * (principal + amount) <= rate * principal + new_rate * amount
        },
{
    lemma_weighted_mean_between(rate, principal, new_rate, amount);
    let total = principal + amount;
    let sum = rate * principal + new_rate * amount;
    lemma_fundamental_div_mod(sum, total);
    lemma_mod_pos_bound(sum, total);
    let mean = sum / total;
    assert((mean + 1) * total == total * mean + total) by (nonlinear_arith);
    assert(mean * total == total * mean) by (nonlinear_arith);
}

/// A stable loan of `amount` adds the amount to the principal of the
/// position and blends the position's rate with the rate of the loan.
pub proof fn lemma_borrow_stable_blends(records: Records, amount: u128)
    ensures
        borrow_stable_spec(records, amount) matches Ok((after, loan_rate)) ==> {
            &&& after.position.stable_borrowed == records.position.stable_borrowed + amount
            &&& after.reserve.sum_stable_debt == records.reserve.sum_stable_debt + amount
            &&& Ok::<u128, MathError>(after.position.stable_borrow_rate_e24)
                == blended_rate_spec(
                records.position.stable_borrow_rate_e24 as int,
                records.position.stable_borrowed as int,
                loan_rate as int,
                amount as int,
            )
        },
{
}

} // verus!
