use lending_pool::account::AccountId;
use lending_pool::fixed::{MathError, E18};
use lending_pool::position::{AccruedInterest, UserReserveData};
use lending_pool::reserve::{
    ReserveAbacusTokens, ReserveData, ReserveDataParameters, ReserveIndexes, ReserveRestrictions,
};

fn reserve(timestamp: u64) -> ReserveData {
    ReserveData::new(
        0,
        1_000_000_000_000,
        &ReserveDataParameters {
            interest_rate_model: [100, 200, 300, 400, 500, 600, 700],
            income_for_suppliers_part_e6: 500_000,
            flash_loan_fee_e6: 1_000,
        },
        &ReserveRestrictions::new(&None, &None, &0, &1),
        &ReserveAbacusTokens::new(&AccountId::new(0, 10), &AccountId::new(0, 11)),
        &timestamp,
    )
}

#[test]
fn new_position_is_empty() {
    let p = UserReserveData::new();
    assert_eq!(p.supplied, 0);
    assert_eq!(p.variable_borrowed, 0);
    assert_eq!(p.stable_borrowed, 0);
    assert_eq!(p.stable_borrow_rate_e24, 0);
    assert_eq!(p.applied_indexes, ReserveIndexes::new());
    assert_eq!(p.update_timestamp, 0);
}

#[test]
fn reconciliation_adds_the_interest_of_each_kind() {
    let mut r = reserve(1100);
    r.indexes.cumulative_deposit_index_e18 = 1_000_500_000_000_000_000;
    r.indexes.cumulative_debt_index_e18 = 1_001_000_000_000_000_000;
    r.sum_stable_debt = 100_000;
    let mut p = UserReserveData::new();
    p.supplied = 1_000_000;
    p.variable_borrowed = 400_000;
    p.stable_borrowed = 100_000;
    p.stable_borrow_rate_e24 = 2_000_000_000_000_000_000;
    p.update_timestamp = 100;
    let interest = p.accumulate_user_interest(&mut r);
    assert_eq!(
        interest,
        Ok(AccruedInterest { supply: 500, variable_borrow: 400, stable_borrow: 200 })
    );
    assert_eq!(p.supplied, 1_000_500);
    assert_eq!(p.variable_borrowed, 400_400);
    assert_eq!(p.stable_borrowed, 100_200);
    assert_eq!(p.applied_indexes, r.indexes);
    assert_eq!(p.update_timestamp, 1100);
    assert_eq!(r.sum_stable_debt, 100_200);
    let again = p.accumulate_user_interest(&mut r);
    assert_eq!(again, Ok(AccruedInterest { supply: 0, variable_borrow: 0, stable_borrow: 0 }));
    assert_eq!(p.supplied, 1_000_500);
    assert_eq!(r.sum_stable_debt, 100_200);
}

#[test]
fn reconciliation_of_an_empty_position_adds_nothing() {
    let mut r = reserve(1_000_000);
    r.indexes.cumulative_deposit_index_e18 = 3 * E18;
    r.indexes.cumulative_debt_index_e18 = 4 * E18;
    let mut p = UserReserveData::new();
    let interest = p.accumulate_user_interest(&mut r);
    assert_eq!(interest, Ok(AccruedInterest { supply: 0, variable_borrow: 0, stable_borrow: 0 }));
    assert_eq!(p.supplied, 0);
    assert_eq!(p.variable_borrowed, 0);
    assert_eq!(p.stable_borrowed, 0);
    assert_eq!(p.applied_indexes, r.indexes);
    assert_eq!(p.update_timestamp, 1_000_000);
}

#[test]
fn failed_reconciliation_changes_nothing() {
    let mut r = reserve(50);
    let mut p = UserReserveData::new();
    p.supplied = 10;
    p.applied_indexes.cumulative_deposit_index_e18 = 2 * E18;
    let (reserve_before, position_before) = (r, p);
    assert_eq!(p.accumulate_user_interest(&mut r), Err(MathError::Underflow));
    assert_eq!((r, p), (reserve_before, position_before));

    let mut p = UserReserveData::new();
    p.update_timestamp = 51;
    let position_before = p;
    assert_eq!(p.accumulate_user_interest(&mut r), Err(MathError::Underflow));
    assert_eq!((r, p), (reserve_before, position_before));

    let mut p = UserReserveData::new();
    p.applied_indexes.cumulative_debt_index_e18 = 0;
    let position_before = p;
    assert_eq!(p.accumulate_user_interest(&mut r), Err(MathError::DivByZero));
    assert_eq!((r, p), (reserve_before, position_before));

    let mut p = UserReserveData::new();
    p.stable_borrowed = 1;
    p.stable_borrow_rate_e24 = u128::MAX;
    let position_before = p;
    assert_eq!(p.accumulate_user_interest(&mut r), Err(MathError::Overflow));
    assert_eq!((r, p), (reserve_before, position_before));
}
