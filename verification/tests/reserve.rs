use lending_pool::account::AccountId;
use lending_pool::fixed::{MathError, E18};
use lending_pool::reserve::{
    debt_rate, utilization, ReserveAbacusTokens, ReserveData, ReserveDataParameters,
    ReserveIndexes, ReserveRestrictions,
};

const MODEL: [u128; 7] = [100, 200, 300, 400, 500, 600, 700];

fn fresh(timestamp: u64) -> ReserveData {
    ReserveData::new(
        0,
        1_000_000_000_000,
        &ReserveDataParameters {
            interest_rate_model: MODEL,
            income_for_suppliers_part_e6: 500_000,
            flash_loan_fee_e6: 1_000,
        },
        &ReserveRestrictions::new(&None, &None, &0, &1),
        &ReserveAbacusTokens::new(&AccountId::new(0, 10), &AccountId::new(0, 11)),
        &timestamp,
    )
}

#[test]
fn new_reserve_has_no_balances() {
    let r = fresh(7);
    assert_eq!(r.id, 0);
    assert!(r.active);
    assert!(!r.frozen);
    assert_eq!(r.total_supplied, 0);
    assert_eq!(r.total_variable_borrowed, 0);
    assert_eq!(r.sum_stable_debt, 0);
    assert_eq!(r.average_stable_rate_e24, 0);
    assert_eq!(r.current_deposit_rate_e24, 0);
    assert_eq!(r.current_debt_rate_e24, 0);
    assert_eq!(r.indexes, ReserveIndexes::new());
    assert_eq!(r.indexes.cumulative_deposit_index_e18, E18);
    assert_eq!(r.indexes.cumulative_debt_index_e18, E18);
    assert_eq!(r.last_update_timestamp, 7);
    assert_eq!(r.tokens.a_token_address, AccountId::new(0, 10));
    assert_eq!(r.tokens.v_token_address, AccountId::new(0, 11));
    assert_eq!(r.restrictions.minimal_debt, 1);
    assert_eq!(r.decimal_multiplier, 1_000_000_000_000);
}

#[test]
fn debt_rate_is_linear_between_the_knots() {
    assert_eq!(debt_rate(&MODEL, 0), Ok(0));
    assert_eq!(debt_rate(&MODEL, 340_000), Ok(50));
    assert_eq!(debt_rate(&MODEL, 679_999), Ok(99));
    assert_eq!(debt_rate(&MODEL, 680_000), Ok(100));
    assert_eq!(debt_rate(&MODEL, 760_000), Ok(150));
    assert_eq!(debt_rate(&MODEL, 840_000), Ok(200));
    assert_eq!(debt_rate(&MODEL, 880_000), Ok(250));
    assert_eq!(debt_rate(&MODEL, 920_000), Ok(300));
    assert_eq!(debt_rate(&MODEL, 940_000), Ok(350));
    assert_eq!(debt_rate(&MODEL, 960_000), Ok(400));
    assert_eq!(debt_rate(&MODEL, 970_000), Ok(450));
    assert_eq!(debt_rate(&MODEL, 980_000), Ok(500));
    assert_eq!(debt_rate(&MODEL, 985_000), Ok(550));
    assert_eq!(debt_rate(&MODEL, 990_000), Ok(600));
    assert_eq!(debt_rate(&MODEL, 995_000), Ok(650));
    assert_eq!(debt_rate(&MODEL, 1_000_000), Ok(700));
    assert_eq!(debt_rate(&MODEL, 2_000_000), Ok(1400));
}

#[test]
fn debt_rate_of_a_falling_model_underflows() {
    let falling: [u128; 7] = [200, 100, 300, 400, 500, 600, 700];
    assert_eq!(debt_rate(&falling, 100_000), Ok(29));
    assert_eq!(debt_rate(&falling, 700_000), Err(MathError::Underflow));
    assert_eq!(debt_rate(&[u128::MAX; 7], u128::MAX), Err(MathError::Overflow));
}

#[test]
fn utilization_is_debt_over_supply() {
    assert_eq!(utilization(400, 0, 0, 1000), Ok(400_000));
    assert_eq!(utilization(300, 100, 100, 1000), Ok(500_000));
    assert_eq!(utilization(1, 2, 3, 0), Ok(0));
    assert_eq!(utilization(u128::MAX, 1, 0, 5), Err(MathError::Overflow));
    assert_eq!(utilization(u128::MAX, 0, 1, 5), Err(MathError::Overflow));
    assert_eq!(utilization(2000, 0, 0, 1000), Ok(2_000_000));
}

#[test]
fn stable_rate_is_the_rate_after_the_loan() {
    let mut r = fresh(0);
    r.total_supplied = 1000;
    assert_eq!(r.after_borrow_stable_borrow_rate_e24(250), Ok(36));
    r.total_variable_borrowed = 430;
    assert_eq!(r.after_borrow_stable_borrow_rate_e24(250), Ok(100));
}

#[test]
fn rates_follow_the_totals() {
    let mut r = fresh(0);
    r.total_supplied = 1000;
    r.total_variable_borrowed = 400;
    r.sum_stable_debt = 100;
    r.average_stable_rate_e24 = 1000;
    assert_eq!(r.recalculate_current_rates(), Ok(()));
    assert_eq!(r.current_debt_rate_e24, 73);
    assert_eq!(r.current_deposit_rate_e24, 64);
    r.total_supplied = 0;
    assert_eq!(r.recalculate_current_rates(), Ok(()));
    assert_eq!(r.current_debt_rate_e24, 0);
    assert_eq!(r.current_deposit_rate_e24, 0);
}

#[test]
fn failed_recalculation_changes_nothing() {
    let mut r = fresh(0);
    r.total_supplied = 1;
    r.total_variable_borrowed = u128::MAX;
    r.sum_stable_debt = 1;
    r.current_debt_rate_e24 = 5;
    let before = r;
    assert_eq!(r.recalculate_current_rates(), Err(MathError::Overflow));
    assert_eq!(r, before);
}

#[test]
fn accrual_compounds_the_indices_and_capitalizes_the_totals() {
    let mut r = fresh(100);
    r.total_supplied = 2_000_000;
    r.total_variable_borrowed = 1_000_000;
    r.sum_stable_debt = 77;
    r.current_debt_rate_e24 = 1_000_000_000_000_000_000;
    r.current_deposit_rate_e24 = 500_000_000_000_000_000;
    assert_eq!(r.accumulate_interest(1100), Ok(()));
    assert_eq!(r.indexes.cumulative_debt_index_e18, 1_001_000_000_000_000_000);
    assert_eq!(r.indexes.cumulative_deposit_index_e18, 1_000_500_000_000_000_000);
    assert_eq!(r.total_variable_borrowed, 1_001_000);
    assert_eq!(r.total_supplied, 2_002_000);
    assert_eq!(r.sum_stable_debt, 77);
    assert_eq!(r.last_update_timestamp, 1100);
    assert_eq!(r.accumulate_interest(2100), Ok(()));
    assert_eq!(r.indexes.cumulative_debt_index_e18, 1_002_001_000_000_000_000);
    assert_eq!(r.total_variable_borrowed, 1_002_001);
}

#[test]
fn accrual_over_no_time_is_a_no_op() {
    let mut r = fresh(100);
    r.total_supplied = 2_000_000;
    r.total_variable_borrowed = 1_000_000;
    r.current_debt_rate_e24 = 1_000_000_000_000_000_000;
    r.current_deposit_rate_e24 = 500_000_000_000_000_000;
    let before = r;
    assert_eq!(r.accumulate_interest(100), Ok(()));
    assert_eq!(r, before);
}

#[test]
fn accrual_refuses_a_clock_that_went_back() {
    let mut r = fresh(100);
    let before = r;
    assert_eq!(r.accumulate_interest(99), Err(MathError::Underflow));
    assert_eq!(r, before);
}

#[test]
fn accrual_never_lowers_an_index() {
    let mut r = fresh(0);
    r.total_supplied = 10;
    r.current_debt_rate_e24 = 3;
    r.current_deposit_rate_e24 = 1;
    let mut last = r.indexes;
    for now in [1u64, 2, 50, 50, 1_000_000, 1_000_000_000_000] {
        assert_eq!(r.accumulate_interest(now), Ok(()));
        assert!(r.indexes.cumulative_deposit_index_e18 >= last.cumulative_deposit_index_e18);
        assert!(r.indexes.cumulative_debt_index_e18 >= last.cumulative_debt_index_e18);
        last = r.indexes;
    }
    assert_eq!(r.indexes.cumulative_debt_index_e18, E18 + 2_999_999);
}

#[test]
fn failed_accrual_changes_nothing() {
    let mut r = fresh(0);
    r.current_debt_rate_e24 = u128::MAX;
    let before = r;
    assert_eq!(r.accumulate_interest(u64::MAX), Err(MathError::Overflow));
    assert_eq!(r, before);
    r.current_debt_rate_e24 = 0;
    r.indexes.cumulative_debt_index_e18 = 0;
    r.total_supplied = 1;
    let before = r;
    assert_eq!(r.accumulate_interest(5), Err(MathError::DivByZero));
    assert_eq!(r, before);
}
