use lending_pool::account::AccountId;
use lending_pool::actions::borrow::{
    blended_rate, borrow_step, change_state_borrow_stable, change_state_borrow_variable,
    change_state_repay_stable, change_state_repay_variable, repaid_amount, repay_step,
    set_as_collateral_step, weighted_mean, MODE_STABLE, MODE_VARIABLE,
};
use lending_pool::actions::deposit::{deposit_step, make_receipt, redeem_step, Balance};
use lending_pool::config::{AssetRules, UserConfig};
use lending_pool::errors::LendingPoolError;
use lending_pool::fixed::MathError;
use lending_pool::position::{AccruedInterest, UserReserveData};
use lending_pool::records::{signed_delta, Receipt, Records};
use lending_pool::reserve::{
    ReserveAbacusTokens, ReserveData, ReserveDataParameters, ReserveRestrictions,
};

fn reserve(id: u32, timestamp: u64) -> ReserveData {
    ReserveData::new(
        id,
        1_000_000_000_000,
        &ReserveDataParameters {
            interest_rate_model: [100, 200, 300, 400, 500, 600, 700],
            income_for_suppliers_part_e6: 500_000,
            flash_loan_fee_e6: 1_000,
        },
        &ReserveRestrictions::new(&None, &None, &0, &1),
        &ReserveAbacusTokens::new(&AccountId::new(0, 10), &AccountId::new(0, 11)),
        &timestamp,
    )
}

fn fresh(id: u32) -> Records {
    Records { reserve: reserve(id, 0), position: UserReserveData::new(), config: UserConfig::new() }
}

fn open_rules() -> Option<AssetRules> {
    Some(AssetRules {
        collateral_coefficient_e6: Some(500_000),
        borrow_coefficient_e6: Some(1_000_000),
        penalty_e6: None,
    })
}

fn supplied(id: u32, amount: u128) -> Records {
    deposit_step(&fresh(id), amount, 0).unwrap().0
}

#[test]
fn signed_delta_covers_the_signed_range() {
    assert_eq!(signed_delta(5, 3), Ok(2));
    assert_eq!(signed_delta(3, 5), Ok(-2));
    assert_eq!(signed_delta(i128::MAX as u128, 0), Ok(i128::MAX));
    assert_eq!(signed_delta(i128::MAX as u128 + 1, 0), Err(MathError::Overflow));
    assert_eq!(signed_delta(0, i128::MAX as u128 + 1), Ok(i128::MIN));
    assert_eq!(signed_delta(0, i128::MAX as u128 + 2), Err(MathError::Underflow));
    assert_eq!(signed_delta(u128::MAX, u128::MAX), Ok(0));
}

#[test]
fn receipt_adds_the_change_to_the_interest_of_its_kind() {
    let interest = AccruedInterest { supply: 5, variable_borrow: 7, stable_borrow: 11 };
    assert_eq!(
        make_receipt(100, &interest, Balance::Supply, true, None),
        Ok(Receipt {
            amount: 100,
            a_token_delta: 105,
            v_token_delta: 7,
            s_token_delta: 11,
            stable_rate_e24: None
        })
    );
    assert_eq!(
        make_receipt(100, &interest, Balance::VariableDebt, false, None),
        Ok(Receipt {
            amount: 100,
            a_token_delta: 5,
            v_token_delta: -93,
            s_token_delta: 11,
            stable_rate_e24: None
        })
    );
    assert_eq!(
        make_receipt(100, &interest, Balance::StableDebt, true, Some(3)),
        Ok(Receipt {
            amount: 100,
            a_token_delta: 5,
            v_token_delta: 7,
            s_token_delta: 111,
            stable_rate_e24: Some(3)
        })
    );
    let huge = AccruedInterest { supply: u128::MAX, variable_borrow: 0, stable_borrow: 0 };
    assert_eq!(
        make_receipt(1, &huge, Balance::StableDebt, true, None),
        Err(MathError::Overflow)
    );
    assert_eq!(
        make_receipt(u128::MAX, &huge, Balance::Supply, false, None).map(|r| r.a_token_delta),
        Ok(0)
    );
}

#[test]
fn deposit_adds_to_balance_and_total_and_sets_the_bit() {
    let mut start = fresh(3);
    start.reserve.restrictions.maximal_total_supply = Some(1000);
    let (next, receipt) = deposit_step(&start, 1000, 0).unwrap();
    assert_eq!(next.position.supplied, 1000);
    assert_eq!(next.reserve.total_supplied, 1000);
    assert!(next.config.deposits.contains(3));
    assert!(!next.config.deposits.contains(0));
    assert!(!next.config.collaterals.contains(3));
    assert_eq!(
        receipt,
        Receipt {
            amount: 1000,
            a_token_delta: 1000,
            v_token_delta: 0,
            s_token_delta: 0,
            stable_rate_e24: None
        }
    );
    let (again, _) = deposit_step(&next, 1, 0).map_err(|e| e).unwrap_or((next, receipt));
    assert_eq!(again.position.supplied, 1000);
}

#[test]
fn deposit_is_refused_with_its_reason() {
    let start = fresh(0);
    assert_eq!(
        deposit_step(&start, 0, 0).unwrap_err(),
        LendingPoolError::AmountNotGreaterThanZero
    );
    let mut inactive = start;
    inactive.reserve.active = false;
    inactive.reserve.frozen = true;
    assert_eq!(deposit_step(&inactive, 1, 0).unwrap_err(), LendingPoolError::Inactive);
    let mut frozen = start;
    frozen.reserve.frozen = true;
    assert_eq!(deposit_step(&frozen, 1, 0).unwrap_err(), LendingPoolError::Freezed);
    let mut capped = start;
    capped.reserve.restrictions.maximal_total_supply = Some(999);
    assert_eq!(deposit_step(&capped, 1000, 0).unwrap_err(), LendingPoolError::MaxSupplyReached);
    assert_eq!(deposit_step(&capped, 999, 0).unwrap().0.reserve.total_supplied, 999);
    let mut late = start;
    late.reserve.last_update_timestamp = 5;
    assert_eq!(
        deposit_step(&late, 1, 4).unwrap_err(),
        LendingPoolError::MathError(MathError::Underflow)
    );
    let mut full = start;
    full.position.supplied = u128::MAX;
    full.config.deposits.insert(0);
    assert_eq!(
        deposit_step(&full, 1, 0).unwrap_err(),
        LendingPoolError::MathError(MathError::Overflow)
    );
}

#[test]
fn redeem_takes_from_balance_and_total() {
    let start = supplied(2, 1000);
    let (next, receipt) = redeem_step(&start, Some(400), 0).unwrap();
    assert_eq!(next.position.supplied, 600);
    assert_eq!(next.reserve.total_supplied, 600);
    assert!(next.config.deposits.contains(2));
    assert_eq!(receipt.amount, 400);
    assert_eq!(receipt.a_token_delta, -400);
    assert_eq!(receipt.v_token_delta, 0);
}

#[test]
fn redeem_without_an_amount_takes_everything() {
    let mut start = supplied(2, 1000);
    start.reserve.total_supplied = 1500;
    let (next, receipt) = redeem_step(&start, None, 0).unwrap();
    assert_eq!(next.position.supplied, 0);
    assert_eq!(next.reserve.total_supplied, 500);
    assert!(!next.config.deposits.contains(2));
    assert_eq!(receipt.amount, 1000);
    assert_eq!(receipt.a_token_delta, -1000);
}

#[test]
fn redeem_from_a_total_that_does_not_hold_the_amount_underflows() {
    let mut start = supplied(2, 10);
    start.reserve.total_supplied = 5;
    assert_eq!(
        redeem_step(&start, Some(7), 0).unwrap_err(),
        LendingPoolError::MathError(MathError::Underflow)
    );
    assert_eq!(
        redeem_step(&start, None, 0).unwrap_err(),
        LendingPoolError::MathError(MathError::Underflow)
    );
    let (next, _) = redeem_step(&start, Some(5), 0).unwrap();
    assert_eq!(next.reserve.total_supplied, 0);
    assert_eq!(next.position.supplied, 5);
}

#[test]
fn redeem_is_refused_with_its_reason() {
    let start = supplied(0, 1000);
    assert_eq!(redeem_step(&fresh(0), None, 0).unwrap_err(), LendingPoolError::NothingToRedeem);
    assert_eq!(
        redeem_step(&start, Some(0), 0).unwrap_err(),
        LendingPoolError::AmountNotGreaterThanZero
    );
    assert_eq!(
        redeem_step(&start, Some(1001), 0).unwrap_err(),
        LendingPoolError::AmountExceedsUserDeposit
    );
    let mut inactive = start;
    inactive.reserve.active = false;
    assert_eq!(redeem_step(&inactive, None, 0).unwrap_err(), LendingPoolError::Inactive);
    let mut frozen = start;
    frozen.reserve.frozen = true;
    assert_eq!(redeem_step(&frozen, Some(1000), 0).unwrap().0.position.supplied, 0);
}

#[test]
fn weighted_mean_and_blend_follow_the_formula() {
    assert_eq!(weighted_mean(100, 300, 200, 100), Ok(125));
    assert_eq!(blended_rate(100, 300, 200, 100), Ok(126));
    assert_eq!(weighted_mean(0, 0, 36, 250), Ok(36));
    assert_eq!(blended_rate(0, 0, 36, 250), Ok(37));
    assert_eq!(weighted_mean(10, 3, 11, 2), Ok(10));
    assert_eq!(blended_rate(10, 3, 11, 2), Ok(11));
    assert_eq!(weighted_mean(u128::MAX, u128::MAX - 1, u128::MAX, 1), Ok(u128::MAX));
    assert_eq!(blended_rate(u128::MAX, u128::MAX - 1, u128::MAX, 1), Err(MathError::Overflow));
    assert_eq!(weighted_mean(1, u128::MAX, 1, 1), Err(MathError::Overflow));
    assert_eq!(weighted_mean(1, 0, 1, 0), Err(MathError::DivByZero));
}

#[test]
fn borrow_variable_adds_debt_and_sets_the_bit() {
    let start = supplied(1, 1000);
    let next = change_state_borrow_variable(&start, 400).unwrap();
    assert_eq!(next.position.variable_borrowed, 400);
    assert_eq!(next.reserve.total_variable_borrowed, 400);
    assert!(next.config.borrows_variable.contains(1));
    assert!(!next.config.borrows_stable.contains(1));
    assert_eq!(next.position.supplied, 1000);
    let mut full = start;
    full.reserve.total_variable_borrowed = u128::MAX;
    assert_eq!(change_state_borrow_variable(&full, 1), Err(MathError::Overflow));
}

#[test]
fn borrow_stable_blends_the_rates() {
    let start = supplied(1, 1000);
    let (first, rate) = change_state_borrow_stable(&start, 250).unwrap();
    assert_eq!(rate, 36);
    assert_eq!(first.position.stable_borrowed, 250);
    assert_eq!(first.position.stable_borrow_rate_e24, 37);
    assert_eq!(first.reserve.sum_stable_debt, 250);
    assert_eq!(first.reserve.average_stable_rate_e24, 36);
    assert!(first.config.borrows_stable.contains(1));
    let (second, rate) = change_state_borrow_stable(&first, 500).unwrap();
    assert_eq!(rate, 143);
    assert_eq!(second.position.stable_borrowed, 750);
    assert_eq!(second.position.stable_borrow_rate_e24, (37 * 250 + 143 * 500) / 750 + 1);
    assert_eq!(second.position.stable_borrow_rate_e24, 108);
    assert_eq!(second.reserve.sum_stable_debt, 750);
    assert_eq!(second.reserve.average_stable_rate_e24, 107);
}

#[test]
fn repay_variable_takes_debt_and_clears_the_bit_at_zero() {
    let start = change_state_borrow_variable(&supplied(1, 1000), 400).unwrap();
    let (part, repaid) = change_state_repay_variable(&start, Some(150)).unwrap();
    assert_eq!(repaid, 150);
    assert_eq!(part.position.variable_borrowed, 250);
    assert_eq!(part.reserve.total_variable_borrowed, 250);
    assert!(part.config.borrows_variable.contains(1));
    let (done, repaid) = change_state_repay_variable(&part, None).unwrap();
    assert_eq!(repaid, 250);
    assert_eq!(done.position.variable_borrowed, 0);
    assert_eq!(done.reserve.total_variable_borrowed, 0);
    assert!(!done.config.borrows_variable.contains(1));
    assert_eq!(
        change_state_repay_variable(&done, None).unwrap_err(),
        LendingPoolError::AmountNotGreaterThanZero
    );
    assert_eq!(
        change_state_repay_variable(&part, Some(251)).unwrap_err(),
        LendingPoolError::AmountExceedsUserDebt
    );
    let mut short = part;
    short.reserve.total_variable_borrowed = 100;
    assert_eq!(
        change_state_repay_variable(&short, Some(250)).unwrap_err(),
        LendingPoolError::MathError(MathError::Underflow)
    );
    assert_eq!(
        change_state_repay_variable(&short, Some(100)).unwrap().0.reserve.total_variable_borrowed,
        0
    );
    assert_eq!(
        repay_step(&short, Some(101), &vec![0], 0).unwrap_err(),
        LendingPoolError::MathError(MathError::Underflow)
    );
}

#[test]
fn repay_stable_takes_debt_and_reweighs_the_average() {
    let mut start = supplied(1, 1000);
    start.position.stable_borrowed = 250;
    start.position.stable_borrow_rate_e24 = 40;
    start.config.borrows_stable.insert(1);
    start.reserve.sum_stable_debt = 1000;
    start.reserve.average_stable_rate_e24 = 100;
    let (part, repaid) = change_state_repay_stable(&start, Some(50)).unwrap();
    assert_eq!(repaid, 50);
    assert_eq!(part.position.stable_borrowed, 200);
    assert_eq!(part.reserve.sum_stable_debt, 950);
    assert_eq!(part.reserve.average_stable_rate_e24, (100 * 1000 - 40 * 50) / 950);
    assert_eq!(part.reserve.average_stable_rate_e24, 103);
    assert!(part.config.borrows_stable.contains(1));
    let (done, repaid) = change_state_repay_stable(&part, None).unwrap();
    assert_eq!(repaid, 200);
    assert_eq!(done.position.stable_borrowed, 0);
    assert!(!done.config.borrows_stable.contains(1));
    assert_eq!(done.reserve.sum_stable_debt, 750);
    let mut last = start;
    last.reserve.sum_stable_debt = 250;
    let (gone, _) = change_state_repay_stable(&last, None).unwrap();
    assert_eq!(gone.reserve.sum_stable_debt, 0);
    assert_eq!(gone.reserve.average_stable_rate_e24, 0);
    let mut short = start;
    short.reserve.sum_stable_debt = 249;
    assert_eq!(
        change_state_repay_stable(&short, None).unwrap_err(),
        LendingPoolError::MathError(MathError::Underflow)
    );
    assert_eq!(
        repay_step(&short, Some(250), &vec![1], 0).unwrap_err(),
        LendingPoolError::MathError(MathError::Underflow)
    );
    let mut odd = start;
    odd.position.stable_borrow_rate_e24 = 1_000_000;
    assert_eq!(
        change_state_repay_stable(&odd, Some(250)).unwrap_err(),
        LendingPoolError::MathError(MathError::Underflow)
    );
    assert_eq!(
        change_state_repay_stable(&start, Some(251)).unwrap_err(),
        LendingPoolError::AmountExceedsUserDebt
    );
    assert_eq!(
        change_state_repay_stable(&start, Some(0)).unwrap_err(),
        LendingPoolError::AmountNotGreaterThanZero
    );
}

#[test]
fn borrow_selects_its_mode_by_the_first_byte() {
    let start = supplied(0, 1000);
    let (variable, receipt) =
        borrow_step(&start, &open_rules(), 400, &vec![MODE_VARIABLE, 9], 0).unwrap();
    assert_eq!(variable.position.variable_borrowed, 400);
    assert_eq!(variable.reserve.total_variable_borrowed, 400);
    assert_eq!(variable.reserve.current_debt_rate_e24, 58);
    assert_eq!(variable.reserve.current_deposit_rate_e24, 11);
    assert_eq!(receipt.amount, 400);
    assert_eq!(receipt.v_token_delta, 400);
    assert_eq!(receipt.s_token_delta, 0);
    assert_eq!(receipt.stable_rate_e24, None);
    let (stable, receipt) = borrow_step(&start, &open_rules(), 250, &vec![MODE_STABLE], 0).unwrap();
    assert_eq!(stable.position.stable_borrowed, 250);
    assert_eq!(stable.position.variable_borrowed, 0);
    assert_eq!(receipt.s_token_delta, 250);
    assert_eq!(receipt.v_token_delta, 0);
    assert_eq!(receipt.stable_rate_e24, Some(36));
}

#[test]
fn borrow_is_refused_with_its_reason() {
    let start = supplied(0, 1000);
    let rules = open_rules();
    assert_eq!(
        borrow_step(&start, &rules, 0, &vec![], 0).unwrap_err(),
        LendingPoolError::UnspecifiedAction
    );
    assert_eq!(
        borrow_step(&start, &rules, 0, &vec![0], 0).unwrap_err(),
        LendingPoolError::AmountNotGreaterThanZero
    );
    assert_eq!(
        borrow_step(&start, &rules, 1, &vec![2], 0).unwrap_err(),
        LendingPoolError::UnspecifiedAction
    );
    let mut inactive = start;
    inactive.reserve.active = false;
    assert_eq!(
        borrow_step(&inactive, &rules, 1, &vec![0], 0).unwrap_err(),
        LendingPoolError::Inactive
    );
    let mut frozen = start;
    frozen.reserve.frozen = true;
    assert_eq!(borrow_step(&frozen, &rules, 1, &vec![1], 0).unwrap_err(), LendingPoolError::Freezed);
    assert_eq!(
        borrow_step(&start, &None, 1, &vec![0], 0).unwrap_err(),
        LendingPoolError::RuleBorrowDisable
    );
    let closed = Some(AssetRules {
        collateral_coefficient_e6: Some(1),
        borrow_coefficient_e6: None,
        penalty_e6: None,
    });
    assert_eq!(
        borrow_step(&start, &closed, 1, &vec![1], 0).unwrap_err(),
        LendingPoolError::RuleBorrowDisable
    );
    let mut floor = start;
    floor.reserve.restrictions.minimal_debt = 50;
    assert_eq!(
        borrow_step(&floor, &rules, 49, &vec![0], 0).unwrap_err(),
        LendingPoolError::MinimalDebt
    );
    assert_eq!(
        borrow_step(&floor, &rules, 49, &vec![1], 0).unwrap_err(),
        LendingPoolError::MinimalDebt
    );
    assert!(borrow_step(&floor, &rules, 50, &vec![0], 0).is_ok());
    let mut capped = start;
    capped.reserve.restrictions.maximal_total_debt = Some(399);
    assert_eq!(
        borrow_step(&capped, &rules, 400, &vec![0], 0).unwrap_err(),
        LendingPoolError::MaxDebtReached
    );
    assert_eq!(
        borrow_step(&capped, &rules, 400, &vec![1], 0).unwrap_err(),
        LendingPoolError::MaxDebtReached
    );
    assert!(borrow_step(&capped, &rules, 399, &vec![0], 0).is_ok());
}

#[test]
fn repay_selects_its_mode_by_the_first_byte() {
    let start = supplied(0, 1000);
    let rules = open_rules();
    let (owing, _) = borrow_step(&start, &rules, 400, &vec![0], 0).unwrap();
    let (owing, _) = borrow_step(&owing, &rules, 250, &vec![1], 0).unwrap();
    let (next, receipt) = repay_step(&owing, Some(100), &vec![0], 0).unwrap();
    assert_eq!(next.position.variable_borrowed, 300);
    assert_eq!(next.position.stable_borrowed, 250);
    assert_eq!(receipt.amount, 100);
    assert_eq!(receipt.v_token_delta, -100);
    let (next, receipt) = repay_step(&owing, None, &vec![1], 0).unwrap();
    assert_eq!(next.position.stable_borrowed, 0);
    assert_eq!(next.position.variable_borrowed, 400);
    assert!(!next.config.borrows_stable.contains(0));
    assert!(next.config.borrows_variable.contains(0));
    assert_eq!(receipt.amount, 250);
    assert_eq!(receipt.s_token_delta, -250);
}

#[test]
fn repay_is_refused_with_its_reason() {
    let mut owing = borrow_step(&supplied(0, 1000), &open_rules(), 400, &vec![0], 0).unwrap().0;
    assert_eq!(
        repay_step(&owing, None, &vec![], 0).unwrap_err(),
        LendingPoolError::UnspecifiedAction
    );
    assert_eq!(
        repay_step(&owing, None, &vec![7], 0).unwrap_err(),
        LendingPoolError::UnspecifiedAction
    );
    assert_eq!(
        repay_step(&owing, Some(401), &vec![0], 0).unwrap_err(),
        LendingPoolError::AmountExceedsUserDebt
    );
    assert_eq!(
        repay_step(&owing, Some(1), &vec![1], 0).unwrap_err(),
        LendingPoolError::AmountExceedsUserDebt
    );
    assert_eq!(
        repay_step(&owing, None, &vec![1], 0).unwrap_err(),
        LendingPoolError::AmountNotGreaterThanZero
    );
    owing.reserve.restrictions.minimal_debt = 100;
    assert_eq!(
        repay_step(&owing, Some(301), &vec![0], 0).unwrap_err(),
        LendingPoolError::MinimalDebt
    );
    let mut both = owing;
    both.reserve.total_variable_borrowed = 0;
    assert_eq!(
        repay_step(&both, Some(301), &vec![0], 0).unwrap_err(),
        LendingPoolError::MinimalDebt
    );
    assert_eq!(repaid_amount(&owing.reserve, 400, Some(300)), Ok(300));
    assert_eq!(repaid_amount(&owing.reserve, 400, None), Ok(400));
    assert_eq!(repaid_amount(&owing.reserve, 400, Some(301)), Err(LendingPoolError::MinimalDebt));
    assert_eq!(
        repaid_amount(&owing.reserve, 400, Some(401)),
        Err(LendingPoolError::AmountExceedsUserDebt)
    );
    assert_eq!(
        repaid_amount(&owing.reserve, 0, None),
        Err(LendingPoolError::AmountNotGreaterThanZero)
    );
    assert!(repay_step(&owing, Some(300), &vec![0], 0).is_ok());
    assert!(repay_step(&owing, Some(400), &vec![0], 0).is_ok());
    owing.reserve.frozen = true;
    assert!(repay_step(&owing, Some(400), &vec![0], 0).is_ok());
    owing.reserve.active = false;
    assert_eq!(repay_step(&owing, None, &vec![0], 0).unwrap_err(), LendingPoolError::Inactive);
}

#[test]
fn interest_accrues_before_an_action_changes_a_balance() {
    let mut start = supplied(0, 1_000_000);
    start.position.variable_borrowed = 400_000;
    start.config.borrows_variable.insert(0);
    start.reserve.total_variable_borrowed = 400_000;
    start.reserve.current_debt_rate_e24 = 1_000_000_000_000_000_000;
    start.reserve.current_deposit_rate_e24 = 500_000_000_000_000_000;
    let (next, receipt) = repay_step(&start, None, &vec![0], 1000).unwrap();
    assert_eq!(receipt.amount, 400_400);
    assert_eq!(receipt.v_token_delta, -400_000);
    assert_eq!(receipt.a_token_delta, 500);
    assert_eq!(next.position.variable_borrowed, 0);
    assert_eq!(next.position.supplied, 1_000_500);
    assert_eq!(next.reserve.total_variable_borrowed, 0);
    assert_eq!(next.reserve.total_supplied, 1_001_000);
    assert_eq!(next.reserve.last_update_timestamp, 1000);
    assert_eq!(next.position.update_timestamp, 1000);
    assert_eq!(next.reserve.current_debt_rate_e24, 0);
}

#[test]
fn collateral_flag_needs_a_deposit_and_a_coefficient() {
    let start = supplied(4, 1000);
    let rules = open_rules();
    let on = set_as_collateral_step(&start, &rules, true).unwrap();
    assert!(on.config.collaterals.contains(4));
    assert_eq!(on.position, start.position);
    assert_eq!(on.reserve, start.reserve);
    let off = set_as_collateral_step(&on, &None, false).unwrap();
    assert!(!off.config.collaterals.contains(4));
    assert_eq!(off.config, start.config);
    assert_eq!(
        set_as_collateral_step(&fresh(4), &rules, true).unwrap_err(),
        LendingPoolError::InsufficientDeposit
    );
    let mut small = start;
    small.reserve.restrictions.minimal_collateral = 1001;
    assert_eq!(
        set_as_collateral_step(&small, &rules, true).unwrap_err(),
        LendingPoolError::MinimalCollateralDeposit
    );
    assert_eq!(
        set_as_collateral_step(&start, &None, true).unwrap_err(),
        LendingPoolError::RuleCollateralDisable
    );
    let no_weight = Some(AssetRules {
        collateral_coefficient_e6: None,
        borrow_coefficient_e6: Some(1),
        penalty_e6: Some(1),
    });
    assert_eq!(
        set_as_collateral_step(&start, &no_weight, true).unwrap_err(),
        LendingPoolError::RuleCollateralDisable
    );
    assert!(set_as_collateral_step(&fresh(4), &None, false).is_ok());
}
