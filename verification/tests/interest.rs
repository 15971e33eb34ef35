use lending_pool::account::AccountId;
use lending_pool::errors::{LendingPoolError, LendingPoolTokenInterfaceError};
use lending_pool::manage::ASSET_LISTING_ADMIN;
use lending_pool::pool::LendingPool;
use lending_pool::position::AccruedInterest;
use lending_pool::v_token_interface::DebtTransfer;

const PRICE: u128 = 1_000_000_000_000;
const LATER: u64 = 1_000_000_000;

fn asset() -> AccountId {
    AccountId::new(0, 0xa)
}

fn v_token() -> AccountId {
    AccountId::new(3, 0xa)
}

fn alice() -> AccountId {
    AccountId::new(1, 1)
}

fn bob() -> AccountId {
    AccountId::new(1, 2)
}

fn carol() -> AccountId {
    AccountId::new(1, 3)
}

fn market() -> LendingPool {
    let mut pool = LendingPool::new(AccountId::new(9, 9));
    let model: [u128; 7] = [
        100_000_000_000_000,
        200_000_000_000_000,
        300_000_000_000_000,
        400_000_000_000_000,
        500_000_000_000_000,
        600_000_000_000_000,
        700_000_000_000_000,
    ];
    let listed = pool.register_asset(
        &vec![ASSET_LISTING_ADMIN],
        asset(),
        12,
        Some(500_000),
        Some(1_000_000),
        None,
        None,
        None,
        0,
        100,
        500_000,
        0,
        model,
        AccountId::new(2, 0xa),
        v_token(),
        0,
    );
    assert_eq!(listed, Ok(()));
    let prices = vec![Some(PRICE)];
    assert!(pool.deposit(asset(), alice(), 1_000_000, 0).is_ok());
    assert_eq!(pool.set_as_collateral(alice(), asset(), true, &prices, 0), Ok(()));
    assert!(pool.borrow(asset(), alice(), 500_000, &vec![0], &prices, 0).is_ok());
    pool
}

#[test]
fn rates_are_set_by_the_borrow() {
    let pool = market();
    let reserve = pool.view_reserve_data(asset()).unwrap();
    assert_eq!(reserve.current_debt_rate_e24, 73_529_411_764_705);
    assert_eq!(reserve.current_deposit_rate_e24, 18_382_352_941_176);
}

#[test]
fn debt_with_interest_is_shown_without_being_stored() {
    let pool = market();
    assert_eq!(pool.total_variable_debt_of(asset(), LATER), Ok(536_764));
    assert_eq!(pool.user_variable_debt_of(asset(), alice(), LATER), Ok(536_764));
    assert_eq!(pool.user_variable_debt_of(asset(), bob(), LATER), Ok(0));
    assert_eq!(pool.view_reserve_data(asset()).unwrap().total_variable_borrowed, 500_000);
    assert_eq!(pool.view_user_reserve_data(asset(), alice()).unwrap().variable_borrowed, 500_000);
}

#[test]
fn solvency_is_judged_with_interest_up_to_now() {
    let pool = market();
    let prices = vec![Some(PRICE)];
    assert_eq!(pool.get_user_free_collateral_coefficient(alice(), &prices, 0), Ok((true, 0)));
    let values = pool.user_values(alice(), &prices, LATER).unwrap();
    assert_eq!(values.collateral, 509_191);
    assert_eq!(values.debt, 536_764);
    assert_eq!(
        pool.get_user_free_collateral_coefficient(alice(), &prices, LATER),
        Ok((false, 27_573))
    );
}

#[test]
fn an_action_stores_the_interest_it_accrued() {
    let mut pool = market();
    let receipt = pool.deposit(asset(), alice(), 1, LATER).unwrap();
    assert_eq!(receipt.amount, 1);
    assert_eq!(receipt.a_token_delta, 18_383);
    assert_eq!(receipt.v_token_delta, 36_764);
    assert_eq!(receipt.s_token_delta, 0);
    let reserve = pool.view_reserve_data(asset()).unwrap();
    assert_eq!(reserve.indexes.cumulative_debt_index_e18, 1_073_529_411_764_705_000);
    assert_eq!(reserve.indexes.cumulative_deposit_index_e18, 1_018_382_352_941_176_000);
    assert_eq!(reserve.total_variable_borrowed, 536_764);
    assert_eq!(reserve.total_supplied, 1_073_530);
    assert_eq!(reserve.last_update_timestamp, LATER);
    let position = pool.view_user_reserve_data(asset(), alice()).unwrap();
    assert_eq!(position.supplied, 1_018_383);
    assert_eq!(position.variable_borrowed, 536_764);
    assert_eq!(position.applied_indexes, reserve.indexes);
    assert_eq!(
        pool.redeem(asset(), alice(), Some(1), &vec![Some(PRICE)], LATER),
        Err(LendingPoolError::InsufficientUserFreeCollateral)
    );
    assert_eq!(
        pool.deposit(asset(), alice(), 1, LATER - 1),
        Err(LendingPoolError::MathError(lending_pool::fixed::MathError::Underflow))
    );
}

#[test]
fn debt_moves_between_users_on_the_debt_tokens_request() {
    let mut pool = market();
    let prices = vec![Some(PRICE)];
    assert!(pool.deposit(asset(), bob(), 1_000_000, 0).is_ok());
    assert_eq!(pool.set_as_collateral(bob(), asset(), true, &prices, 0), Ok(()));
    let nothing = AccruedInterest { supply: 0, variable_borrow: 0, stable_borrow: 0 };
    let moved =
        pool.transfer_variable_debt_from_to(v_token(), asset(), alice(), bob(), 200_000, &prices, 0);
    assert_eq!(moved, Ok(DebtTransfer { from: nothing, to: nothing }));
    assert_eq!(pool.view_user_reserve_data(asset(), alice()).unwrap().variable_borrowed, 300_000);
    assert_eq!(pool.view_user_reserve_data(asset(), bob()).unwrap().variable_borrowed, 200_000);
    assert!(pool.view_user_config(bob()).borrows_variable.contains(0));
    assert!(pool.view_user_config(alice()).borrows_variable.contains(0));
    assert_eq!(pool.view_reserve_data(asset()).unwrap().total_variable_borrowed, 500_000);
    let rest =
        pool.transfer_variable_debt_from_to(v_token(), asset(), alice(), bob(), 300_000, &prices, 0);
    assert!(rest.is_ok());
    assert_eq!(pool.view_user_reserve_data(asset(), alice()).unwrap().variable_borrowed, 0);
    assert!(!pool.view_user_config(alice()).borrows_variable.contains(0));
    assert_eq!(pool.view_user_reserve_data(asset(), bob()).unwrap().variable_borrowed, 500_000);
    let own =
        pool.transfer_variable_debt_from_to(v_token(), asset(), bob(), bob(), 500_000, &prices, 0);
    assert!(own.is_ok());
    assert_eq!(pool.view_user_reserve_data(asset(), bob()).unwrap().variable_borrowed, 500_000);
    assert!(pool.view_user_config(bob()).borrows_variable.contains(0));
}

#[test]
fn debt_transfer_reports_the_interest_of_both_users() {
    let mut pool = market();
    let prices = vec![Some(PRICE)];
    assert!(pool.deposit(asset(), bob(), 2_000_000, 0).is_ok());
    assert_eq!(pool.set_as_collateral(bob(), asset(), true, &prices, 0), Ok(()));
    let moved = pool
        .transfer_variable_debt_from_to(v_token(), asset(), alice(), bob(), 512_254, &prices, LATER)
        .unwrap();
    assert_eq!(moved.from.variable_borrow, 12_254);
    assert_eq!(moved.from.supply, 2_042);
    assert_eq!(moved.from.stable_borrow, 0);
    assert_eq!(moved.to.variable_borrow, 0);
    assert_eq!(moved.to.supply, 4_084);
    assert_eq!(pool.view_user_reserve_data(asset(), alice()).unwrap().variable_borrowed, 0);
    assert_eq!(pool.view_user_reserve_data(asset(), bob()).unwrap().variable_borrowed, 512_254);
    assert_eq!(pool.view_user_reserve_data(asset(), bob()).unwrap().supplied, 2_004_084);
    assert_eq!(pool.view_reserve_data(asset()).unwrap().last_update_timestamp, LATER);
}

#[test]
fn debt_transfer_asks_for_the_records_of_both_users_first() {
    let mut pool = market();
    let prices = vec![Some(PRICE)];
    assert!(pool.has_account(&alice()));
    assert!(pool.has_position(0, &alice()));
    assert!(!pool.has_account(&carol()));
    assert!(!pool.has_position(0, &carol()));
    assert_eq!(pool.view_user_reserve_data(asset(), carol()), None);
    let emergency = vec![lending_pool::manage::EMERGENCY_ADMIN];
    assert_eq!(pool.set_reserve_is_freezed(&emergency, asset(), true), Ok(()));
    let reserve = pool.view_reserve_data(asset());
    assert_eq!(
        pool.transfer_variable_debt_from_to(v_token(), asset(), carol(), alice(), 1, &prices, 0),
        Err(LendingPoolTokenInterfaceError::InsufficientBalance)
    );
    assert_eq!(
        pool.transfer_variable_debt_from_to(v_token(), asset(), carol(), alice(), 0, &prices, 0),
        Err(LendingPoolTokenInterfaceError::InsufficientBalance)
    );
    assert_eq!(
        pool.transfer_variable_debt_from_to(v_token(), asset(), carol(), bob(), 1, &prices, 0),
        Err(LendingPoolTokenInterfaceError::InsufficientBalance)
    );
    assert_eq!(
        pool.transfer_variable_debt_from_to(v_token(), asset(), alice(), carol(), 0, &prices, 0),
        Err(LendingPoolTokenInterfaceError::InsufficientCollateral)
    );
    assert_eq!(
        pool.transfer_variable_debt_from_to(v_token(), asset(), alice(), carol(), 1, &prices, 0),
        Err(LendingPoolTokenInterfaceError::InsufficientCollateral)
    );
    assert_eq!(
        pool.transfer_variable_debt_from_to(v_token(), asset(), alice(), alice(), 1, &prices, 0),
        Err(LendingPoolTokenInterfaceError::TransfersDisabled)
    );
    assert_eq!(pool.view_reserve_data(asset()), reserve);
    assert_eq!(pool.set_reserve_is_freezed(&emergency, asset(), false), Ok(()));
    let reserve = pool.view_reserve_data(asset());
    assert_eq!(
        pool.transfer_variable_debt_from_to(v_token(), asset(), alice(), carol(), 0, &prices, 0),
        Err(LendingPoolTokenInterfaceError::InsufficientCollateral)
    );
    assert_eq!(pool.view_reserve_data(asset()), reserve);
    assert!(!pool.has_account(&carol()));
    assert_eq!(pool.choose_market_rule(carol(), 0, &prices, 0), Ok(()));
    assert!(pool.has_account(&carol()));
    assert!(!pool.has_position(0, &carol()));
    assert_eq!(
        pool.transfer_variable_debt_from_to(v_token(), asset(), carol(), alice(), 0, &prices, 0),
        Err(LendingPoolTokenInterfaceError::InsufficientBalance)
    );
    assert_eq!(
        pool.transfer_variable_debt_from_to(v_token(), asset(), alice(), carol(), 100, &prices, 0),
        Err(LendingPoolTokenInterfaceError::InsufficientCollateral)
    );
    assert!(!pool.has_position(0, &carol()));
}

#[test]
fn debt_transfer_is_refused_with_its_reason() {
    let mut pool = market();
    let prices = vec![Some(PRICE)];
    assert!(pool.deposit(asset(), bob(), 1_000_000, 0).is_ok());
    assert_eq!(pool.set_as_collateral(bob(), asset(), true, &prices, 0), Ok(()));
    let reserve = pool.view_reserve_data(asset());
    let from = pool.view_user_reserve_data(asset(), alice());
    let to = pool.view_user_reserve_data(asset(), bob());
    assert_eq!(
        pool.transfer_variable_debt_from_to(
            v_token(),
            AccountId::new(0, 0xb),
            alice(),
            bob(),
            1,
            &prices,
            0
        ),
        Err(LendingPoolTokenInterfaceError::AssetNotRegistered)
    );
    assert_eq!(
        pool.transfer_variable_debt_from_to(alice(), asset(), alice(), bob(), 1, &prices, 0),
        Err(LendingPoolTokenInterfaceError::WrongCaller)
    );
    assert_eq!(
        pool.transfer_variable_debt_from_to(v_token(), asset(), alice(), bob(), 500_001, &prices, 0),
        Err(LendingPoolTokenInterfaceError::InsufficientBalance)
    );
    assert_eq!(
        pool.transfer_variable_debt_from_to(v_token(), asset(), alice(), bob(), 499_950, &prices, 0),
        Err(LendingPoolTokenInterfaceError::MinimalDebt)
    );
    assert_eq!(
        pool.transfer_variable_debt_from_to(v_token(), asset(), alice(), bob(), 99, &prices, 0),
        Err(LendingPoolTokenInterfaceError::MinimalDebt)
    );
    assert_eq!(
        pool.transfer_variable_debt_from_to(v_token(), asset(), alice(), carol(), 100, &prices, 0),
        Err(LendingPoolTokenInterfaceError::InsufficientCollateral)
    );
    assert_eq!(
        pool.transfer_variable_debt_from_to(v_token(), asset(), alice(), bob(), 100, &vec![], 0),
        Err(LendingPoolTokenInterfaceError::InsufficientCollateral)
    );
    assert_eq!(
        pool.transfer_variable_debt_from_to(v_token(), asset(), alice(), bob(), 100, &prices, 0)
            .is_ok(),
        true
    );
    let emergency = vec![lending_pool::manage::EMERGENCY_ADMIN];
    assert_eq!(pool.set_reserve_is_freezed(&emergency, asset(), true), Ok(()));
    assert_eq!(
        pool.transfer_variable_debt_from_to(v_token(), asset(), alice(), bob(), 100, &prices, 0),
        Err(LendingPoolTokenInterfaceError::TransfersDisabled)
    );
    assert_eq!(pool.set_reserve_is_freezed(&emergency, asset(), false), Ok(()));
    let mut fresh = market();
    assert!(fresh.deposit(asset(), bob(), 1_000_000, 0).is_ok());
    assert_eq!(fresh.set_as_collateral(bob(), asset(), true, &prices, 0), Ok(()));
    assert_eq!(
        fresh.transfer_variable_debt_from_to(v_token(), asset(), alice(), bob(), 99, &prices, 0),
        Err(LendingPoolTokenInterfaceError::MinimalDebt)
    );
    assert_eq!(fresh.view_reserve_data(asset()), reserve);
    assert_eq!(fresh.view_user_reserve_data(asset(), alice()), from);
    assert_eq!(fresh.view_user_reserve_data(asset(), bob()), to);
}
