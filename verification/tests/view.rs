use lending_pool::account::AccountId;
use lending_pool::collateral::{free_collateral, reserve_values, user_values, Values};
use lending_pool::config::{get_rule_entry, AssetRules, UserConfig};
use lending_pool::errors::{AccessControlError, LendingPoolError};
use lending_pool::fixed::MathError;
use lending_pool::manage::{ASSET_LISTING_ADMIN, GLOBAL_ADMIN, TREASURY};
use lending_pool::pool::{copy_of, copy_with, LendingPool};
use lending_pool::table::{index_of, Table};
use lending_pool::position::UserReserveData;
use lending_pool::reserve::{
    ReserveAbacusTokens, ReserveData, ReserveDataParameters, ReserveRestrictions,
};
use lending_pool::view::{payout_count, protocol_income};

const PRICE: u128 = 1_000_000_000_000;

fn asset(n: u128) -> AccountId {
    AccountId::new(0, n)
}

fn reserve(id: u32) -> ReserveData {
    ReserveData::new(
        id,
        1_000_000_000_000,
        &ReserveDataParameters {
            interest_rate_model: [100, 200, 300, 400, 500, 600, 700],
            income_for_suppliers_part_e6: 500_000,
            flash_loan_fee_e6: 1_000,
        },
        &ReserveRestrictions::new(&None, &None, &0, &1),
        &ReserveAbacusTokens::new(&AccountId::new(0, 10), &AccountId::new(0, 11)),
        &0,
    )
}

fn rules(collateral: Option<u128>, borrow: Option<u128>) -> Option<AssetRules> {
    Some(AssetRules { collateral_coefficient_e6: collateral, borrow_coefficient_e6: borrow, penalty_e6: None })
}

fn market() -> LendingPool {
    let mut pool = LendingPool::new(AccountId::new(9, 9));
    for n in 1..=3u128 {
        let listed = pool.register_asset(
            &vec![ASSET_LISTING_ADMIN],
            asset(n),
            12,
            Some(500_000),
            Some(1_000_000),
            None,
            None,
            None,
            0,
            1,
            500_000,
            1_000,
            [100, 200, 300, 400, 500, 600, 700],
            AccountId::new(2, n),
            AccountId::new(3, n),
            0,
        );
        assert_eq!(listed, Ok(()));
    }
    pool
}

#[test]
fn lists_find_and_copy() {
    let list = vec![asset(5), asset(6), asset(7)];
    assert_eq!(index_of(&list, &asset(5)), Some(0));
    assert_eq!(index_of(&list, &asset(7)), Some(2));
    assert_eq!(index_of(&list, &asset(8)), None);
    assert_eq!(index_of(&list, &AccountId::new(5, 0)), None);
    assert_eq!(copy_of(&vec![1u8, 2, 3]), vec![1, 2, 3]);
    assert_eq!(copy_of(&Vec::<u8>::new()), vec![]);
    assert_eq!(copy_with(&vec![1u8, 2, 3], 1, 9, 0), vec![1, 9, 3]);
    assert_eq!(copy_with(&vec![1u8, 2, 3], 5, 9, 0), vec![1, 2, 3, 0, 0, 9]);
    assert_eq!(copy_with(&vec![], 0, 9u8, 0), vec![9]);
    assert_eq!(copy_with(&vec![1u8], 1, 9, 7), vec![1, 9]);
}

#[test]
fn a_table_keeps_one_record_for_each_account() {
    let mut table: Table<u8> = Table::new();
    assert_eq!(table.get(&asset(1)), None);
    table.insert(asset(1), 10);
    table.insert(asset(2), 20);
    assert_eq!(table.get(&asset(1)), Some(&10));
    assert_eq!(table.get(&asset(2)), Some(&20));
    table.insert(asset(1), 11);
    assert_eq!(table.get(&asset(1)), Some(&11));
    assert_eq!(table.get(&asset(2)), Some(&20));
    assert_eq!(table.get(&asset(3)), None);
}

#[test]
fn rule_entries_beyond_the_rule_are_absent() {
    let rule = vec![rules(Some(1), None), None];
    assert_eq!(get_rule_entry(&rule, 0), rules(Some(1), None));
    assert_eq!(get_rule_entry(&rule, 1), None);
    assert_eq!(get_rule_entry(&rule, 2), None);
    assert_eq!(get_rule_entry(&rule, u32::MAX), None);
}

#[test]
fn a_reserve_counts_only_where_the_user_holds_something() {
    let rule = vec![rules(Some(500_000), Some(2_000_000))];
    let mut position = UserReserveData::new();
    position.supplied = 1000;
    position.variable_borrowed = 100;
    position.stable_borrowed = 50;
    let mut config = UserConfig::new();
    let nothing = Values { collateral: 0, debt: 0 };
    assert_eq!(reserve_values(0, &reserve(0), &position, &config, &rule, None, 0), Ok(nothing));
    assert_eq!(
        reserve_values(200, &reserve(0), &position, &config, &rule, Some(PRICE), 0),
        Ok(nothing)
    );
    config.deposits.insert(0);
    assert_eq!(
        reserve_values(0, &reserve(0), &position, &config, &rule, None, 0),
        Err(LendingPoolError::PriceMissing)
    );
    assert_eq!(
        reserve_values(0, &reserve(0), &position, &config, &rule, Some(PRICE), 0),
        Ok(Values { collateral: 0, debt: 300 })
    );
    config.collaterals.insert(0);
    assert_eq!(
        reserve_values(0, &reserve(0), &position, &config, &rule, Some(PRICE), 0),
        Ok(Values { collateral: 500, debt: 300 })
    );
    assert_eq!(
        reserve_values(0, &reserve(0), &position, &config, &rule, Some(3 * PRICE), 0),
        Ok(Values { collateral: 1500, debt: 900 })
    );
    let unweighted = vec![rules(None, None)];
    assert_eq!(
        reserve_values(0, &reserve(0), &position, &config, &unweighted, Some(PRICE), 0),
        Ok(Values { collateral: 0, debt: 150 })
    );
    assert_eq!(
        reserve_values(0, &reserve(0), &position, &config, &vec![], Some(PRICE), 0),
        Ok(Values { collateral: 0, debt: 150 })
    );
    let mut only_debt = UserConfig::new();
    only_debt.borrows_stable.insert(0);
    only_debt.collaterals.insert(0);
    assert_eq!(
        reserve_values(0, &reserve(0), &position, &only_debt, &rule, Some(PRICE), 0),
        Ok(Values { collateral: 0, debt: 300 })
    );
    let mut broken = reserve(0);
    broken.decimal_multiplier = 0;
    assert_eq!(
        reserve_values(0, &broken, &position, &config, &rule, Some(PRICE), 0),
        Err(LendingPoolError::MathError(MathError::DivByZero))
    );
    assert_eq!(
        reserve_values(0, &reserve(0), &position, &config, &rule, Some(PRICE), 0).is_ok(),
        true
    );
    let mut late = reserve(0);
    late.last_update_timestamp = 9;
    assert_eq!(
        reserve_values(0, &late, &position, &config, &rule, Some(PRICE), 8),
        Err(LendingPoolError::MathError(MathError::Underflow))
    );
}

#[test]
fn values_add_up_over_the_reserves() {
    let reserves = vec![reserve(0), reserve(1), reserve(2)];
    let rule = vec![rules(Some(500_000), Some(1_000_000)), rules(Some(1_000_000), None), None];
    let mut a = UserReserveData::new();
    a.supplied = 1000;
    let mut b = UserReserveData::new();
    b.supplied = 10;
    b.variable_borrowed = 7;
    let mut c = UserReserveData::new();
    c.stable_borrowed = 5;
    let positions = vec![a, b, c];
    let mut config = UserConfig::new();
    config.deposits.insert(0);
    config.deposits.insert(1);
    config.collaterals.insert(0);
    config.collaterals.insert(1);
    config.borrows_variable.insert(1);
    config.borrows_stable.insert(2);
    let prices = vec![Some(PRICE), Some(10 * PRICE), Some(PRICE / 5)];
    assert_eq!(
        user_values(&reserves, &positions, &config, &rule, &prices, 0),
        Ok(Values { collateral: 600, debt: 71 })
    );
    assert_eq!(
        user_values(&reserves, &positions, &config, &rule, &vec![Some(PRICE), Some(PRICE)], 0),
        Err(LendingPoolError::PriceMissing)
    );
    assert_eq!(
        user_values(&reserves, &vec![a], &config, &rule, &prices, 0),
        Ok(Values { collateral: 500, debt: 0 })
    );
    assert_eq!(
        user_values(&vec![], &positions, &config, &rule, &prices, 0),
        Ok(Values { collateral: 0, debt: 0 })
    );
    let mut rich = a;
    rich.supplied = u128::MAX;
    let dear = vec![Some(2 * PRICE), Some(PRICE), Some(PRICE)];
    assert_eq!(
        user_values(&reserves, &vec![rich, b, c], &config, &rule, &dear, 0),
        Err(LendingPoolError::MathError(MathError::Overflow))
    );
    let mut near = b;
    near.supplied = u128::MAX;
    assert_eq!(
        user_values(&reserves, &vec![a, near, c], &config, &rule, &prices, 0),
        Err(LendingPoolError::MathError(MathError::Overflow))
    );
    let plain = vec![Some(PRICE), Some(PRICE), Some(PRICE)];
    assert_eq!(
        user_values(&reserves, &vec![a, near, c], &config, &rule, &plain, 0),
        Err(LendingPoolError::MathError(MathError::Overflow))
    );
    assert_eq!(
        user_values(&reserves, &vec![UserReserveData::new(), near, c], &config, &rule, &plain, 0),
        Ok(Values { collateral: u128::MAX, debt: 12 })
    );
}

#[test]
fn free_collateral_is_the_difference_and_its_side() {
    assert_eq!(free_collateral(&Values { collateral: 500, debt: 400 }), (true, 100));
    assert_eq!(free_collateral(&Values { collateral: 400, debt: 400 }), (true, 0));
    assert_eq!(free_collateral(&Values { collateral: 400, debt: 500 }), (false, 100));
    assert_eq!(free_collateral(&Values { collateral: 0, debt: u128::MAX }), (false, u128::MAX));
}

#[test]
fn price_of_a_listed_asset_is_read_by_its_reserve_id() {
    let pool = market();
    let prices = vec![Some(5), None];
    assert_eq!(pool.get_reserve_token_price_e8(asset(1), &prices), Some(5));
    assert_eq!(pool.get_reserve_token_price_e8(asset(2), &prices), None);
    assert_eq!(pool.get_reserve_token_price_e8(asset(3), &prices), None);
    assert_eq!(pool.get_reserve_token_price_e8(asset(4), &prices), None);
}

#[test]
fn protocol_income_is_what_is_held_and_owed_less_what_is_owing() {
    let mut r = reserve(0);
    r.total_supplied = 1000;
    r.total_variable_borrowed = 300;
    r.sum_stable_debt = 100;
    assert_eq!(protocol_income(&r, 600), Ok(0));
    assert_eq!(protocol_income(&r, 650), Ok(50));
    assert_eq!(protocol_income(&r, 0), Ok(-600));
    r.total_supplied = 0;
    r.total_variable_borrowed = u128::MAX;
    r.sum_stable_debt = u128::MAX;
    assert_eq!(protocol_income(&r, u128::MAX), Err(MathError::Overflow));
    r.total_supplied = u128::MAX;
    r.sum_stable_debt = 0;
    assert_eq!(protocol_income(&r, 7), Ok(7));
    r.total_variable_borrowed = 0;
    assert_eq!(protocol_income(&r, 0), Err(MathError::Underflow));
    r.total_supplied = 1 << 127;
    assert_eq!(protocol_income(&r, 0), Ok(i128::MIN));
    assert_eq!(protocol_income(&r, u128::MAX), Ok(i128::MAX));
}

#[test]
fn payout_stops_at_the_first_income_that_is_not_positive() {
    let a = asset(1);
    assert_eq!(payout_count(&vec![]), 0);
    assert_eq!(payout_count(&vec![(a, 1), (a, 2), (a, 3)]), 3);
    assert_eq!(payout_count(&vec![(a, 1), (a, 0), (a, 3)]), 1);
    assert_eq!(payout_count(&vec![(a, -1), (a, 2)]), 0);
    assert_eq!(payout_count(&vec![(a, 5), (a, 2), (a, -3)]), 2);
}

#[test]
fn protocol_income_is_listed_for_named_or_all_assets() {
    let mut pool = market();
    let user = AccountId::new(1, 1);
    assert!(pool.deposit(asset(1), user, 1000, 0).is_ok());
    assert!(pool.deposit(asset(3), user, 50, 0).is_ok());
    let balances = vec![1010, 5, 20];
    assert_eq!(
        pool.view_protocol_income(None, &balances),
        Ok(vec![(asset(1), 10), (asset(2), 5), (asset(3), -30)])
    );
    assert_eq!(
        pool.view_protocol_income(Some(vec![asset(3), asset(1), asset(3)]), &balances),
        Ok(vec![(asset(3), -30), (asset(1), 10), (asset(3), -30)])
    );
    assert_eq!(pool.view_protocol_income(Some(vec![]), &balances), Ok(vec![]));
    assert_eq!(
        pool.view_protocol_income(Some(vec![asset(1), asset(4)]), &balances),
        Err(LendingPoolError::AssetNotRegistered)
    );
    assert_eq!(
        pool.view_protocol_income(None, &vec![]),
        Ok(vec![(asset(1), -1000), (asset(2), 0), (asset(3), -50)])
    );
}

#[test]
fn only_the_treasury_takes_the_income() {
    let mut pool = market();
    let user = AccountId::new(1, 1);
    assert!(pool.deposit(asset(3), user, 50, 0).is_ok());
    let balances = vec![10, 5, 20];
    assert_eq!(
        pool.take_protocol_income(&vec![TREASURY], None, &balances),
        Ok((vec![(asset(1), 10), (asset(2), 5), (asset(3), -30)], 2))
    );
    assert_eq!(
        pool.take_protocol_income(&vec![TREASURY], Some(vec![asset(3), asset(1)]), &balances),
        Ok((vec![(asset(3), -30), (asset(1), 10)], 0))
    );
    assert_eq!(
        pool.take_protocol_income(&vec![GLOBAL_ADMIN], None, &balances),
        Err(LendingPoolError::AccessControlError(AccessControlError::MissingRole))
    );
    assert_eq!(
        pool.take_protocol_income(&vec![TREASURY], Some(vec![asset(9)]), &balances),
        Err(LendingPoolError::AssetNotRegistered)
    );
}
