//! What the pool shows of itself: reserves, positions, the solvency of a
//! user, and the income of the protocol.

use crate::account::{AccountId, Timestamp};
use crate::collateral::{free_collateral, free_collateral_spec, price_at};
use crate::errors::{lift, AccessControlError, LendingPoolError};
use crate::fixed::MathError;
use crate::manage::{has_role, RoleType, TREASURY};
use crate::pool::{LendingPool, PoolView};
use crate::position::UserReserveData;
use crate::records::{lifted, signed_spec};
use crate::reserve::ReserveData;
use crate::wide::Wide;
use vstd::prelude::*;

verus! {

/// The amount that the pool holds of the asset of reserve `id`, where
/// `balances` names one; nothing otherwise.
pub open spec fn balance_at(balances: Seq<u128>, id: int) -> u128 {
    if 0 <= id < balances.len() {
        balances[id]
    } else {
        0
    }
}

/// The income of the protocol in one reserve: what the pool holds and what
/// is owed to it, less what it owes to the suppliers.
pub open spec fn protocol_income_spec(reserve: ReserveData, balance: u128) -> Result<
    i128,
    MathError,
> {
    signed_spec(balance + reserve.total_debt() - reserve.total_supplied)
}

/// The income of the protocol in the first `upto` of `assets`; the first
/// asset that is not listed, or whose income has no value, decides the error.
pub open spec fn protocol_incomes_spec(
    pool: PoolView,
    assets: Seq<AccountId>,
    balances: Seq<u128>,
    upto: nat,
) -> Result<Seq<(AccountId, i128)>, LendingPoolError>
    decreases upto,
{
    if upto == 0 || upto > assets.len() {
        Ok(Seq::empty())
    } else {
        let asset = assets[upto - 1];
        match protocol_incomes_spec(pool, assets, balances, (upto - 1) as nat) {
            Err(e) => Err(e),
            Ok(before) => match pool.asset_id(asset) {
                None => Err(LendingPoolError::AssetNotRegistered),
                Some(id) => match lift(
                    protocol_income_spec(pool.reserves[id], balance_at(balances, id)),
                ) {
                    Err(e) => Err(e),
                    Ok(income) => Ok(before.push((asset, income))),
                },
            },
        }
    }
}

/// Whether `count` is the number of incomes at the head of `incomes` that are
/// positive: those are paid out, and the first income that is not ends the
/// payout.
pub open spec fn is_payout_count(incomes: Seq<(AccountId, i128)>, count: int) -> bool {
    &&& 0 <= count <= incomes.len()
    &&& forall|i: int| 0 <= i < count ==> (#[trigger] incomes[i]).1 > 0
    &&& count < incomes.len() ==> incomes[count].1 <= 0
}

/// An error met at one asset is the error of every listing that goes
/// further.
pub proof fn lemma_income_error_stays(
    pool: PoolView,
    assets: Seq<AccountId>,
    balances: Seq<u128>,
    at: nat,
    upto: nat,
)
    requires
        at <= upto <= assets.len(),
        protocol_incomes_spec(pool, assets, balances, at) is Err,
    ensures
        protocol_incomes_spec(pool, assets, balances, upto) == protocol_incomes_spec(
            pool,
            assets,
            balances,
            at,
        ),
    decreases upto,
{
    if at < upto {
        lemma_income_error_stays(pool, assets, balances, at, (upto - 1) as nat);
    }
}

/// Computes the income of the protocol in one reserve.
pub fn protocol_income(reserve: &ReserveData, balance: u128) -> (r: Result<i128, MathError>)
    ensures
        r == protocol_income_spec(*reserve, balance),
{
    let top: u128 = 0x7fff_ffff_ffff_ffff_ffff_ffff_ffff_ffff;
    let held = Wide::from_u128(balance);
    let variable = Wide::from_u128(reserve.total_variable_borrowed);
    let stable = Wide::from_u128(reserve.sum_stable_debt);
    let owed = Wide::from_u128(reserve.total_supplied);
    let assets = match held.checked_add(&variable) {
        Some(sum) => match sum.checked_add(&stable) {
            Some(sum) => sum,
            None => {
                return Err(MathError::Overflow);
            },
        },
        None => {
            return Err(MathError::Overflow);
        },
    };
    if assets.lt(&owed) {
        match owed.checked_sub(&assets) {
            Some(gap) => match gap.to_u128() {
                Some(d) => {
                    if d > top + 1 {
                        Err(MathError::Underflow)
                    } else if d == top + 1 {
                        Ok(i128::MIN)
                    } else {
                        Ok(-(d as i128))
                    }
                },
                None => Err(MathError::Underflow),
            },
            None => Err(MathError::Underflow),
        }
    } else {
        match assets.checked_sub(&owed) {
            Some(gain) => match gain.to_u128() {
                Some(d) => {
                    if d > top {
                        Err(MathError::Overflow)
                    } else {
                        Ok(d as i128)
                    }
                },
                None => Err(MathError::Overflow),
            },
            None => Err(MathError::Overflow),
        }
    }
}

/// Counts the incomes at the head of `incomes` that are to be paid out.
pub fn payout_count(incomes: &Vec<(AccountId, i128)>) -> (count: usize)
    ensures
        is_payout_count(incomes@, count as int),
{
    let mut count: usize = 0;
    while count < incomes.len() && incomes[count].1 > 0
        invariant
            count <= incomes.len(),
            forall|i: int| 0 <= i < count ==> (#[trigger] incomes@[i]).1 > 0,
        decreases incomes.len() - count,
    {
        count = count + 1;
    }
    count
}

impl PoolView {
    /// The reserve of `asset`, if the asset is listed.
    pub open spec fn reserve_of(self, asset: AccountId) -> Option<ReserveData> {
        match self.asset_id(asset) {
            Some(id) => Some(self.reserves[id]),
            None => None,
        }
    }

    /// The position of `user` in the reserve of `asset`, if the asset is
    /// listed and a position was opened for the user.
    pub open spec fn position_of(self, asset: AccountId, user: AccountId) -> Option<
        UserReserveData,
    > {
        match self.asset_id(asset) {
            Some(id) => if self.has_position(id, user) {
                Some(self.records(id, user).position)
            } else {
                None
            },
            None => None,
        }
    }

    /// Whether the collateral of `user` covers the debt at time `now`, and
    /// the free collateral or the deficit.
    pub open spec fn free_collateral_coefficient(
        self,
        user: AccountId,
        prices: Seq<Option<u128>>,
        now: Timestamp,
    ) -> Result<(bool, u128), LendingPoolError> {
        match self.values(user, prices, now) {
            Ok(values) => Ok(free_collateral_spec(values)),
            Err(e) => Err(e),
        }
    }

    /// The income of the protocol in each of `assets`, or in every listed
    /// asset where none are named.
    pub open spec fn protocol_income(self, assets: Option<Seq<AccountId>>, balances: Seq<u128>) -> Result<
        Seq<(AccountId, i128)>,
        LendingPoolError,
    > {
        match assets {
            Some(named) => protocol_incomes_spec(self, named, balances, named.len()),
            None => protocol_incomes_spec(self, self.assets, balances, self.assets.len()),
        }
    }
}

impl LendingPool {
    /// The reserve of `asset`.
    pub fn view_reserve_data(&self, asset: AccountId) -> (reserve: Option<ReserveData>)
        requires
            self.wf(),
        ensures
            reserve == self@.reserve_of(asset),
    {
        match self.reserve_id(&asset) {
            Some(id) => Some(self.reserve_at(id)),
            None => None,
        }
    }

    /// The position of `user` in the reserve of `asset`, as of its last
    /// reconciliation.
    pub fn view_user_reserve_data(&self, asset: AccountId, user: AccountId) -> (position: Option<
        UserReserveData,
    >)
        requires
            self.wf(),
        ensures
            position == self@.position_of(asset, user),
    {
        match self.reserve_id(&asset) {
            Some(id) => {
                if self.has_position(id, &user) {
                    Some(self.pull(id, &user).position)
                } else {
                    None
                }
            },
            None => None,
        }
    }

    /// Tells whether the collateral of `user_address` covers the debt at time
    /// `now`, and the free collateral or the deficit.
    pub fn get_user_free_collateral_coefficient(
        &self,
        user_address: AccountId,
        prices: &Vec<Option<u128>>,
        now: Timestamp,
    ) -> (r: Result<(bool, u128), LendingPoolError>)
        requires
            self.wf(),
        ensures
            r == self@.free_collateral_coefficient(user_address, prices@, now),
    {
        let values = self.user_values(user_address, prices, now)?;
        Ok(free_collateral(&values))
    }

    /// The price of `reserve_token_address` among the prices that the oracle
    /// gave, by reserve id.
    pub fn get_reserve_token_price_e8(
        &self,
        reserve_token_address: AccountId,
        prices: &Vec<Option<u128>>,
    ) -> (price: Option<u128>)
        requires
            self.wf(),
        ensures
            price == (match self@.asset_id(reserve_token_address) {
                Some(id) => price_at(prices@, id),
                None => None,
            }),
    {
        match self.reserve_id(&reserve_token_address) {
            Some(id) => {
                if id < prices.len() {
                    prices[id]
                } else {
                    None
                }
            },
            None => None,
        }
    }

    fn incomes_of(&self, assets: &Vec<AccountId>, balances: &Vec<u128>) -> (r: Result<
        Vec<(AccountId, i128)>,
        LendingPoolError,
    >)
        requires
            self.wf(),
        ensures
            match protocol_incomes_spec(self@, assets@, balances@, assets@.len()) {
                Ok(incomes) => r is Ok && r->Ok_0@ == incomes,
                Err(e) => r == Err::<Vec<(AccountId, i128)>, LendingPoolError>(e),
            },
    {
        let mut incomes: Vec<(AccountId, i128)> = Vec::new();
        let mut i: usize = 0;
        while i < assets.len()
            invariant
                self.wf(),
                i <= assets.len(),
                protocol_incomes_spec(self@, assets@, balances@, i as nat) == Ok::<
                    Seq<(AccountId, i128)>,
                    LendingPoolError,
                >(incomes@),
            decreases assets.len() - i,
        {
            let asset = assets[i];
            let step: Result<i128, LendingPoolError> = match self.reserve_id(&asset) {
                None => Err(LendingPoolError::AssetNotRegistered),
                Some(id) => {
                    let balance: u128 = if id < balances.len() {
                        balances[id]
                    } else {
                        0
                    };
                    lifted(protocol_income(&self.reserve_at(id), balance))
                },
            };
            match step {
                Ok(income) => {
                    incomes.push((asset, income));
                },
                Err(e) => {
                    proof {
                        lemma_income_error_stays(
                            self@,
                            assets@,
                            balances@,
                            (i + 1) as nat,
                            assets@.len(),
                        );
                    }
                    return Err(e);
                },
            }
            i = i + 1;
        }
        Ok(incomes)
    }

    /// The income of the protocol in each of `assets`, or in every listed
    /// asset where none are named. `balances` holds, by reserve id, what the
    /// pool holds of each asset.
    pub fn view_protocol_income(&self, assets: Option<Vec<AccountId>>, balances: &Vec<u128>) -> (r:
        Result<Vec<(AccountId, i128)>, LendingPoolError>)
        requires
            self.wf(),
        ensures
            match self@.protocol_income(
                match assets {
                    Some(named) => Some(named@),
                    None => None,
                },
                balances@,
            ) {
                Ok(incomes) => r is Ok && r->Ok_0@ == incomes,
                Err(e) => r == Err::<Vec<(AccountId, i128)>, LendingPoolError>(e),
            },
    {
        match assets {
            Some(named) => self.incomes_of(&named, balances),
            None => {
                let listed = self.view_registered_assets();
                self.incomes_of(&listed, balances)
            },
        }
    }

    /// The income of the protocol as `view_protocol_income` gives it, for the
    /// treasury to take, and the number of incomes at its head that are to be
    /// paid out. The caller has to hold the treasury's role.
    pub fn take_protocol_income(
        &self,
        roles: &Vec<RoleType>,
        assets: Option<Vec<AccountId>>,
        balances: &Vec<u128>,
    ) -> (r: Result<(Vec<(AccountId, i128)>, usize), LendingPoolError>)
        requires
            self.wf(),
        ensures
            !roles@.contains(TREASURY) ==> r == Err::<
                (Vec<(AccountId, i128)>, usize),
                LendingPoolError,
            >(LendingPoolError::AccessControlError(AccessControlError::MissingRole)),
            roles@.contains(TREASURY) ==> match self@.protocol_income(
                match assets {
                    Some(named) => Some(named@),
                    None => None,
                },
                balances@,
            ) {
                Ok(incomes) => r is Ok && r->Ok_0.0@ == incomes && is_payout_count(
                    incomes,
                    r->Ok_0.1 as int,
                ),
                Err(e) => r == Err::<(Vec<(AccountId, i128)>, usize), LendingPoolError>(e),
            },
    {
        if !has_role(roles, TREASURY) {
            return Err(LendingPoolError::AccessControlError(AccessControlError::MissingRole));
        }
        let incomes = self.view_protocol_income(assets, balances)?;
        let count = payout_count(&incomes);
        Ok((incomes, count))
    }
}

} // verus!
