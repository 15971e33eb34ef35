//! The pool: the one store that owns every reserve, market rule, user
//! configuration and user position, with its mathematical view.

use crate::account::{AccountId, Timestamp};
use crate::bitset::{ReserveSet, MAX_RESERVES};
use crate::collateral::{
    check_user_free_collateral, guard_spec, position_at, user_values, user_values_spec, Values,
};
use crate::config::{get_rule_entry, rule_entry, AssetRules, MarketRule, RuleId, UserConfig};
use crate::errors::LendingPoolError;
use crate::position::UserReserveData;
use crate::records::{bits_match, keeps_membership, Records};
use crate::reserve::ReserveData;
use crate::table::{find, index_of, lemma_find_after_push, Table};
use vstd::prelude::*;

verus! {

/// `positions` with the position in reserve `id` replaced by `position`;
/// reserves up to `id` that had no position get an untouched one.
pub open spec fn put_position(positions: Seq<UserReserveData>, id: int, position: UserReserveData) -> Seq<
    UserReserveData,
> {
    Seq::new(
        if id < positions.len() {
            positions.len()
        } else {
            (id + 1) as nat
        },
        |i: int|
            if i == id {
                position
            } else {
                position_at(positions, i)
            },
    )
}

/// `rule` with the entry of reserve `id` replaced by `entry`; reserves up to
/// `id` that had no place in the rule get an empty one.
pub open spec fn put_entry(rule: Seq<Option<AssetRules>>, id: int, entry: Option<AssetRules>) -> Seq<
    Option<AssetRules>,
> {
    Seq::new(
        if id < rule.len() {
            rule.len()
        } else {
            (id + 1) as nat
        },
        |i: int|
            if i == id {
                entry
            } else {
                rule_entry(rule, i)
            },
    )
}

/// What the pool holds of one user.
pub struct UserView {
    pub config: UserConfig,
    /// The positions of the user, by reserve id.
    pub positions: Seq<UserReserveData>,
    /// The reserves in which a position was opened for the user. A position
    /// stays open when its balances return to zero.
    pub opened: ReserveSet,
}

impl UserView {
    /// A user of whom the pool has no record.
    pub open spec fn unknown() -> UserView {
        UserView {
            config: UserConfig::empty(),
            positions: Seq::empty(),
            opened: ReserveSet { bits: 0 },
        }
    }

    /// Whether the membership sets agree with the balances in every reserve,
    /// and a position that was never opened holds nothing.
    pub open spec fn consistent(self) -> bool {
        &&& forall|id: int| #[trigger] bits_match(self.config, position_at(self.positions, id), id)
        &&& forall|id: int|
            !(#[trigger] self.opened@.contains(id)) ==> position_at(self.positions, id)
                == UserReserveData::empty()
    }
}

/// The pool as a mathematical value.
pub struct PoolView {
    /// The listed assets; the position of an asset is the id of its reserve.
    pub assets: Seq<AccountId>,
    /// The reserves, by id.
    pub reserves: Seq<ReserveData>,
    /// The market rules, by rule id.
    pub rules: Seq<Seq<Option<AssetRules>>>,
    /// The users that have a record.
    pub users: Map<AccountId, UserView>,
    /// The clock collaborator.
    pub block_timestamp_provider: AccountId,
}

impl PoolView {
    /// The id of the reserve of `asset`, if the asset is listed.
    pub open spec fn asset_id(self, asset: AccountId) -> Option<int> {
        find(self.assets, asset)
    }

    /// What the pool holds of `user`.
    pub open spec fn user(self, user: AccountId) -> UserView {
        if self.users.contains_key(user) {
            self.users[user]
        } else {
            UserView::unknown()
        }
    }

    /// The market rule `rule_id`; a rule that was never added has no entries.
    pub open spec fn rule(self, rule_id: RuleId) -> Seq<Option<AssetRules>> {
        if rule_id < self.rules.len() {
            self.rules[rule_id as int]
        } else {
            Seq::empty()
        }
    }

    /// The records that an action of `user` on reserve `id` touches.
    pub open spec fn records(self, id: int, user: AccountId) -> Records {
        Records {
            reserve: self.reserves[id],
            position: position_at(self.user(user).positions, id),
            config: self.user(user).config,
        }
    }

    /// Whether the pool has a record of `user`: the user's configuration.
    pub open spec fn has_account(self, user: AccountId) -> bool {
        self.users.contains_key(user)
    }

    /// Whether a position in reserve `id` was opened for `user`.
    pub open spec fn has_position(self, id: int, user: AccountId) -> bool {
        self.users.contains_key(user) && self.users[user].opened@.contains(id)
    }

    /// The entry of reserve `id` in the market rule of `user`.
    pub open spec fn entry(self, id: int, user: AccountId) -> Option<AssetRules> {
        rule_entry(self.rule(self.user(user).config.market_rule_id), id)
    }

    /// The pool with the records of `user` in reserve `id` replaced; the
    /// position counts as opened from then on.
    pub open spec fn with_records(self, id: int, user: AccountId, records: Records) -> PoolView {
        PoolView {
            reserves: self.reserves.update(id, records.reserve),
            users: self.users.insert(
                user,
                UserView {
                    config: records.config,
                    positions: put_position(self.user(user).positions, id, records.position),
                    opened: self.user(user).opened.inserted(records.reserve.id),
                },
            ),
            ..self
        }
    }

    /// The collateral value and the debt value of `user` at time `now`.
    pub open spec fn values(self, user: AccountId, prices: Seq<Option<u128>>, now: Timestamp) -> Result<
        Values,
        LendingPoolError,
    > {
        user_values_spec(
            self.reserves,
            self.user(user).positions,
            self.user(user).config,
            self.rule(self.user(user).config.market_rule_id),
            prices,
            now,
            self.reserves.len(),
        )
    }

    /// The solvency guard: the values of `user` can be computed and the
    /// collateral covers the debt.
    pub open spec fn guard(self, user: AccountId, prices: Seq<Option<u128>>, now: Timestamp) -> Result<
        (),
        LendingPoolError,
    > {
        guard_spec(
            self.reserves,
            self.user(user).positions,
            self.user(user).config,
            self.rule(self.user(user).config.market_rule_id),
            prices,
            now,
        )
    }

    /// Whether the collateral of `user` covers the debt at time `now`.
    pub open spec fn collateralized(
        self,
        user: AccountId,
        prices: Seq<Option<u128>>,
        now: Timestamp,
    ) -> bool {
        self.guard(user, prices, now) is Ok
    }

    /// The pool after `user` chose the market rule `market_rule_id`: the rule
    /// exists, and the choice stands only if the collateral of the user
    /// covers the debt under the new rule.
    pub open spec fn choose_market_rule(
        self,
        user: AccountId,
        market_rule_id: RuleId,
        prices: Seq<Option<u128>>,
        now: Timestamp,
    ) -> Result<PoolView, LendingPoolError> {
        if market_rule_id >= self.rules.len() {
            Err(LendingPoolError::MarketRuleInvalidId)
        } else {
            let next = PoolView {
                users: self.users.insert(
                    user,
                    UserView {
                        config: UserConfig { market_rule_id, ..self.user(user).config },
                        ..self.user(user)
                    },
                ),
                ..self
            };
            match next.guard(user, prices, now) {
                Err(e) => Err(e),
                Ok(()) => Ok(next),
            }
        }
    }

    /// The pool after the records of `user` in reserve `id` were rewritten by
    /// a transition with outcome `step`; where the action is `guarded`, the
    /// change stands only if the solvency guard holds of the user afterwards.
    pub open spec fn applied<T>(
        self,
        id: int,
        user: AccountId,
        step: Result<(Records, T), LendingPoolError>,
        guarded: bool,
        prices: Seq<Option<u128>>,
        now: Timestamp,
    ) -> Result<(PoolView, T), LendingPoolError> {
        match step {
            Err(e) => Err(e),
            Ok((records, receipt)) => {
                let next = self.with_records(id, user, records);
                if guarded {
                    match next.guard(user, prices, now) {
                        Err(e) => Err(e),
                        Ok(()) => Ok((next, receipt)),
                    }
                } else {
                    Ok((next, receipt))
                }
            },
        }
    }

    /// The invariant of the pool: every listed asset has one reserve, whose id
    /// is its position; the default market rule exists; and for every user
    /// the membership sets agree with the balances.
    pub open spec fn wf(self) -> bool {
        &&& self.assets.len() == self.reserves.len()
        &&& self.assets.len() <= MAX_RESERVES
        &&& self.assets.no_duplicates()
        &&& forall|id: int| 0 <= id < self.reserves.len() ==> #[trigger] self.reserves[id].id == id
        &&& self.rules.len() >= 1
        &&& self.rules.len() <= u32::MAX
        &&& forall|user: AccountId| #[trigger]
            self.users.contains_key(user) ==> {
                &&& self.users[user].consistent()
                &&& self.users[user].positions.len() <= self.reserves.len()
            }
    }
}

/// What the pool stores of one user.
#[derive(Clone, Debug)]
pub struct UserAccount {
    pub config: UserConfig,
    pub positions: Vec<UserReserveData>,
    pub opened: ReserveSet,
}

impl View for UserAccount {
    type V = UserView;

    open spec fn view(&self) -> UserView {
        UserView { config: self.config, positions: self.positions@, opened: self.opened }
    }
}

/// The lending pool.
#[derive(Clone, Debug)]
pub struct LendingPool {
    assets: Vec<AccountId>,
    reserves: Vec<ReserveData>,
    rules: Vec<MarketRule>,
    users: Table<UserAccount>,
    block_timestamp_provider: AccountId,
}

impl View for LendingPool {
    type V = PoolView;

    closed spec fn view(&self) -> PoolView {
        PoolView {
            assets: self.assets@,
            reserves: self.reserves@,
            rules: Seq::new(self.rules@.len(), |i: int| self.rules@[i]@),
            users: self.users@.map_values(|account: UserAccount| account@),
            block_timestamp_provider: self.block_timestamp_provider,
        }
    }
}

/// A copy of `items`.
pub fn copy_of<T: Copy>(items: &Vec<T>) -> (out: Vec<T>)
    ensures
        out@ == items@,
{
    let mut out: Vec<T> = Vec::new();
    let mut i: usize = 0;
    while i < items.len()
        invariant
            i <= items.len(),
            out@ == items@.take(i as int),
        decreases items.len() - i,
    {
        out.push(items[i]);
        proof {
            assert(out@ =~= items@.take(i + 1));
        }
        i = i + 1;
    }
    proof {
        assert(out@ =~= items@);
    }
    out
}

/// A copy of `items` in which place `at` holds `value`; places up to `at`
/// that `items` does not have hold `filler`.
pub fn copy_with<T: Copy>(items: &Vec<T>, at: usize, value: T, filler: T) -> (out: Vec<T>)
    requires
        at < usize::MAX,
    ensures
        out@ == Seq::new(
            if at < items.len() {
                items@.len()
            } else {
                (at + 1) as nat
            },
            |i: int|
                if i == at {
                    value
                } else if 0 <= i < items.len() {
                    items@[i]
                } else {
                    filler
                },
        ),
{
    let n: usize = if at < items.len() {
        items.len()
    } else {
        at + 1
    };
    let mut out: Vec<T> = Vec::new();
    let mut i: usize = 0;
    while i < n
        invariant
            i <= n,
            n == (if at < items.len() {
                items.len()
            } else {
                (at + 1) as usize
            }),
            out@.len() == i,
            forall|j: int|
                0 <= j < i ==> out@[j] == (if j == at {
                    value
                } else if j < items.len() {
                    items@[j]
                } else {
                    filler
                }),
        decreases n - i,
    {
        let item: T = if i == at {
            value
        } else if i < items.len() {
            items[i]
        } else {
            filler
        };
        out.push(item);
        i = i + 1;
    }
    out
}

impl LendingPool {
    /// The invariant of the pool and of its storage.
    pub closed spec fn wf(&self) -> bool {
        &&& self@.wf()
        &&& self.users.wf()
    }

    /// A well-formed pool has a well-formed view.
    pub proof fn lemma_wf(&self)
        requires
            self.wf(),
        ensures
            self@.wf(),
    {
    }

    /// A pool without assets and users, with an empty default market rule.
    pub fn new(block_timestamp_provider: AccountId) -> (pool: LendingPool)
        ensures
            pool.wf(),
            pool@ == (PoolView {
                assets: Seq::empty(),
                reserves: Seq::empty(),
                rules: seq![Seq::empty()],
                users: Map::empty(),
                block_timestamp_provider,
            }),
    {
        let mut rules: Vec<MarketRule> = Vec::new();
        rules.push(Vec::new());
        let pool = LendingPool {
            assets: Vec::new(),
            reserves: Vec::new(),
            rules,
            users: Table::new(),
            block_timestamp_provider,
        };
        proof {
            assert(pool@.rules =~= seq![Seq::empty()]);
            assert(pool@.users =~= Map::empty());
        }
        pool
    }

    /// The number of listed assets.
    pub fn reserve_count(&self) -> (n: usize)
        requires
            self.wf(),
        ensures
            n == self@.reserves.len(),
            n == self@.assets.len(),
            n <= MAX_RESERVES,
    {
        self.reserves.len()
    }

    /// The number of market rules.
    pub fn rule_count(&self) -> (n: usize)
        requires
            self.wf(),
        ensures
            n == self@.rules.len(),
            1 <= n <= u32::MAX,
    {
        self.rules.len()
    }

    /// The id of the reserve of `asset`.
    pub fn reserve_id(&self, asset: &AccountId) -> (r: Option<usize>)
        requires
            self.wf(),
        ensures
            match r {
                Some(id) => self@.asset_id(*asset) == Some(id as int) && id < self@.reserves.len(),
                None => self@.asset_id(*asset) is None,
            },
    {
        index_of(&self.assets, asset)
    }

    /// The reserve with the given id.
    pub fn reserve_at(&self, id: usize) -> (reserve: ReserveData)
        requires
            self.wf(),
            id < self@.reserves.len(),
        ensures
            reserve == self@.reserves[id as int],
            reserve.id == id,
    {
        self.reserves[id]
    }

    /// The listed assets, in the order of their reserve ids.
    pub fn view_registered_assets(&self) -> (assets: Vec<AccountId>)
        ensures
            assets@ == self@.assets,
    {
        copy_of(&self.assets)
    }

    /// The configuration of `user`.
    pub fn view_user_config(&self, user: AccountId) -> (config: UserConfig)
        requires
            self.wf(),
        ensures
            config == self@.user(user).config,
    {
        match self.users.get(&user) {
            Some(account) => account.config,
            None => UserConfig::new(),
        }
    }

    /// The market rule with the given id, if it was added.
    pub fn view_market_rule(&self, market_rule_id: RuleId) -> (rule: Option<MarketRule>)
        requires
            self.wf(),
        ensures
            match rule {
                Some(entries) => market_rule_id < self@.rules.len() && entries@
                    == self@.rules[market_rule_id as int],
                None => market_rule_id >= self@.rules.len(),
            },
    {
        if (market_rule_id as usize) < self.rules.len() {
            Some(copy_of(&self.rules[market_rule_id as usize]))
        } else {
            None
        }
    }

    /// The clock collaborator.
    pub fn get_block_timestamp_provider_address(&self) -> (provider: AccountId)
        ensures
            provider == self@.block_timestamp_provider,
    {
        self.block_timestamp_provider
    }

    /// The market rule `rule_id`, or `none` where it was never added.
    fn rule_or<'a>(&'a self, rule_id: RuleId, none: &'a MarketRule) -> (rule: &'a MarketRule)
        requires
            none@.len() == 0,
        ensures
            rule@ == self@.rule(rule_id),
    {
        if (rule_id as usize) < self.rules.len() {
            &self.rules[rule_id as usize]
        } else {
            proof {
                assert(none@ =~= Seq::<Option<AssetRules>>::empty());
            }
            none
        }
    }

    /// Computes the collateral value and the debt value of `user` at time
    /// `now`.
    pub fn user_values(&self, user: AccountId, prices: &Vec<Option<u128>>, now: Timestamp) -> (r:
        Result<Values, LendingPoolError>)
        requires
            self.wf(),
        ensures
            r == self@.values(user, prices@, now),
    {
        let no_rule: MarketRule = Vec::new();
        match self.users.get(&user) {
            Some(account) => user_values(
                &self.reserves,
                &account.positions,
                &account.config,
                self.rule_or(account.config.market_rule_id, &no_rule),
                prices,
                now,
            ),
            None => {
                let no_positions: Vec<UserReserveData> = Vec::new();
                proof {
                    assert(no_positions@ =~= Seq::<UserReserveData>::empty());
                }
                user_values(
                    &self.reserves,
                    &no_positions,
                    &UserConfig::new(),
                    self.rule_or(0, &no_rule),
                    prices,
                    now,
                )
            },
        }
    }

    /// Whether the pool has a record of `user`.
    pub fn has_account(&self, user: &AccountId) -> (b: bool)
        requires
            self.wf(),
        ensures
            b == self@.has_account(*user),
    {
        self.users.get(user).is_some()
    }

    /// Whether a position in reserve `id` was opened for `user`.
    pub fn has_position(&self, id: usize, user: &AccountId) -> (b: bool)
        requires
            self.wf(),
            id < self@.reserves.len(),
        ensures
            b == self@.has_position(id as int, *user),
    {
        match self.users.get(user) {
            Some(account) => account.opened.contains(id as u32),
            None => false,
        }
    }

    /// Loads the records that an action of `user` on reserve `id` touches.
    pub(crate) fn pull(&self, id: usize, user: &AccountId) -> (records: Records)
        requires
            self.wf(),
            id < self@.reserves.len(),
        ensures
            records == self@.records(id as int, *user),
            records.wf(),
            records.reserve.id == id,
            bits_match(records.config, records.position, id as int),
    {
        proof {
            ReserveSet::lemma_zero_is_empty();
            assert(self@.reserves[id as int].id == id);
        }
        match self.users.get(user) {
            Some(account) => {
                proof {
                    assert(self@.users.contains_key(*user));
                    assert(self@.users[*user].consistent());
                    assert(bits_match(
                        account.config,
                        position_at(account.positions@, id as int),
                        id as int,
                    ));
                }
                let position = if id < account.positions.len() {
                    account.positions[id]
                } else {
                    UserReserveData::new()
                };
                Records { reserve: self.reserves[id], position, config: account.config }
            },
            None => Records {
                reserve: self.reserves[id],
                position: UserReserveData::new(),
                config: UserConfig::new(),
            },
        }
    }

    /// Reads the entry of reserve `id` in the market rule `rule_id`.
    pub(crate) fn rule_entry_of(&self, rule_id: RuleId, id: usize) -> (entry: Option<AssetRules>)
        requires
            self.wf(),
            id < MAX_RESERVES,
        ensures
            entry == rule_entry(self@.rule(rule_id), id as int),
    {
        if (rule_id as usize) < self.rules.len() {
            get_rule_entry(&self.rules[rule_id as usize], id as u32)
        } else {
            None
        }
    }

    /// Checks the solvency guard, where the action is guarded, on the pool as
    /// it would be with the records of `user` in reserve `id` rewritten, and
    /// hands back the reserves and the positions of the user that are to be
    /// stored.
    pub(crate) fn prepare(
        &self,
        id: usize,
        user: AccountId,
        records: &Records,
        guarded: bool,
        prices: &Vec<Option<u128>>,
        now: Timestamp,
    ) -> (r: Result<(Vec<ReserveData>, Vec<UserReserveData>), LendingPoolError>)
        requires
            self.wf(),
            id < self@.reserves.len(),
        ensures
            match r {
                Ok((reserves, positions)) => {
                    &&& reserves@ == self@.reserves.update(id as int, records.reserve)
                    &&& positions@ == put_position(
                        self@.user(user).positions,
                        id as int,
                        records.position,
                    )
                    &&& guarded ==> self@.with_records(id as int, user, *records).guard(
                        user,
                        prices@,
                        now,
                    ) is Ok
                },
                Err(e) => guarded && self@.with_records(id as int, user, *records).guard(
                    user,
                    prices@,
                    now,
                ) == Err::<(), LendingPoolError>(e),
            },
    {
        let reserves = copy_with(&self.reserves, id, records.reserve, records.reserve);
        let positions = match self.users.get(&user) {
            Some(account) => copy_with(
                &account.positions,
                id,
                records.position,
                UserReserveData::new(),
            ),
            None => copy_with(&Vec::new(), id, records.position, UserReserveData::new()),
        };
        proof {
            assert(reserves@ =~= self@.reserves.update(id as int, records.reserve));
            assert(positions@ =~= put_position(
                self@.user(user).positions,
                id as int,
                records.position,
            ));
            let next = self@.with_records(id as int, user, *records);
            assert(next.users.contains_key(user));
            assert(next.user(user).positions == positions@);
            assert(next.rule(records.config.market_rule_id) == self@.rule(
                records.config.market_rule_id,
            ));
        }
        if guarded {
            let no_rule: MarketRule = Vec::new();
            check_user_free_collateral(
                &reserves,
                &positions,
                &records.config,
                self.rule_or(records.config.market_rule_id, &no_rule),
                prices,
                now,
            )?;
        }
        Ok((reserves, positions))
    }

    /// Makes `account` the record of `user`.
    fn store_account(&mut self, user: AccountId, account: UserAccount)
        requires
            old(self).wf(),
            account@.consistent(),
            account@.positions.len() <= old(self)@.reserves.len(),
        ensures
            final(self).wf(),
            final(self)@ == (PoolView {
                users: old(self)@.users.insert(user, account@),
                ..old(self)@
            }),
    {
        let ghost before = *self;
        self.users.insert(user, account);
        proof {
            assert(self@.users =~= before@.users.insert(user, account@));
            assert(self@.rules =~= before@.rules);
            assert forall|other: AccountId| #[trigger] self@.users.contains_key(other) implies {
                &&& self@.users[other].consistent()
                &&& self@.users[other].positions.len() <= self@.reserves.len()
            } by {
                if other != user {
                    assert(before@.users.contains_key(other));
                }
            }
        }
    }

    /// Stores the rewritten records of `user` in reserve `id`.
    pub(crate) fn commit(
        &mut self,
        id: usize,
        user: AccountId,
        records: &Records,
        reserves: Vec<ReserveData>,
        positions: Vec<UserReserveData>,
    )
        requires
            old(self).wf(),
            id < old(self)@.reserves.len(),
            keeps_membership(old(self)@.records(id as int, user), *records),
            reserves@ == old(self)@.reserves.update(id as int, records.reserve),
            positions@ == put_position(old(self)@.user(user).positions, id as int, records.position),
        ensures
            final(self).wf(),
            final(self)@ == old(self)@.with_records(id as int, user, *records),
    {
        let ghost before = *self;
        let mut opened = match self.users.get(&user) {
            Some(account) => account.opened,
            None => ReserveSet::empty(),
        };
        proof {
            assert(before@.reserves[id as int].id == id);
            assert(opened == before@.user(user).opened);
        }
        opened.insert(records.reserve.id);
        let account = UserAccount { config: records.config, positions, opened };
        proof {
            ReserveSet::lemma_zero_is_empty();
            if before@.users.contains_key(user) {
                assert(before@.users[user].consistent());
            }
            assert(bits_match(
                before@.user(user).config,
                position_at(before@.user(user).positions, id as int),
                id as int,
            ));
            assert(account@.consistent()) by {
                assert forall|j: int| #[trigger]
                    bits_match(account@.config, position_at(account@.positions, j), j) by {
                    if j != id {
                        assert(position_at(account@.positions, j) == position_at(
                            before@.user(user).positions,
                            j,
                        ));
                        assert(bits_match(
                            before@.user(user).config,
                            position_at(before@.user(user).positions, j),
                            j,
                        ));
                    }
                }
                assert forall|j: int| !(#[trigger] account@.opened@.contains(j)) implies position_at(
                    account@.positions,
                    j,
                ) == UserReserveData::empty() by {
                    assert(j != id);
                    assert(!before@.user(user).opened@.contains(j));
                    assert(position_at(account@.positions, j) == position_at(
                        before@.user(user).positions,
                        j,
                    ));
                }
            }
        }
        self.store_reserve(id, records.reserve);
        proof {
            assert(self@.reserves =~= reserves@);
        }
        self.store_account(user, account);
    }

    /// Brings the outcome of a transition on the records of `user` in
    /// reserve `id` into the pool: where the transition succeeded and, if the
    /// action is guarded, the solvency guard holds of the user afterwards, the
    /// records are stored; in every other case the pool stays as it was.
    pub(crate) fn apply<T>(
        &mut self,
        id: usize,
        user: AccountId,
        step: Result<(Records, T), LendingPoolError>,
        guarded: bool,
        prices: &Vec<Option<u128>>,
        now: Timestamp,
    ) -> (r: Result<T, LendingPoolError>)
        requires
            old(self).wf(),
            id < old(self)@.reserves.len(),
            step matches Ok((records, _)) ==> keeps_membership(
                old(self)@.records(id as int, user),
                records,
            ),
        ensures
            final(self).wf(),
            match old(self)@.applied(id as int, user, step, guarded, prices@, now) {
                Ok((view, done)) => r == Ok::<T, LendingPoolError>(done) && final(self)@ == view,
                Err(e) => r == Err::<T, LendingPoolError>(e) && final(self)@ == old(self)@,
            },
            guarded && r is Ok ==> final(self)@.collateralized(user, prices@, now),
    {
        let (records, done) = step?;
        let (reserves, positions) = self.prepare(id, user, &records, guarded, prices, now)?;
        self.commit(id, user, &records, reserves, positions);
        Ok(done)
    }

    /// Puts `caller` under the market rule `market_rule_id`. A choice after
    /// which the caller's collateral would not cover the debt is refused, and
    /// a refused choice leaves the pool as it was.
    pub fn choose_market_rule(
        &mut self,
        caller: AccountId,
        market_rule_id: RuleId,
        prices: &Vec<Option<u128>>,
        now: Timestamp,
    ) -> (r: Result<(), LendingPoolError>)
        requires
            old(self).wf(),
        ensures
            final(self).wf(),
            match old(self)@.choose_market_rule(caller, market_rule_id, prices@, now) {
                Ok(view) => r is Ok && final(self)@ == view,
                Err(e) => r == Err::<(), LendingPoolError>(e) && final(self)@ == old(self)@,
            },
            r is Ok ==> final(self)@.collateralized(caller, prices@, now),
            r is Err ==> final(self)@ == old(self)@,
    {
        if market_rule_id as usize >= self.rules.len() {
            return Err(LendingPoolError::MarketRuleInvalidId);
        }
        let (mut config, positions, opened) = match self.users.get(&caller) {
            Some(account) => (account.config, copy_of(&account.positions), account.opened),
            None => (UserConfig::new(), Vec::new(), ReserveSet::empty()),
        };
        config.market_rule_id = market_rule_id;
        let account = UserAccount { config, positions, opened };
        proof {
            ReserveSet::lemma_zero_is_empty();
            assert(account@.positions =~= self@.user(caller).positions);
            if self@.users.contains_key(caller) {
                assert(self@.users[caller].consistent());
            }
            assert(account@.opened == self@.user(caller).opened);
            assert(account@.consistent()) by {
                assert forall|j: int| #[trigger]
                    bits_match(config, position_at(account@.positions, j), j) by {
                    assert(bits_match(
                        self@.user(caller).config,
                        position_at(self@.user(caller).positions, j),
                        j,
                    ));
                }
            }
            let next = PoolView { users: self@.users.insert(caller, account@), ..self@ };
            assert(next.users.contains_key(caller));
            assert(next.rule(market_rule_id) == self@.rule(market_rule_id));
        }
        let no_rule: MarketRule = Vec::new();
        check_user_free_collateral(
            &self.reserves,
            &account.positions,
            &account.config,
            self.rule_or(market_rule_id, &no_rule),
            prices,
            now,
        )?;
        self.store_account(caller, account);
        Ok(())
    }

    /// Names the clock collaborator.
    pub fn set_block_timestamp_provider(&mut self, provider_address: AccountId) -> (r: Result<
        (),
        LendingPoolError,
    >)
        requires
            old(self).wf(),
        ensures
            r is Ok,
            final(self).wf(),
            final(self)@ == (PoolView {
                block_timestamp_provider: provider_address,
                ..old(self)@
            }),
    {
        let ghost before = *self;
        self.block_timestamp_provider = provider_address;
        proof {
            assert(self@.rules =~= before@.rules);
        }
        Ok(())
    }

    /// Replaces the reserve with the given id.
    pub(crate) fn store_reserve(&mut self, id: usize, reserve: ReserveData)
        requires
            old(self).wf(),
            id < old(self)@.reserves.len(),
            reserve.id == id,
        ensures
            final(self).wf(),
            final(self)@ == (PoolView {
                reserves: old(self)@.reserves.update(id as int, reserve),
                ..old(self)@
            }),
    {
        let ghost before = *self;
        self.reserves.set(id, reserve);
        proof {
            assert(self@.rules =~= before@.rules);
            assert forall|k: int| 0 <= k < self@.reserves.len() implies #[trigger]
                self@.reserves[k].id == k by {
                if k != id {
                    assert(before@.reserves[k].id == k);
                }
            }
            assert forall|user: AccountId| #[trigger] self@.users.contains_key(user) implies {
                &&& self@.users[user].consistent()
                &&& self@.users[user].positions.len() <= self@.reserves.len()
            } by {
                assert(before@.users.contains_key(user));
            }
        }
    }

    /// Lists `asset` with `reserve` as its reserve and `rules` as its entry in
    /// the default market rule.
    pub(crate) fn list_asset(&mut self, asset: AccountId, reserve: ReserveData, rules: AssetRules)
        requires
            old(self).wf(),
            old(self)@.assets.len() < MAX_RESERVES,
            old(self)@.asset_id(asset) is None,
            reserve.id == old(self)@.assets.len(),
        ensures
            final(self).wf(),
            final(self)@ == (PoolView {
                assets: old(self)@.assets.push(asset),
                reserves: old(self)@.reserves.push(reserve),
                rules: old(self)@.rules.update(
                    0,
                    put_entry(old(self)@.rules[0], old(self)@.assets.len() as int, Some(rules)),
                ),
                ..old(self)@
            }),
    {
        let ghost before = *self;
        let id = self.assets.len();
        let rule = copy_with(&self.rules[0], id, Some(rules), None);
        proof {
            assert(rule@ =~= put_entry(before@.rules[0], id as int, Some(rules)));
            lemma_find_after_push(before@.assets, asset);
        }
        self.rules.set(0, rule);
        self.assets.push(asset);
        self.reserves.push(reserve);
        proof {
            assert(self@.rules =~= before@.rules.update(0, rule@));
            assert forall|k: int| 0 <= k < self@.reserves.len() implies #[trigger]
                self@.reserves[k].id == k by {
                if k < id {
                    assert(before@.reserves[k].id == k);
                }
            }
            assert forall|user: AccountId| #[trigger] self@.users.contains_key(user) implies {
                &&& self@.users[user].consistent()
                &&& self@.users[user].positions.len() <= self@.reserves.len()
            } by {
                assert(before@.users.contains_key(user));
            }
        }
    }

    /// Adds a market rule, whose id is the number of rules before.
    pub(crate) fn push_rule(&mut self, rule: MarketRule)
        requires
            old(self).wf(),
            old(self)@.rules.len() < u32::MAX,
        ensures
            final(self).wf(),
            final(self)@ == (PoolView { rules: old(self)@.rules.push(rule@), ..old(self)@ }),
    {
        let ghost before = *self;
        self.rules.push(rule);
        proof {
            assert(self@.rules =~= before@.rules.push(rule@));
        }
    }

    /// Replaces the entry of reserve `id` in the market rule `rule_id`.
    pub(crate) fn store_rule_entry(&mut self, rule_id: usize, id: usize, entry: Option<AssetRules>)
        requires
            old(self).wf(),
            rule_id < old(self)@.rules.len(),
            id < old(self)@.reserves.len(),
        ensures
            final(self).wf(),
            final(self)@ == (PoolView {
                rules: old(self)@.rules.update(
                    rule_id as int,
                    put_entry(old(self)@.rules[rule_id as int], id as int, entry),
                ),
                ..old(self)@
            }),
    {
        let ghost before = *self;
        let rule = copy_with(&self.rules[rule_id], id, entry, None);
        proof {
            assert(rule@ =~= put_entry(before@.rules[rule_id as int], id as int, entry));
        }
        self.rules.set(rule_id, rule);
        proof {
            assert(self@.rules =~= before@.rules.update(rule_id as int, rule@));
        }
    }
}

} // verus!
