//! The price feed: the symbols under which the oracle knows the listed
//! assets, and the reading of the oracle's answers.

use crate::account::AccountId;
use crate::block_timestamp_provider::OwnableError;
use crate::table::Table;
use vstd::prelude::*;

verus! {

/// Why the price feed has no prices.
#[derive(Clone, Copy, Debug, PartialEq, Eq, Structural)]
pub enum PriceFeedError {
    /// An asset has no symbol.
    NoSuchAsset,
    /// The oracle has no price for a symbol.
    NoPriceFeed,
}

/// The price feed.
#[derive(Clone, Debug)]
pub struct PriceFeedProvider {
    owner: AccountId,
    oracle: AccountId,
    account_to_symbol: Table<String>,
}

/// The price feed as a mathematical value.
pub struct PriceFeedView {
    pub owner: AccountId,
    pub oracle: AccountId,
    /// The symbol of each asset that has one.
    pub account_to_symbol: Map<AccountId, Seq<char>>,
}

impl View for PriceFeedProvider {
    type V = PriceFeedView;

    closed spec fn view(&self) -> PriceFeedView {
        PriceFeedView {
            owner: self.owner,
            oracle: self.oracle,
            account_to_symbol: self.account_to_symbol@.map_values(|symbol: String| symbol@),
        }
    }
}

/// Whether `symbols` are the symbols of `assets`, one for one.
pub open spec fn are_symbols_of(
    feed: PriceFeedView,
    assets: Seq<AccountId>,
    symbols: Seq<String>,
) -> bool {
    &&& symbols.len() == assets.len()
    &&& forall|i: int|
        #![trigger assets[i]]
        0 <= i < assets.len() ==> feed.account_to_symbol.contains_key(assets[i]) && symbols[i]@
            == feed.account_to_symbol[assets[i]]
}

/// Whether `prices` are the prices in the oracle's answers, one for one.
pub open spec fn are_prices_of(responses: Seq<Option<(u64, u128)>>, prices: Seq<u128>) -> bool {
    &&& prices.len() == responses.len()
    &&& forall|i: int|
        #![trigger responses[i]]
        0 <= i < responses.len() ==> responses[i] == Some((responses[i].unwrap().0, prices[i]))
}

/// Reads the prices out of the oracle's answers, each a time and a price.
/// There are prices only where the oracle answered for every symbol.
pub fn latest_prices(responses: &Vec<Option<(u64, u128)>>) -> (r: Result<Vec<u128>, PriceFeedError>)
    ensures
        match r {
            Ok(prices) => are_prices_of(responses@, prices@),
            Err(e) => e == PriceFeedError::NoPriceFeed && exists|i: int|
                0 <= i < responses.len() && responses@[i] is None,
        },
{
    let mut result: Vec<u128> = Vec::new();
    let mut i: usize = 0;
    while i < responses.len()
        invariant
            i <= responses.len(),
            result@.len() == i,
            forall|j: int|
                #![trigger responses@[j]]
                0 <= j < i ==> responses@[j] == Some((responses@[j].unwrap().0, result@[j])),
        decreases responses.len() - i,
    {
        match responses[i] {
            Some(answer) => {
                result.push(answer.1);
            },
            None => {
                return Err(PriceFeedError::NoPriceFeed);
            },
        }
        i = i + 1;
    }
    Ok(result)
}

impl PriceFeedProvider {
    /// The invariant of the storage.
    pub closed spec fn wf(&self) -> bool {
        self.account_to_symbol.wf()
    }

    /// A price feed over `oracle`, owned by `caller`, without symbols.
    pub fn new(oracle: AccountId, caller: AccountId) -> (feed: Self)
        ensures
            feed.wf(),
            feed@ == (PriceFeedView {
                owner: caller,
                oracle,
                account_to_symbol: Map::empty(),
            }),
    {
        let feed = PriceFeedProvider { owner: caller, oracle, account_to_symbol: Table::new() };
        proof {
            assert(feed@.account_to_symbol =~= Map::empty());
        }
        feed
    }

    /// The oracle that the feed asks.
    pub fn oracle(&self) -> (oracle: AccountId)
        ensures
            oracle == self@.oracle,
    {
        self.oracle
    }

    /// Names the symbol of `asset`. Only the owner may.
    pub fn set_account_symbol(&mut self, caller: AccountId, asset: AccountId, symbol: String) -> (r:
        Result<(), OwnableError>)
        requires
            old(self).wf(),
        ensures
            final(self).wf(),
            caller == old(self)@.owner ==> r is Ok && final(self)@ == (PriceFeedView {
                account_to_symbol: old(self)@.account_to_symbol.insert(asset, symbol@),
                ..old(self)@
            }),
            caller != old(self)@.owner ==> r == Err::<(), OwnableError>(
                OwnableError::CallerIsNotOwner,
            ) && final(self)@ == old(self)@,
    {
        if !caller.same(&self.owner) {
            return Err(OwnableError::CallerIsNotOwner);
        }
        let ghost before = *self;
        self.account_to_symbol.insert(asset, symbol);
        proof {
            assert(self@.account_to_symbol =~= before@.account_to_symbol.insert(asset, symbol@));
        }
        Ok(())
    }

    /// The symbol of `asset`, if it has one.
    pub fn get_account_symbol(&self, asset: AccountId) -> (symbol: Option<String>)
        requires
            self.wf(),
        ensures
            match symbol {
                Some(s) => self@.account_to_symbol.contains_key(asset) && s@
                    == self@.account_to_symbol[asset],
                None => !self@.account_to_symbol.contains_key(asset),
            },
    {
        match self.account_to_symbol.get(&asset) {
            Some(symbol) => Some(symbol.clone()),
            None => None,
        }
    }

    /// The symbols under which the oracle is to be asked for the prices of
    /// `assets`. There are symbols only where every asset has one.
    pub fn symbols_of(&self, assets: &Vec<AccountId>) -> (r: Result<Vec<String>, PriceFeedError>)
        requires
            self.wf(),
        ensures
            match r {
                Ok(symbols) => are_symbols_of(self@, assets@, symbols@),
                Err(e) => e == PriceFeedError::NoSuchAsset && exists|i: int|
                    0 <= i < assets.len() && !self@.account_to_symbol.contains_key(assets@[i]),
            },
    {
        let mut symbols: Vec<String> = Vec::new();
        let mut i: usize = 0;
        while i < assets.len()
            invariant
                self.wf(),
                i <= assets.len(),
                symbols@.len() == i,
                forall|j: int|
                    #![trigger assets@[j]]
                    0 <= j < i ==> self@.account_to_symbol.contains_key(assets@[j])
                        && symbols@[j]@ == self@.account_to_symbol[assets@[j]],
            decreases assets.len() - i,
        {
            match self.get_account_symbol(assets[i]) {
                Some(symbol) => {
                    symbols.push(symbol);
                },
                None => {
                    return Err(PriceFeedError::NoSuchAsset);
                },
            }
            i = i + 1;
        }
        Ok(symbols)
    }
}

} // verus!
