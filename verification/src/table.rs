//! Records kept by account: a list of accounts without repetitions, with
//! one record for each.

use crate::account::AccountId;
use vstd::prelude::*;

verus! {

/// The index of `key` in `list`, if it occurs there.
pub open spec fn find(list: Seq<AccountId>, key: AccountId) -> Option<int> {
    if exists|i: int| 0 <= i < list.len() && list[i] == key {
        Some(choose|i: int| 0 <= i < list.len() && list[i] == key)
    } else {
        None
    }
}

/// In a list without repetitions an account is found where it stands.
pub proof fn lemma_find(list: Seq<AccountId>, i: int)
    requires
        list.no_duplicates(),
        0 <= i < list.len(),
    ensures
        find(list, list[i]) == Some(i),
{
    let j = choose|j: int| 0 <= j < list.len() && list[j] == list[i];
    assert(j == i);
}

/// An account that is added to a list in which it does not occur is found
/// at the end, and every other account where it was.
pub proof fn lemma_find_after_push(list: Seq<AccountId>, key: AccountId)
    requires
        list.no_duplicates(),
        find(list, key) is None,
    ensures
        list.push(key).no_duplicates(),
        find(list.push(key), key) == Some(list.len() as int),
        forall|other: AccountId| other != key ==> find(list.push(key), other) == find(list, other),
{
    let longer = list.push(key);
    let n = list.len() as int;
    assert forall|i: int, j: int|
        0 <= i < longer.len() && 0 <= j < longer.len() && i != j implies longer[i]
        != longer[j] by {
        if i < n && j < n {
            assert(list[i] != list[j]);
        } else if i < n {
            assert(list[i] != key);
        } else if j < n {
            assert(list[j] != key);
        }
    }
    lemma_find(longer, n);
    assert forall|other: AccountId| other != key implies find(longer, other) == find(
        list,
        other,
    ) by {
        if find(list, other) is Some {
            let k = find(list, other).unwrap();
            lemma_find(list, k);
            assert(longer[k] == other);
            lemma_find(longer, k);
        } else if find(longer, other) is Some {
            let k = find(longer, other).unwrap();
            assert(list[k] == other);
        }
    }
}

/// Finds `key` in a list without repetitions.
pub fn index_of(list: &Vec<AccountId>, key: &AccountId) -> (r: Option<usize>)
    requires
        list@.no_duplicates(),
    ensures
        match r {
            Some(i) => find(list@, *key) == Some(i as int) && i < list.len() && list@[i as int]
                == *key,
            None => find(list@, *key) is None,
        },
{
    let mut i: usize = 0;
    while i < list.len()
        invariant
            i <= list.len(),
            list@.no_duplicates(),
            forall|j: int| 0 <= j < i ==> list@[j] != *key,
        decreases list.len() - i,
    {
        if list[i].same(key) {
            proof {
                lemma_find(list@, i as int);
            }
            return Some(i);
        }
        i = i + 1;
    }
    None
}

/// One record for each of a set of accounts.
#[derive(Clone, Debug)]
pub struct Table<V> {
    keys: Vec<AccountId>,
    values: Vec<V>,
}

impl<V> View for Table<V> {
    type V = Map<AccountId, V>;

    closed spec fn view(&self) -> Map<AccountId, V> {
        Map::new(
            |key: AccountId| find(self.keys@, key) is Some,
            |key: AccountId| self.values@[find(self.keys@, key).unwrap()],
        )
    }
}

impl<V> Table<V> {
    /// The invariant of the storage.
    pub closed spec fn wf(&self) -> bool {
        &&& self.keys@.len() == self.values@.len()
        &&& self.keys@.no_duplicates()
    }

    /// The table without records.
    pub fn new() -> (table: Self)
        ensures
            table.wf(),
            table@ == Map::<AccountId, V>::empty(),
    {
        let table = Table { keys: Vec::new(), values: Vec::new() };
        proof {
            assert(table@ =~= Map::<AccountId, V>::empty());
        }
        table
    }

    /// The record of `key`, if it has one.
    pub fn get(&self, key: &AccountId) -> (r: Option<&V>)
        requires
            self.wf(),
        ensures
            match r {
                Some(value) => self@.contains_key(*key) && *value == self@[*key],
                None => !self@.contains_key(*key),
            },
    {
        match index_of(&self.keys, key) {
            Some(k) => Some(&self.values[k]),
            None => None,
        }
    }

    /// Makes `value` the record of `key`.
    pub fn insert(&mut self, key: AccountId, value: V)
        requires
            old(self).wf(),
        ensures
            final(self).wf(),
            final(self)@ == old(self)@.insert(key, value),
    {
        let ghost before = *self;
        match index_of(&self.keys, &key) {
            Some(k) => {
                self.values.set(k, value);
                proof {
                    assert forall|other: AccountId| #[trigger]
                        self@.contains_key(other) implies self@[other] == before@.insert(
                        key,
                        value,
                    )[other] by {
                        let j = find(self.keys@, other).unwrap();
                        if other != key {
                            assert(j != k);
                        }
                    }
                }
            },
            None => {
                proof {
                    lemma_find_after_push(before.keys@, key);
                }
                self.keys.push(key);
                self.values.push(value);
            },
        }
        proof {
            assert(self@ =~= before@.insert(key, value));
        }
    }
}

} // verus!
