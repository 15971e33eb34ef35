//! Identifiers of accounts: users, listed assets and collaborators.

use vstd::prelude::*;

verus! {

/// A 32-byte account identifier, held as its upper and lower 16 bytes read
/// as big-endian integers.
#[derive(Clone, Copy, Debug, PartialEq, Eq, Structural, Hash)]
pub struct AccountId {
    pub hi: u128,
    pub lo: u128,
}

impl AccountId {
    /// The identifier with the given halves.
    pub fn new(hi: u128, lo: u128) -> (id: AccountId)
        ensures
            id.hi == hi,
            id.lo == lo,
    {
        AccountId { hi, lo }
    }

    /// Whether two identifiers are the same account.
    pub fn same(&self, other: &AccountId) -> (b: bool)
        ensures
            b == (*self == *other),
    {
        self.hi == other.hi && self.lo == other.lo
    }
}

/// A point in time, as the clock collaborator reports it.
pub type Timestamp = u64;

} // verus!
