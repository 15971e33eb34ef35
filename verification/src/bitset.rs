//! A set of reserve ids, packed into 128 bits.

use vstd::prelude::*;

verus! {

/// Number of reserves that a membership set can tell apart.
pub const MAX_RESERVES: u32 = 128;

/// Whether bit `i` of `bits` is set.
pub open spec fn bit_at(bits: u128, i: u128) -> bool {
    (bits >> i) & 1 == 1
}

/// The reserves in which a user holds a position of one kind.
#[derive(Clone, Copy, Debug, PartialEq, Eq, Structural)]
pub struct ReserveSet {
    pub bits: u128,
}

impl View for ReserveSet {
    type V = Set<int>;

    open spec fn view(&self) -> Set<int> {
        Set::new(|i: int| 0 <= i < 128 && bit_at(self.bits, i as u128))
    }
}

proof fn lemma_bit_set(bits: u128, i: u128, j: u128)
    by (bit_vector)
    requires
        i < 128,
        j < 128,
    ensures
        bit_at(bits | (1u128 << i), j) == (i == j || bit_at(bits, j)),
{
}

proof fn lemma_bit_cleared(bits: u128, i: u128, j: u128)
    by (bit_vector)
    requires
        i < 128,
        j < 128,
    ensures
        bit_at(bits & !(1u128 << i), j) == (i != j && bit_at(bits, j)),
{
}

proof fn lemma_no_bit(j: u128)
    by (bit_vector)
    requires
        j < 128,
    ensures
        !bit_at(0u128, j),
{
}

impl ReserveSet {
    /// The set with reserve `id` added.
    pub open spec fn inserted(self, id: u32) -> ReserveSet {
        ReserveSet { bits: self.bits | (1u128 << (id as u128)) }
    }

    /// The set with reserve `id` taken out.
    pub open spec fn removed(self, id: u32) -> ReserveSet {
        ReserveSet { bits: self.bits & !(1u128 << (id as u128)) }
    }

    /// The members of a set with one reserve added.
    pub proof fn lemma_inserted(self, id: u32)
        requires
            id < MAX_RESERVES,
        ensures
            self.inserted(id)@ == self@.insert(id as int),
    {
        assert forall|j: int|
            self.inserted(id)@.contains(j) == self@.insert(id as int).contains(j) by {
            if 0 <= j < 128 {
                lemma_bit_set(self.bits, id as u128, j as u128);
            }
        }
        assert(self.inserted(id)@ =~= self@.insert(id as int));
    }

    /// The members of a set with one reserve taken out.
    pub proof fn lemma_removed(self, id: u32)
        requires
            id < MAX_RESERVES,
        ensures
            self.removed(id)@ == self@.remove(id as int),
    {
        assert forall|j: int|
            self.removed(id)@.contains(j) == self@.remove(id as int).contains(j) by {
            if 0 <= j < 128 {
                lemma_bit_cleared(self.bits, id as u128, j as u128);
            }
        }
        assert(self.removed(id)@ =~= self@.remove(id as int));
    }

    /// The set packed into zero has no members.
    pub proof fn lemma_zero_is_empty()
        ensures
            (ReserveSet { bits: 0 })@ == Set::<int>::empty(),
    {
        let s = ReserveSet { bits: 0 };
        assert forall|i: int| !s@.contains(i) by {
            if 0 <= i < 128 {
                lemma_no_bit(i as u128);
            }
        }
        assert(s@ =~= Set::<int>::empty());
    }

    /// The set without members.
    pub fn empty() -> (s: ReserveSet)
        ensures
            s.bits == 0,
            s@ == Set::<int>::empty(),
    {
        proof {
            Self::lemma_zero_is_empty();
        }
        ReserveSet { bits: 0 }
    }

    /// Whether reserve `id` is a member. Ids from `MAX_RESERVES` on never are.
    pub fn contains(&self, id: u32) -> (b: bool)
        ensures
            b == self@.contains(id as int),
    {
        if id >= MAX_RESERVES {
            return false;
        }
        (self.bits >> (id as u128)) & 1 == 1
    }

    /// The members, in rising order.
    pub fn members(&self) -> (ids: Vec<u32>)
        ensures
            forall|k: int| 0 <= k < ids@.len() ==> self@.contains(#[trigger] ids@[k] as int),
            forall|id: int| self@.contains(id) ==> exists|k: int|
                0 <= k < ids@.len() && #[trigger] ids@[k] == id,
            forall|j: int, k: int| 0 <= j < k < ids@.len() ==> ids@[j] < ids@[k],
    {
        let mut ids: Vec<u32> = Vec::new();
        let mut id: u32 = 0;
        while id < MAX_RESERVES
            invariant
                id <= MAX_RESERVES,
                forall|k: int|
                    0 <= k < ids@.len() ==> self@.contains(#[trigger] ids@[k] as int) && ids@[k]
                        < id,
                forall|member: int|
                    self@.contains(member) && member < id ==> exists|k: int|
                        0 <= k < ids@.len() && #[trigger] ids@[k] == member,
                forall|j: int, k: int| 0 <= j < k < ids@.len() ==> ids@[j] < ids@[k],
            decreases MAX_RESERVES - id,
        {
            if self.contains(id) {
                let ghost before = ids@;
                ids.push(id);
                proof {
                    assert forall|member: int|
                        self@.contains(member) && member < id + 1 implies exists|k: int|
                        0 <= k < ids@.len() && #[trigger] ids@[k] == member by {
                        if member < id {
                            let k = choose|k: int|
                                0 <= k < before.len() && #[trigger] before[k] == member;
                            assert(ids@[k] == member);
                        } else {
                            assert(ids@[before.len() as int] == member);
                        }
                    }
                }
            }
            id = id + 1;
        }
        ids
    }

    /// Adds reserve `id`.
    pub fn insert(&mut self, id: u32)
        requires
            id < MAX_RESERVES,
        ensures
            *final(self) == old(self).inserted(id),
            final(self)@ == old(self)@.insert(id as int),
    {
        proof {
            self.lemma_inserted(id);
        }
        self.bits = self.bits | (1u128 << (id as u128));
    }

    /// Removes reserve `id`.
    pub fn remove(&mut self, id: u32)
        requires
            id < MAX_RESERVES,
        ensures
            *final(self) == old(self).removed(id),
            final(self)@ == old(self)@.remove(id as int),
    {
        proof {
            self.lemma_removed(id);
        }
        self.bits = self.bits & !(1u128 << (id as u128));
    }
}

} // verus!
