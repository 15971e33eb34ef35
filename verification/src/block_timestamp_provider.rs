//! A clock that its owner can replace by a mock or speed up, for tests of
//! the pool against time.

use crate::account::{AccountId, Timestamp};
use vstd::prelude::*;

verus! {

/// Why a call that only the owner may make was refused.
#[derive(Clone, Copy, Debug, PartialEq, Eq, Structural)]
pub enum OwnableError {
    CallerIsNotOwner,
    NewOwnerIsZero,
}

/// The clock.
#[derive(Clone, Copy, Debug, PartialEq, Eq)]
pub struct BlockTimestampProvider {
    pub owner: AccountId,
    pub should_return_mock_value: bool,
    pub mock_timestamp: Timestamp,
    pub speed_multiplier: u64,
    pub starting_timestamp: Timestamp,
}

impl BlockTimestampProvider {
    /// The time that the clock shows when the environment's time is
    /// `current_timestamp`: the mock value where the clock is set to return
    /// it, and otherwise the time since the start multiplied by the speed.
    pub open spec fn shown(self, current_timestamp: Timestamp) -> int {
        if self.should_return_mock_value {
            self.mock_timestamp as int
        } else if self.speed_multiplier != 1 {
            self.starting_timestamp + (current_timestamp - self.starting_timestamp)
                * self.speed_multiplier
        } else {
            current_timestamp as int
        }
    }

    /// A clock owned by `owner` that starts at the environment's time
    /// `starting_timestamp`.
    pub fn new(
        init_should_return_mock_value: bool,
        owner: AccountId,
        speed_multiplier: u64,
        starting_timestamp: Timestamp,
    ) -> (clock: Self)
        ensures
            clock == (BlockTimestampProvider {
                owner,
                should_return_mock_value: init_should_return_mock_value,
                mock_timestamp: 0,
                speed_multiplier,
                starting_timestamp,
            }),
    {
        BlockTimestampProvider {
            owner,
            should_return_mock_value: init_should_return_mock_value,
            mock_timestamp: 0,
            speed_multiplier,
            starting_timestamp,
        }
    }

    /// The time that the clock shows. A sped-up clock cannot show a time
    /// before its start or beyond the range of timestamps.
    pub fn get_block_timestamp(&self, current_timestamp: Timestamp) -> (shown: Timestamp)
        requires
            !self.should_return_mock_value && self.speed_multiplier != 1 ==> {
                &&& current_timestamp >= self.starting_timestamp
                &&& self.shown(current_timestamp) <= u64::MAX
            },
        ensures
            shown == self.shown(current_timestamp),
    {
        if self.should_return_mock_value {
            return self.mock_timestamp;
        }
        if self.speed_multiplier != 1 {
            let time_passed: u64 = current_timestamp - self.starting_timestamp;
            proof {
                assert(time_passed * self.speed_multiplier >= 0) by (nonlinear_arith)
                    requires
                        time_passed >= 0,
                        self.speed_multiplier >= 0,
                ;
            }
            return self.starting_timestamp + time_passed * self.speed_multiplier;
        }
        current_timestamp
    }

    /// Whether the clock can show a time for the environment's time
    /// `current_timestamp`.
    pub fn can_show(&self, current_timestamp: Timestamp) -> (b: bool)
        ensures
            b == (!self.should_return_mock_value && self.speed_multiplier != 1 ==> {
                &&& current_timestamp >= self.starting_timestamp
                &&& self.shown(current_timestamp) <= u64::MAX
            }),
    {
        if self.should_return_mock_value || self.speed_multiplier == 1 {
            return true;
        }
        if current_timestamp < self.starting_timestamp {
            return false;
        }
        let time_passed: u64 = current_timestamp - self.starting_timestamp;
        match time_passed.checked_mul(self.speed_multiplier) {
            Some(scaled) => self.starting_timestamp.checked_add(scaled).is_some(),
            None => {
                proof {
                    assert(time_passed * self.speed_multiplier >= 0) by (nonlinear_arith)
                        requires
                            time_passed >= 0,
                            self.speed_multiplier >= 0,
                    ;
                }
                false
            },
        }
    }

    fn only_owner(&self, caller: &AccountId) -> (r: Result<(), OwnableError>)
        ensures
            r == (if *caller == self.owner {
                Ok::<(), OwnableError>(())
            } else {
                Err(OwnableError::CallerIsNotOwner)
            }),
    {
        if caller.same(&self.owner) {
            Ok(())
        } else {
            Err(OwnableError::CallerIsNotOwner)
        }
    }

    /// Sets the mock value. Only the owner may.
    pub fn set_block_timestamp(&mut self, caller: AccountId, timestamp: Timestamp) -> (r: Result<
        (),
        OwnableError,
    >)
        ensures
            caller == old(self).owner ==> r is Ok && *final(self) == (BlockTimestampProvider {
                mock_timestamp: timestamp,
                ..*old(self)
            }),
            caller != old(self).owner ==> r == Err::<(), OwnableError>(
                OwnableError::CallerIsNotOwner,
            ) && *final(self) == *old(self),
    {
        self.only_owner(&caller)?;
        self.mock_timestamp = timestamp;
        Ok(())
    }

    /// Sets the speed. Only the owner may.
    pub fn set_speed_multiplier(&mut self, caller: AccountId, speed_multiplier: u64) -> (r: Result<
        (),
        OwnableError,
    >)
        ensures
            caller == old(self).owner ==> r is Ok && *final(self) == (BlockTimestampProvider {
                speed_multiplier,
                ..*old(self)
            }),
            caller != old(self).owner ==> r == Err::<(), OwnableError>(
                OwnableError::CallerIsNotOwner,
            ) && *final(self) == *old(self),
    {
        self.only_owner(&caller)?;
        self.speed_multiplier = speed_multiplier;
        Ok(())
    }

    /// The speed.
    pub fn get_speed_multiplier(&self) -> (speed_multiplier: u64)
        ensures
            speed_multiplier == self.speed_multiplier,
    {
        self.speed_multiplier
    }

    /// Moves the mock value forward by `delta_timestamp`. Only the owner may.
    pub fn increase_block_timestamp(&mut self, caller: AccountId, delta_timestamp: u64) -> (r: Result<
        (),
        OwnableError,
    >)
        requires
            caller == old(self).owner ==> old(self).mock_timestamp + delta_timestamp <= u64::MAX,
        ensures
            caller == old(self).owner ==> r is Ok && *final(self) == (BlockTimestampProvider {
                mock_timestamp: (old(self).mock_timestamp + delta_timestamp) as u64,
                ..*old(self)
            }),
            caller != old(self).owner ==> r == Err::<(), OwnableError>(
                OwnableError::CallerIsNotOwner,
            ) && *final(self) == *old(self),
    {
        self.only_owner(&caller)?;
        self.mock_timestamp = self.mock_timestamp + delta_timestamp;
        Ok(())
    }

    /// Sets whether the clock returns the mock value. Only the owner may.
    pub fn set_should_return_mock_value(
        &mut self,
        caller: AccountId,
        should_return_mock_value: bool,
    ) -> (r: Result<(), OwnableError>)
        ensures
            caller == old(self).owner ==> r is Ok && *final(self) == (BlockTimestampProvider {
                should_return_mock_value,
                ..*old(self)
            }),
            caller != old(self).owner ==> r == Err::<(), OwnableError>(
                OwnableError::CallerIsNotOwner,
            ) && *final(self) == *old(self),
    {
        self.only_owner(&caller)?;
        self.should_return_mock_value = should_return_mock_value;
        Ok(())
    }

    /// Whether the clock returns the mock value.
    pub fn get_should_return_mock_value(&self) -> (should_return_mock_value: bool)
        ensures
            should_return_mock_value == self.should_return_mock_value,
    {
        self.should_return_mock_value
    }
}

} // verus!
