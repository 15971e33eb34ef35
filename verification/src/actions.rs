//! The action state machine: each action as a transition on the records it
//! touches, from pulled state to the state to persist and the receipt for the
//! collaborators.

pub mod borrow;
pub mod deposit;
