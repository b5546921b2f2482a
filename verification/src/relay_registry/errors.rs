//! Errors returned by the relay registry.

use vstd::prelude::*;

verus! {

/// Errors returned by the relay registry.
#[derive(Clone, Copy, Debug, PartialEq, Eq, PartialOrd, Ord)]
pub enum ContractError {
    /// The contract has already been initialized.
    AlreadyInitialized,
    /// A configured amount or period is zero or negative.
    InvalidAmount,
    /// The admin council configuration is invalid.
    InvalidCouncilConfig,
    /// A node with this address is already registered.
    AlreadyRegistered,
    /// The node metadata is out of bounds.
    InvalidMetadata,
    /// No node with this address is registered.
    NotRegistered,
    /// The node has been slashed.
    NodeSlashed,
    /// The amount is not positive, or exceeds the node's stake.
    InsufficientStake,
    /// An amount or time computation overflowed.
    Overflow,
    /// The node is not active.
    NodeNotActive,
    /// The node has no pending withdrawal.
    NoPendingUnstake,
    /// The withdrawal's lock period has not ended.
    LockPeriodActive,
    /// The node is not slashed.
    NodeNotSlashed,
}

} // verus!
