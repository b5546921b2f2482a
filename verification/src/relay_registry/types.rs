//! Data kept and returned by the relay registry.

use vstd::prelude::*;

use crate::account::AccountId;
use crate::keyed::Keyed;

pub use crate::council::{approved_by, council_config_valid, AdminCouncil, CouncilView};
pub use crate::ledger::Ledger;

verus! {

/// Largest uptime commitment a node may declare, in percent.
pub const MAX_UPTIME_COMMITMENT: u32 = 100;

/// Largest length, in bytes, of a region name accepted by `update_metadata`.
pub const MAX_REGION_LEN: usize = 32;

/// Lifecycle status of a relay node.
#[derive(Clone, Copy, Debug, PartialEq, Eq)]
pub enum NodeStatus {
    /// Registered with at least the minimum stake.
    Active,
    /// Registered without enough stake, or reinstated.
    Inactive,
    /// Penalized: its stake was forfeited.
    Slashed,
}

/// What a relay node declares about itself.
#[derive(Clone, Debug, PartialEq, Eq)]
pub struct NodeMetadata {
    /// Region the node serves, as the bytes of its name.
    pub region: Vec<u8>,
    /// Relay capacity the node offers.
    pub capacity: u32,
    /// Promised uptime, in percent.
    pub uptime_commitment: u32,
}

/// What node metadata is, as mathematical values.
pub struct MetadataView {
    pub region: Seq<u8>,
    pub capacity: u32,
    pub uptime_commitment: u32,
}

impl View for NodeMetadata {
    type V = MetadataView;

    open spec fn view(&self) -> MetadataView {
        MetadataView {
            region: self.region@,
            capacity: self.capacity,
            uptime_commitment: self.uptime_commitment,
        }
    }
}

impl NodeMetadata {
    /// Returns a copy of this metadata.
    pub fn duplicate(&self) -> (r: NodeMetadata)
        ensures
            r@ == self@,
    {
        let region = self.region.clone();
        proof {
            assert(region@ =~= self.region@);
        }
        NodeMetadata { region, capacity: self.capacity, uptime_commitment: self.uptime_commitment }
    }
}

/// The record of a registered relay node.
#[derive(Clone, Debug, PartialEq, Eq)]
pub struct RelayNode {
    /// The node's address.
    pub address: AccountId,
    /// Tokens currently staked.
    pub stake: i128,
    /// Current status.
    pub status: NodeStatus,
    /// What the node declares about itself.
    pub metadata: NodeMetadata,
    /// Ledger timestamp of registration.
    pub registered_at: u64,
    /// Ledger timestamp of the node's last change of stake or status.
    pub last_active: u64,
}

/// What a node's record is, as mathematical values.
pub struct NodeView {
    pub address: AccountId,
    pub stake: i128,
    pub status: NodeStatus,
    pub metadata: MetadataView,
    pub registered_at: u64,
    pub last_active: u64,
}

impl View for RelayNode {
    type V = NodeView;

    open spec fn view(&self) -> NodeView {
        NodeView {
            address: self.address,
            stake: self.stake,
            status: self.status,
            metadata: self.metadata@,
            registered_at: self.registered_at,
            last_active: self.last_active,
        }
    }
}

impl RelayNode {
    /// Returns a copy of this record.
    pub fn duplicate(&self) -> (r: RelayNode)
        ensures
            r@ == self@,
    {
        RelayNode {
            address: self.address,
            stake: self.stake,
            status: self.status,
            metadata: self.metadata.duplicate(),
            registered_at: self.registered_at,
            last_active: self.last_active,
        }
    }
}

impl Keyed for RelayNode {
    open spec fn key_of(&self) -> AccountId {
        self.address
    }

    fn key(&self) -> (r: AccountId) {
        self.address
    }
}

/// A pending withdrawal of stake, payable from ledger sequence `unlocks_at` on.
#[derive(Clone, Copy, Debug, PartialEq, Eq)]
pub struct StakeEntry {
    /// The node the tokens belong to.
    pub address: AccountId,
    /// Amount withdrawn from the stake.
    pub amount: i128,
    /// Ledger sequence number from which the tokens may be paid out.
    pub unlocks_at: u64,
}

impl Keyed for StakeEntry {
    open spec fn key_of(&self) -> AccountId {
        self.address
    }

    fn key(&self) -> (r: AccountId) {
        self.address
    }
}

} // verus!
