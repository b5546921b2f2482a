//! The relay registry's state and operations.
//!
//! Authorization of callers, the ledger clock, token transfers and event
//! publication belong to the host; each operation here takes their outcome
//! as arguments and decides what the contract answers and stores. A
//! successful `stake` is paid for by a transfer of `amount` from the node to
//! the contract, and a successful `finalize_unstake` by a transfer of the
//! returned amount back to the node.

use vstd::prelude::*;

use crate::account::AccountId;
use crate::council::council_approves;
use crate::keyed::{
    has_key, keyed_map, keys_are_unique, lemma_keyed_map_at, lemma_keyed_map_push, lemma_keyed_map_remove,
    lemma_keyed_map_update, position_of, unique_keys,
};
use crate::relay_registry::errors::ContractError;
use crate::relay_registry::types::{
    approved_by, council_config_valid, AdminCouncil, CouncilView, Ledger, MetadataView, NodeMetadata,
    NodeStatus, NodeView, RelayNode, StakeEntry, MAX_REGION_LEN, MAX_UPTIME_COMMITMENT,
};

verus! {

/// What the relay registry holds, seen as mathematical values.
pub struct RegistryView {
    /// The admin council, once the contract is initialized.
    pub council: Option<CouncilView>,
    /// Stake at which a node becomes active (zero until set).
    pub min_stake: i128,
    /// Ledgers a withdrawal stays locked (zero until set).
    pub stake_lock_period: u32,
    /// Registrations counted since initialization.
    pub node_count: u32,
    /// Every registered node, by address.
    pub nodes: Map<AccountId, NodeView>,
    /// Every pending withdrawal, by node address.
    pub pending: Map<AccountId, StakeEntry>,
}

/// Metadata is acceptable at registration when the uptime commitment is at
/// most 100 percent.
pub open spec fn metadata_valid_for_registration(m: MetadataView) -> bool {
    m.uptime_commitment <= MAX_UPTIME_COMMITMENT
}

/// Metadata is acceptable as an update when, moreover, the region name is at
/// most 32 bytes long.
pub open spec fn metadata_valid_for_update(m: MetadataView) -> bool {
    m.uptime_commitment <= MAX_UPTIME_COMMITMENT && m.region.len() <= MAX_REGION_LEN
}

/// The record of a newly registered node.
pub open spec fn new_node(address: AccountId, metadata: MetadataView, ledger: Ledger) -> NodeView {
    NodeView {
        address,
        stake: 0,
        status: NodeStatus::Inactive,
        metadata,
        registered_at: ledger.timestamp,
        last_active: ledger.timestamp,
    }
}

/// The answer to staking `amount` on node `n`: the node's new record.
pub open spec fn stake_outcome(n: NodeView, amount: i128, min_stake: i128, ledger: Ledger) -> Result<
    NodeView,
    ContractError,
> {
    if n.status == NodeStatus::Slashed {
        Err(ContractError::NodeSlashed)
    } else if amount <= 0 {
        Err(ContractError::InsufficientStake)
    } else if n.stake + amount > i128::MAX {
        Err(ContractError::Overflow)
    } else {
        let s = (n.stake + amount) as i128;
        Ok(
            NodeView {
                stake: s,
                status: if s >= min_stake {
                    NodeStatus::Active
                } else {
                    n.status
                },
                last_active: ledger.timestamp,
                ..n
            },
        )
    }
}

/// The answer to withdrawing `amount` from node `n`: the node's new record
/// and the pending withdrawal, payable `lock_period` ledgers later.
pub open spec fn unstake_outcome(
    n: NodeView,
    amount: i128,
    min_stake: i128,
    lock_period: u32,
    ledger: Ledger,
) -> Result<(NodeView, StakeEntry), ContractError> {
    if amount <= 0 {
        Err(ContractError::InsufficientStake)
    } else if n.status == NodeStatus::Slashed {
        Err(ContractError::NodeSlashed)
    } else if n.status != NodeStatus::Active {
        Err(ContractError::NodeNotActive)
    } else if amount > n.stake {
        Err(ContractError::InsufficientStake)
    } else if n.stake - amount < i128::MIN {
        Err(ContractError::Overflow)
    } else {
        let s = (n.stake - amount) as i128;
        Ok(
            (
                NodeView {
                    stake: s,
                    status: if s < min_stake {
                        NodeStatus::Inactive
                    } else {
                        n.status
                    },
                    last_active: ledger.timestamp,
                    ..n
                },
                StakeEntry {
                    address: n.address,
                    amount,
                    unlocks_at: (ledger.sequence + lock_period) as u64,
                },
            ),
        )
    }
}

/// A node's record once slashed: no stake, slashed status.
pub open spec fn slashed_node(n: NodeView, ledger: Ledger) -> NodeView {
    NodeView { stake: 0, status: NodeStatus::Slashed, last_active: ledger.timestamp, ..n }
}

/// The nodes of `s` seen as a map from address to record.
pub open spec fn node_views(s: Seq<RelayNode>) -> Map<AccountId, NodeView> {
    keyed_map(s).map_values(|n: RelayNode| n@)
}

/// Where the keys are unique, the map holds at `s[i].address` the view of `s[i]`.
pub proof fn lemma_node_views_at(s: Seq<RelayNode>, i: int)
    requires
        unique_keys(s),
        0 <= i < s.len(),
    ensures
        node_views(s).contains_key(s[i].address),
        node_views(s)[s[i].address] == s[i]@,
{
    lemma_keyed_map_at(s, i);
}

/// Appending a node for a fresh address inserts its view.
pub proof fn lemma_node_views_push(s: Seq<RelayNode>, x: RelayNode)
    requires
        unique_keys(s),
        !has_key(s, x.address),
    ensures
        unique_keys(s.push(x)),
        node_views(s.push(x)) == node_views(s).insert(x.address, x@),
{
    lemma_keyed_map_push(s, x);
    assert(node_views(s.push(x)) =~= node_views(s).insert(x.address, x@));
}

/// Replacing the node at `i` by one for the same address updates its view.
pub proof fn lemma_node_views_update(s: Seq<RelayNode>, i: int, x: RelayNode)
    requires
        unique_keys(s),
        0 <= i < s.len(),
        x.address == s[i].address,
    ensures
        unique_keys(s.update(i, x)),
        node_views(s.update(i, x)) == node_views(s).insert(x.address, x@),
{
    lemma_keyed_map_update(s, i, x);
    assert(node_views(s.update(i, x)) =~= node_views(s).insert(x.address, x@));
}

/// A stored council is one `initialize` accepts.
pub open spec fn council_acceptable(c: Option<AdminCouncil>) -> bool {
    match c {
        Some(c) => council_config_valid(c@),
        None => true,
    }
}

/// The registry's records as they are kept between invocations.
pub struct RegistryRecords {
    pub council: Option<AdminCouncil>,
    pub min_stake: i128,
    pub stake_lock_period: u32,
    pub node_count: u32,
    pub nodes: Vec<RelayNode>,
    pub pending: Vec<StakeEntry>,
}

/// Record by record, the nodes and pending withdrawals agree as
/// `records_consistent` requires.
pub open spec fn records_agree(nodes: Seq<RelayNode>, pending: Seq<StakeEntry>) -> bool {
    &&& forall|i: int|
        0 <= i < nodes.len() ==> #[trigger] nodes[i].stake >= 0 && (nodes[i].status
            == NodeStatus::Slashed ==> nodes[i].stake == 0 && !has_key(pending, nodes[i].address))
    &&& forall|k: int|
        0 <= k < pending.len() ==> #[trigger] pending[k].amount > 0 && has_key(
            nodes,
            pending[k].address,
        )
}

/// The state of the relay registry contract.
pub struct RelayRegistryContract {
    council: Option<AdminCouncil>,
    min_stake: i128,
    stake_lock_period: u32,
    node_count: u32,
    nodes: Vec<RelayNode>,
    pending: Vec<StakeEntry>,
}

impl View for RelayRegistryContract {
    type V = RegistryView;

    closed spec fn view(&self) -> RegistryView {
        RegistryView {
            council: match self.council {
                Some(c) => Some(c@),
                None => None,
            },
            min_stake: self.min_stake,
            stake_lock_period: self.stake_lock_period,
            node_count: self.node_count,
            nodes: node_views(self.nodes@),
            pending: keyed_map(self.pending@),
        }
    }
}

/// The registry's records agree with each other: each node's record is
/// filed under its own address, stakes are never negative,
/// a slashed node holds no stake and no pending withdrawal, and every
/// pending withdrawal is a positive amount owed to a registered node.
pub open spec fn records_consistent(v: RegistryView) -> bool {
    &&& forall|a: AccountId| #[trigger]
        v.nodes.contains_key(a) ==> v.nodes[a].address == a && v.nodes[a].stake >= 0 && (v.nodes[a].status
            == NodeStatus::Slashed ==> v.nodes[a].stake == 0 && !v.pending.contains_key(a))
    &&& forall|a: AccountId| #[trigger]
        v.pending.contains_key(a) ==> v.pending[a].amount > 0 && v.pending[a].address == a
            && v.nodes.contains_key(a)
}

impl RelayRegistryContract {
    /// The representation invariant, which holds of every reachable state.
    pub closed spec fn wf(&self) -> bool {
        &&& council_acceptable(self.council)
        &&& unique_keys(self.nodes@)
        &&& unique_keys(self.pending@)
        &&& records_consistent(self@)
    }

    /// Every reachable state keeps its records consistent.
    pub proof fn lemma_wf_consistent(&self)
        requires
            self.wf(),
        ensures
            records_consistent(self@),
    {
    }

    /// With unique keys, record-by-record agreement is consistency of the maps.
    proof fn lemma_agree_iff_consistent(&self)
        requires
            unique_keys(self.nodes@),
            unique_keys(self.pending@),
        ensures
            records_agree(self.nodes@, self.pending@) <==> records_consistent(self@),
    {
        let ns = self.nodes@;
        let ps = self.pending@;
        if records_agree(ns, ps) {
            assert forall|a: AccountId| #[trigger] self@.nodes.contains_key(a) implies self@.nodes[a].address
                == a && self@.nodes[a].stake >= 0 && (self@.nodes[a].status == NodeStatus::Slashed
                ==> self@.nodes[a].stake == 0 && !self@.pending.contains_key(a)) by {
                let i = crate::keyed::index_of(ns, a);
                assert(ns[i].stake >= 0);
            }
            assert forall|a: AccountId| #[trigger] self@.pending.contains_key(a) implies self@.pending[a].amount
                > 0 && self@.pending[a].address == a && self@.nodes.contains_key(a) by {
                let k = crate::keyed::index_of(ps, a);
                assert(ps[k].amount > 0);
            }
        }
        if records_consistent(self@) {
            assert forall|i: int| 0 <= i < ns.len() implies #[trigger] ns[i].stake >= 0 && (
            ns[i].status == NodeStatus::Slashed ==> ns[i].stake == 0 && !has_key(
                ps,
                ns[i].address,
            )) by {
                lemma_keyed_map_at(ns, i);
                assert(self@.nodes.contains_key(ns[i].address));
            }
            assert forall|k: int| 0 <= k < ps.len() implies #[trigger] ps[k].amount > 0 && has_key(
                ns,
                ps[k].address,
            ) by {
                lemma_keyed_map_at(ps, k);
                assert(self@.pending.contains_key(ps[k].address));
            }
        }
    }

    /// Whether the representation invariant holds.
    fn check_wf(&self) -> (r: bool)
        ensures
            r == self.wf(),
    {
        match &self.council {
            Some(c) => {
                if c.threshold == 0 || c.members.len() < c.threshold as usize {
                    return false;
                }
            },
            None => {},
        }
        if !keys_are_unique(&self.nodes) || !keys_are_unique(&self.pending) {
            return false;
        }
        proof {
            self.lemma_agree_iff_consistent();
        }
        let mut i: usize = 0;
        while i < self.nodes.len()
            invariant
                council_acceptable(self.council),
                unique_keys(self.nodes@),
                unique_keys(self.pending@),
                records_agree(self.nodes@, self.pending@) <==> records_consistent(self@),
                0 <= i <= self.nodes@.len(),
                forall|j: int|
                    0 <= j < i ==> #[trigger] self.nodes@[j].stake >= 0 && (self.nodes@[j].status
                        == NodeStatus::Slashed ==> self.nodes@[j].stake == 0 && !has_key(
                        self.pending@,
                        self.nodes@[j].address,
                    )),
            decreases self.nodes@.len() - i,
        {
            let n = &self.nodes[i];
            if n.stake < 0 {
                return false;
            }
            match n.status {
                NodeStatus::Slashed => {
                    if n.stake != 0 || position_of(&self.pending, &n.address).is_some() {
                        return false;
                    }
                },
                _ => {},
            }
            i = i + 1;
        }
        let mut k: usize = 0;
        while k < self.pending.len()
            invariant
                council_acceptable(self.council),
                unique_keys(self.nodes@),
                unique_keys(self.pending@),
                records_agree(self.nodes@, self.pending@) <==> records_consistent(self@),
                forall|j: int|
                    0 <= j < self.nodes@.len() ==> #[trigger] self.nodes@[j].stake >= 0 && (
                    self.nodes@[j].status == NodeStatus::Slashed ==> self.nodes@[j].stake == 0
                        && !has_key(self.pending@, self.nodes@[j].address)),
                0 <= k <= self.pending@.len(),
                forall|j: int|
                    0 <= j < k ==> #[trigger] self.pending@[j].amount > 0 && has_key(
                        self.nodes@,
                        self.pending@[j].address,
                    ),
            decreases self.pending@.len() - k,
        {
            let e = self.pending[k];
            if e.amount <= 0 || position_of(&self.nodes, &e.address).is_none() {
                return false;
            }
            k = k + 1;
        }
        true
    }

    /// The registry made of `records`.
    pub closed spec fn assembled(records: RegistryRecords) -> RelayRegistryContract {
        RelayRegistryContract {
            council: records.council,
            min_stake: records.min_stake,
            stake_lock_period: records.stake_lock_period,
            node_count: records.node_count,
            nodes: records.nodes,
            pending: records.pending,
        }
    }

    /// The records that make up `c`.
    pub closed spec fn records_of(c: RelayRegistryContract) -> RegistryRecords {
        RegistryRecords {
            council: c.council,
            min_stake: c.min_stake,
            stake_lock_period: c.stake_lock_period,
            node_count: c.node_count,
            nodes: c.nodes,
            pending: c.pending,
        }
    }

    /// What rebuilding from `records` gives: the state they make up, when
    /// it is one the contract can reach.
    pub open spec fn restored(records: RegistryRecords) -> Option<RelayRegistryContract> {
        if Self::assembled(records).wf() {
            Some(Self::assembled(records))
        } else {
            None
        }
    }

    /// Records taken from a state rebuild that state.
    pub proof fn lemma_assembled_records_of(c: RelayRegistryContract)
        ensures
            Self::assembled(Self::records_of(c)) == c,
    {
    }

    /// Rebuilds the registry from its kept records; `None` when the records
    /// do not form a state the registry can reach.
    pub fn from_records(records: RegistryRecords) -> (r: Option<RelayRegistryContract>)
        ensures
            r == Self::restored(records),
    {
        let c = RelayRegistryContract {
            council: records.council,
            min_stake: records.min_stake,
            stake_lock_period: records.stake_lock_period,
            node_count: records.node_count,
            nodes: records.nodes,
            pending: records.pending,
        };
        if c.check_wf() {
            Some(c)
        } else {
            None
        }
    }

    /// Gives up the registry's records, to be kept until the next invocation.
    pub fn into_records(self) -> (r: RegistryRecords)
        ensures
            r == Self::records_of(self),
    {
        RegistryRecords {
            council: self.council,
            min_stake: self.min_stake,
            stake_lock_period: self.stake_lock_period,
            node_count: self.node_count,
            nodes: self.nodes,
            pending: self.pending,
        }
    }

    /// An empty, uninitialized registry.
    pub fn new() -> (r: RelayRegistryContract)
        ensures
            r.wf(),
            r@.council is None,
            r@.min_stake == 0,
            r@.stake_lock_period == 0,
            r@.node_count == 0,
            r@.nodes == Map::<AccountId, NodeView>::empty(),
            r@.pending == Map::<AccountId, StakeEntry>::empty(),
    {
        let r = RelayRegistryContract {
            council: None,
            min_stake: 0,
            stake_lock_period: 0,
            node_count: 0,
            nodes: Vec::new(),
            pending: Vec::new(),
        };
        proof {
            assert(r@.nodes =~= Map::<AccountId, NodeView>::empty());
            assert(r@.pending =~= Map::<AccountId, StakeEntry>::empty());
        }
        r
    }

    /// Replaces the record at position `i` by `n`, a record for the same node.
    fn store_node(&mut self, i: usize, n: RelayNode)
        requires
            unique_keys(old(self).nodes@),
            i < old(self).nodes@.len(),
            n.address == old(self).nodes@[i as int].address,
        ensures
            unique_keys(final(self).nodes@),
            final(self).pending@ == old(self).pending@,
            final(self)@ == (RegistryView {
                nodes: old(self)@.nodes.insert(n.address, n@),
                ..old(self)@
            }),
    {
        let ghost before = self.nodes@;
        proof {
            lemma_node_views_update(before, i as int, n);
        }
        self.nodes.set(i, n);
    }

    /// Removes the pending withdrawal at position `i`.
    fn drop_pending(&mut self, i: usize)
        requires
            unique_keys(old(self).pending@),
            i < old(self).pending@.len(),
        ensures
            unique_keys(final(self).pending@),
            final(self).nodes@ == old(self).nodes@,
            final(self)@ == (RegistryView {
                pending: old(self)@.pending.remove(old(self).pending@[i as int].address),
                ..old(self)@
            }),
    {
        let ghost before = self.pending@;
        proof {
            lemma_keyed_map_remove(before, i as int);
        }
        self.pending.remove(i);
    }

    /// The admin council has been set.
    pub fn is_initialized(&self) -> (r: bool)
        ensures
            r == (self@.council is Some),
    {
        self.council.is_some()
    }

    /// Returns the stake at which a node becomes active.
    pub fn min_stake(&self) -> (r: i128)
        ensures
            r == self@.min_stake,
    {
        self.min_stake
    }

    /// Returns the number of ledgers a withdrawal stays locked.
    pub fn stake_lock_period(&self) -> (r: u32)
        ensures
            r == self@.stake_lock_period,
    {
        self.stake_lock_period
    }

    /// Returns the number of registrations counted since initialization.
    pub fn node_count(&self) -> (r: u32)
        ensures
            r == self@.node_count,
    {
        self.node_count
    }

    /// Whether `approvers` approve a council action (`slash`,
    /// `reinstate_node`): they must be distinct members of the council, at
    /// least as many as its threshold, and any such members will do. No
    /// action is approved before the council is set.
    pub fn approves(&self, approvers: &Vec<AccountId>) -> (r: bool)
        ensures
            r == match self@.council {
                Some(c) => approved_by(c, approvers@),
                None => false,
            },
    {
        match &self.council {
            Some(c) => council_approves(c, approvers),
            None => false,
        }
    }

    /// One-time setup: records the admin council, the minimum stake and the
    /// lock period of withdrawals.
    pub fn initialize(&mut self, council: AdminCouncil, min_stake: i128, stake_lock_period: u32) -> (r:
        Result<(), ContractError>)
        requires
            old(self).wf(),
        ensures
            final(self).wf(),
            old(self)@.council is Some ==> r == Err::<(), ContractError>(
                ContractError::AlreadyInitialized,
            ),
            old(self)@.council is None && (min_stake <= 0 || stake_lock_period == 0) ==> r == Err::<
                (),
                ContractError,
            >(ContractError::InvalidAmount),
            old(self)@.council is None && min_stake > 0 && stake_lock_period != 0
                && !council_config_valid(council@) ==> r == Err::<(), ContractError>(
                ContractError::InvalidCouncilConfig,
            ),
            r is Err ==> final(self)@ == old(self)@,
            old(self)@.council is None && min_stake > 0 && stake_lock_period != 0
                && council_config_valid(council@) ==> r is Ok && final(self)@ == (RegistryView {
                council: Some(council@),
                min_stake,
                stake_lock_period,
                node_count: 0,
                ..old(self)@
            }),
    {
        if self.council.is_some() {
            return Err(ContractError::AlreadyInitialized);
        }
        if min_stake <= 0 {
            return Err(ContractError::InvalidAmount);
        }
        if stake_lock_period == 0 {
            return Err(ContractError::InvalidAmount);
        }
        if council.threshold == 0 || council.members.len() < council.threshold as usize {
            return Err(ContractError::InvalidCouncilConfig);
        }
        self.council = Some(council);
        self.min_stake = min_stake;
        self.stake_lock_period = stake_lock_period;
        self.node_count = 0;
        Ok(())
    }

    /// Registers a new node with `metadata`; it starts inactive, without stake.
    pub fn register(&mut self, node_address: AccountId, metadata: NodeMetadata, ledger: Ledger) -> (r:
        Result<(), ContractError>)
        requires
            old(self).wf(),
            !old(self)@.nodes.contains_key(node_address) && metadata_valid_for_registration(metadata@)
                ==> old(self)@.node_count < u32::MAX,
        ensures
            final(self).wf(),
            old(self)@.nodes.contains_key(node_address) ==> r == Err::<(), ContractError>(
                ContractError::AlreadyRegistered,
            ),
            !old(self)@.nodes.contains_key(node_address) && !metadata_valid_for_registration(
                metadata@,
            ) ==> r == Err::<(), ContractError>(ContractError::InvalidMetadata),
            r is Err ==> final(self)@ == old(self)@,
            !old(self)@.nodes.contains_key(node_address) && metadata_valid_for_registration(metadata@)
                ==> r is Ok && final(self)@ == (RegistryView {
                nodes: old(self)@.nodes.insert(node_address, new_node(node_address, metadata@, ledger)),
                node_count: (old(self)@.node_count + 1) as u32,
                ..old(self)@
            }),
    {
        if position_of(&self.nodes, &node_address).is_some() {
            proof {
                assert(self@.nodes.contains_key(node_address));
            }
            return Err(ContractError::AlreadyRegistered);
        }
        if metadata.uptime_commitment > MAX_UPTIME_COMMITMENT {
            return Err(ContractError::InvalidMetadata);
        }
        let node = RelayNode {
            address: node_address,
            stake: 0,
            status: NodeStatus::Inactive,
            metadata,
            registered_at: ledger.timestamp,
            last_active: ledger.timestamp,
        };
        let ghost before = self.nodes@;
        proof {
            lemma_node_views_push(before, node);
        }
        self.nodes.push(node);
        self.node_count = self.node_count + 1;
        Ok(())
    }

    /// Replaces the metadata of a registered node.
    pub fn update_metadata(&mut self, node_address: AccountId, new_metadata: NodeMetadata) -> (r:
        Result<(), ContractError>)
        requires
            old(self).wf(),
        ensures
            final(self).wf(),
            !old(self)@.nodes.contains_key(node_address) ==> r == Err::<(), ContractError>(
                ContractError::NotRegistered,
            ),
            old(self)@.nodes.contains_key(node_address) && !metadata_valid_for_update(new_metadata@)
                ==> r == Err::<(), ContractError>(ContractError::InvalidMetadata),
            r is Err ==> final(self)@ == old(self)@,
            old(self)@.nodes.contains_key(node_address) && metadata_valid_for_update(new_metadata@)
                ==> r is Ok && final(self)@ == (RegistryView {
                nodes: old(self)@.nodes.insert(
                    node_address,
                    NodeView { metadata: new_metadata@, ..old(self)@.nodes[node_address] },
                ),
                ..old(self)@
            }),
    {
        let i = match position_of(&self.nodes, &node_address) {
            Some(i) => i,
            None => {
                return Err(ContractError::NotRegistered);
            },
        };
        proof {
            lemma_node_views_at(self.nodes@, i as int);
        }
        let region_len = new_metadata.region.len();
        if new_metadata.uptime_commitment > MAX_UPTIME_COMMITMENT || region_len > MAX_REGION_LEN {
            return Err(ContractError::InvalidMetadata);
        }
        let old_node = &self.nodes[i];
        let node = RelayNode {
            address: old_node.address,
            stake: old_node.stake,
            status: old_node.status,
            metadata: new_metadata,
            registered_at: old_node.registered_at,
            last_active: old_node.last_active,
        };
        self.store_node(i, node);
        Ok(())
    }

    /// Adds `amount` to a node's stake; the node becomes active once its
    /// stake reaches the minimum.
    pub fn stake(&mut self, node_address: AccountId, amount: i128, ledger: Ledger) -> (r: Result<
        (),
        ContractError,
    >)
        requires
            old(self).wf(),
        ensures
            final(self).wf(),
            !old(self)@.nodes.contains_key(node_address) ==> r == Err::<(), ContractError>(
                ContractError::NotRegistered,
            ),
            old(self)@.nodes.contains_key(node_address) ==> match stake_outcome(
                old(self)@.nodes[node_address],
                amount,
                old(self)@.min_stake,
                ledger,
            ) {
                Err(e) => r == Err::<(), ContractError>(e),
                Ok(n) => r is Ok && final(self)@ == (RegistryView {
                    nodes: old(self)@.nodes.insert(node_address, n),
                    ..old(self)@
                }),
            },
            r is Err ==> final(self)@ == old(self)@,
    {
        let i = match position_of(&self.nodes, &node_address) {
            Some(i) => i,
            None => {
                return Err(ContractError::NotRegistered);
            },
        };
        proof {
            lemma_node_views_at(self.nodes@, i as int);
        }
        let mut node = self.nodes[i].duplicate();
        match node.status {
            NodeStatus::Slashed => {
                return Err(ContractError::NodeSlashed);
            },
            _ => {},
        }
        if amount <= 0 {
            return Err(ContractError::InsufficientStake);
        }
        let new_stake = match node.stake.checked_add(amount) {
            Some(s) => s,
            None => {
                return Err(ContractError::Overflow);
            },
        };
        if new_stake >= self.min_stake {
            node.status = NodeStatus::Active;
        }
        node.last_active = ledger.timestamp;
        node.stake = new_stake;
        self.store_node(i, node);
        Ok(())
    }

    /// Withdraws `amount` from an active node's stake into a pending
    /// withdrawal, payable once the lock period (counted in ledgers from the
    /// current ledger sequence) has passed; returns the
    /// node's new record. A pending withdrawal the node already had is
    /// replaced. The node becomes inactive when its stake falls below the
    /// minimum.
    pub fn unstake(&mut self, node_address: AccountId, amount: i128, ledger: Ledger) -> (r: Result<
        RelayNode,
        ContractError,
    >)
        requires
            old(self).wf(),
        ensures
            final(self).wf(),
            amount <= 0 ==> r == Err::<RelayNode, ContractError>(ContractError::InsufficientStake),
            amount > 0 && !old(self)@.nodes.contains_key(node_address) ==> r == Err::<
                RelayNode,
                ContractError,
            >(ContractError::NotRegistered),
            amount > 0 && old(self)@.nodes.contains_key(node_address) ==> match unstake_outcome(
                old(self)@.nodes[node_address],
                amount,
                old(self)@.min_stake,
                old(self)@.stake_lock_period,
                ledger,
            ) {
                Err(e) => r == Err::<RelayNode, ContractError>(e),
                Ok((n, entry)) => (r matches Ok(x) && x@ == n) && final(self)@ == (
                RegistryView {
                    nodes: old(self)@.nodes.insert(node_address, n),
                    pending: old(self)@.pending.insert(node_address, entry),
                    ..old(self)@
                }),
            },
            r is Err ==> final(self)@ == old(self)@,
    {
        if amount <= 0 {
            return Err(ContractError::InsufficientStake);
        }
        let i = match position_of(&self.nodes, &node_address) {
            Some(i) => i,
            None => {
                return Err(ContractError::NotRegistered);
            },
        };
        proof {
            lemma_node_views_at(self.nodes@, i as int);
        }
        let mut node = self.nodes[i].duplicate();
        match node.status {
            NodeStatus::Slashed => {
                return Err(ContractError::NodeSlashed);
            },
            NodeStatus::Active => {},
            NodeStatus::Inactive => {
                return Err(ContractError::NodeNotActive);
            },
        }
        let unlock_after: u64 = ledger.sequence as u64 + self.stake_lock_period as u64;
        if amount > node.stake {
            return Err(ContractError::InsufficientStake);
        }
        node.stake = match node.stake.checked_sub(amount) {
            Some(s) => s,
            None => {
                return Err(ContractError::Overflow);
            },
        };
        if node.stake < self.min_stake {
            node.status = NodeStatus::Inactive;
        }
        node.last_active = ledger.timestamp;
        let entry = StakeEntry { address: node_address, amount, unlocks_at: unlock_after };
        let ghost before = self.pending@;
        match position_of(&self.pending, &node_address) {
            Some(k) => {
                proof {
                    lemma_keyed_map_update(before, k as int, entry);
                }
                self.pending.set(k, entry);
            },
            None => {
                proof {
                    lemma_keyed_map_push(before, entry);
                }
                self.pending.push(entry);
            },
        }
        let result = node.duplicate();
        self.store_node(i, node);
        Ok(result)
    }

    /// Pays out a node's pending withdrawal once the ledger sequence has
    /// reached its unlock point; returns the amount owed to the node.
    pub fn finalize_unstake(&mut self, node_address: AccountId, ledger: Ledger) -> (r: Result<
        i128,
        ContractError,
    >)
        requires
            old(self).wf(),
        ensures
            final(self).wf(),
            !old(self)@.pending.contains_key(node_address) ==> r == Err::<i128, ContractError>(
                ContractError::NoPendingUnstake,
            ),
            old(self)@.pending.contains_key(node_address) && ledger.sequence < old(
                self,
            )@.pending[node_address].unlocks_at ==> r == Err::<i128, ContractError>(
                ContractError::LockPeriodActive,
            ),
            r is Err ==> final(self)@ == old(self)@,
            old(self)@.pending.contains_key(node_address) && ledger.sequence >= old(
                self,
            )@.pending[node_address].unlocks_at ==> r == Ok::<i128, ContractError>(
                old(self)@.pending[node_address].amount,
            ) && final(self)@ == (RegistryView {
                pending: old(self)@.pending.remove(node_address),
                ..old(self)@
            }),
    {
        let k = match position_of(&self.pending, &node_address) {
            Some(k) => k,
            None => {
                return Err(ContractError::NoPendingUnstake);
            },
        };
        proof {
            lemma_keyed_map_at(self.pending@, k as int);
        }
        let entry = self.pending[k];
        if (ledger.sequence as u64) < entry.unlocks_at {
            return Err(ContractError::LockPeriodActive);
        }
        self.drop_pending(k);
        Ok(entry.amount)
    }

    /// Slashes a node: its stake and any pending withdrawal are forfeited
    /// and it is marked slashed; returns the forfeited amount. The council's
    /// approval ([`Self::approves`]) is obtained beforehand.
    pub fn slash(&mut self, node_address: AccountId, reason: &[u8], ledger: Ledger) -> (r: Result<
        i128,
        ContractError,
    >)
        requires
            old(self).wf(),
        ensures
            final(self).wf(),
            !old(self)@.nodes.contains_key(node_address) ==> r == Err::<i128, ContractError>(
                ContractError::NotRegistered,
            ),
            old(self)@.nodes.contains_key(node_address) && old(self)@.nodes[node_address].status
                == NodeStatus::Slashed ==> r == Err::<i128, ContractError>(
                ContractError::NodeSlashed,
            ),
            old(self)@.nodes.contains_key(node_address) && old(self)@.nodes[node_address].status
                != NodeStatus::Slashed ==> {
                let n = old(self)@.nodes[node_address];
                if old(self)@.pending.contains_key(node_address) {
                    let owed = old(self)@.pending[node_address].amount;
                    if n.stake + owed > i128::MAX {
                        r == Err::<i128, ContractError>(ContractError::Overflow)
                    } else {
                        r == Ok::<i128, ContractError>((n.stake + owed) as i128) && final(self)@
                            == (RegistryView {
                            nodes: old(self)@.nodes.insert(node_address, slashed_node(n, ledger)),
                            pending: old(self)@.pending.remove(node_address),
                            ..old(self)@
                        })
                    }
                } else {
                    r == Ok::<i128, ContractError>(n.stake) && final(self)@ == (RegistryView {
                        nodes: old(self)@.nodes.insert(node_address, slashed_node(n, ledger)),
                        ..old(self)@
                    })
                }
            },
            r is Err ==> final(self)@ == old(self)@,
    {
        let i = match position_of(&self.nodes, &node_address) {
            Some(i) => i,
            None => {
                return Err(ContractError::NotRegistered);
            },
        };
        proof {
            lemma_node_views_at(self.nodes@, i as int);
        }
        let mut node = self.nodes[i].duplicate();
        match node.status {
            NodeStatus::Slashed => {
                return Err(ContractError::NodeSlashed);
            },
            _ => {},
        }
        let mut slashed_amount = node.stake;
        node.stake = 0;
        node.status = NodeStatus::Slashed;
        node.last_active = ledger.timestamp;
        match position_of(&self.pending, &node_address) {
            Some(k) => {
                proof {
                    lemma_keyed_map_at(self.pending@, k as int);
                }
                slashed_amount = match slashed_amount.checked_add(self.pending[k].amount) {
                    Some(total) => total,
                    None => {
                        return Err(ContractError::Overflow);
                    },
                };
                self.drop_pending(k);
            },
            None => {},
        }
        self.store_node(i, node);
        Ok(slashed_amount)
    }

    /// Moves a slashed node back to inactive; its forfeited stake is not
    /// restored. The council's approval ([`Self::approves`]) is
    /// obtained beforehand.
    pub fn reinstate_node(&mut self, node_address: AccountId, ledger: Ledger) -> (r: Result<
        (),
        ContractError,
    >)
        requires
            old(self).wf(),
        ensures
            final(self).wf(),
            !old(self)@.nodes.contains_key(node_address) ==> r == Err::<(), ContractError>(
                ContractError::NotRegistered,
            ),
            old(self)@.nodes.contains_key(node_address) && old(self)@.nodes[node_address].status
                != NodeStatus::Slashed ==> r == Err::<(), ContractError>(
                ContractError::NodeNotSlashed,
            ),
            r is Err ==> final(self)@ == old(self)@,
            old(self)@.nodes.contains_key(node_address) && old(self)@.nodes[node_address].status
                == NodeStatus::Slashed ==> r is Ok && final(self)@ == (RegistryView {
                nodes: old(self)@.nodes.insert(
                    node_address,
                    NodeView {
                        status: NodeStatus::Inactive,
                        last_active: ledger.timestamp,
                        ..old(self)@.nodes[node_address]
                    },
                ),
                ..old(self)@
            }),
    {
        let i = match position_of(&self.nodes, &node_address) {
            Some(i) => i,
            None => {
                return Err(ContractError::NotRegistered);
            },
        };
        proof {
            lemma_node_views_at(self.nodes@, i as int);
        }
        let mut node = self.nodes[i].duplicate();
        match node.status {
            NodeStatus::Slashed => {},
            _ => {
                return Err(ContractError::NodeNotSlashed);
            },
        }
        node.status = NodeStatus::Inactive;
        node.last_active = ledger.timestamp;
        self.store_node(i, node);
        Ok(())
    }

    /// Returns the record of the node at `address`.
    pub fn get_node(&self, address: AccountId) -> (r: Result<RelayNode, ContractError>)
        requires
            self.wf(),
        ensures
            r is Ok <==> self@.nodes.contains_key(address),
            r matches Ok(n) ==> n@ == self@.nodes[address],
            r matches Err(e) ==> e == ContractError::NotRegistered,
    {
        match position_of(&self.nodes, &address) {
            Some(i) => {
                proof {
                    lemma_node_views_at(self.nodes@, i as int);
                }
                Ok(self.nodes[i].duplicate())
            },
            None => Err(ContractError::NotRegistered),
        }
    }

    /// Whether `address` is a registered node in active status.
    pub fn is_active(&self, address: AccountId) -> (r: bool)
        requires
            self.wf(),
        ensures
            r == (self@.nodes.contains_key(address) && self@.nodes[address].status
                == NodeStatus::Active),
    {
        match position_of(&self.nodes, &address) {
            Some(i) => {
                proof {
                    lemma_node_views_at(self.nodes@, i as int);
                }
                match self.nodes[i].status {
                    NodeStatus::Active => true,
                    _ => false,
                }
            },
            None => false,
        }
    }

    /// Returns the pending withdrawal of the node at `address`, if any.
    pub fn pending_unstake(&self, address: AccountId) -> (r: Option<StakeEntry>)
        requires
            self.wf(),
        ensures
            r == (if self@.pending.contains_key(address) {
                Some(self@.pending[address])
            } else {
                None
            }),
    {
        match position_of(&self.pending, &address) {
            Some(k) => {
                proof {
                    lemma_keyed_map_at(self.pending@, k as int);
                }
                Some(self.pending[k])
            },
            None => None,
        }
    }
}

} // verus!
