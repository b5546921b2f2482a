//! Properties of the relay registry that hold across its operations.
//!
//! Every operation keeps `wf`, so what `wf` implies holds of every state
//! the registry can reach.

use vstd::prelude::*;

use crate::account::AccountId;
use crate::council::{approved_by, council_config_valid, CouncilView};
use crate::relay_registry::contract::{
    records_consistent, slashed_node, stake_outcome, unstake_outcome,
    RegistryView, RelayRegistryContract,
};
use crate::relay_registry::types::{Ledger, NodeStatus, NodeView};

verus! {

/// What the registry owes the node at `a`: its stake plus its pending
/// withdrawal.
pub open spec fn owed(v: RegistryView, a: AccountId) -> int {
    (if v.nodes.contains_key(a) {
        v.nodes[a].stake as int
    } else {
        0
    }) + (if v.pending.contains_key(a) {
        v.pending[a].amount as int
    } else {
        0
    })
}

/// In every reachable state, no stake is negative, a slashed node holds no
/// stake and no pending withdrawal, and every pending withdrawal is a
/// positive amount owed to a registered node.
pub proof fn lemma_records_consistent(c: &RelayRegistryContract, a: AccountId)
    requires
        c.wf(),
    ensures
        c@.nodes.contains_key(a) ==> c@.nodes[a].address == a && c@.nodes[a].stake >= 0,
        c@.nodes.contains_key(a) && c@.nodes[a].status == NodeStatus::Slashed ==> c@.nodes[a].stake
            == 0 && !c@.pending.contains_key(a),
        c@.pending.contains_key(a) ==> c@.pending[a].amount > 0 && c@.pending[a].address == a
            && c@.nodes.contains_key(a),
        owed(c@, a) >= 0,
{
    c.lemma_wf_consistent();
    assert(records_consistent(c@));
    if c@.nodes.contains_key(a) {
    }
    if c@.pending.contains_key(a) {
    }
}

/// Staking adds exactly the staked amount to what the node is owed.
pub proof fn lemma_stake_adds_amount(v: RegistryView, a: AccountId, amount: i128, ledger: Ledger)
    requires
        v.nodes.contains_key(a),
        v.nodes[a].address == a,
    ensures
        stake_outcome(v.nodes[a], amount, v.min_stake, ledger) matches Ok(n) ==> {
            &&& n.address == a
            &&& owed(RegistryView { nodes: v.nodes.insert(a, n), ..v }, a) == owed(v, a) + amount
        },
{
}

/// Withdrawing stake moves it into the pending withdrawal without changing
/// what the node is owed, provided the node had no pending withdrawal (an
/// earlier one is replaced by the new one).
pub proof fn lemma_unstake_keeps_owed(v: RegistryView, a: AccountId, amount: i128, ledger: Ledger)
    requires
        v.nodes.contains_key(a),
        v.nodes[a].address == a,
        !v.pending.contains_key(a),
    ensures
        unstake_outcome(v.nodes[a], amount, v.min_stake, v.stake_lock_period, ledger) matches Ok(
            (n, entry),
        ) ==> {
            &&& entry.address == a
            &&& entry.amount == amount
            &&& owed(
                RegistryView { nodes: v.nodes.insert(a, n), pending: v.pending.insert(a, entry), ..v },
                a,
            ) == owed(v, a)
        },
{
    match unstake_outcome(v.nodes[a], amount, v.min_stake, v.stake_lock_period, ledger) {
        Ok((n, entry)) => {
            let w = RegistryView {
                nodes: v.nodes.insert(a, n),
                pending: v.pending.insert(a, entry),
                ..v
            };
            assert(w.nodes[a] == n);
            assert(w.pending[a] == entry);
        },
        Err(_) => {},
    }
}

/// A pending withdrawal, once paid out, leaves the node owed its stake only.
pub proof fn lemma_finalize_pays_pending(v: RegistryView, a: AccountId)
    requires
        v.pending.contains_key(a),
    ensures
        owed(RegistryView { pending: v.pending.remove(a), ..v }, a) == owed(v, a)
            - v.pending[a].amount,
{
}

/// Slashing forfeits everything the node is owed: the forfeited amount is
/// its stake plus its pending withdrawal, and afterwards it is owed nothing.
pub proof fn lemma_slash_forfeits_all(v: RegistryView, a: AccountId, ledger: Ledger)
    requires
        v.nodes.contains_key(a),
    ensures
        owed(
            RegistryView {
                nodes: v.nodes.insert(a, slashed_node(v.nodes[a], ledger)),
                pending: v.pending.remove(a),
                ..v
            },
            a,
        ) == 0,
        v.pending.contains_key(a) ==> owed(v, a) == v.nodes[a].stake + v.pending[a].amount,
        !v.pending.contains_key(a) ==> owed(v, a) == v.nodes[a].stake,
{
}

/// A withdrawal made at `ledger` becomes payable exactly when the ledger
/// sequence has advanced by the lock period, and pays the amount withdrawn.
pub proof fn lemma_unstake_then_finalize(
    n: NodeView,
    amount: i128,
    min_stake: i128,
    lock_period: u32,
    ledger: Ledger,
    later: Ledger,
)
    ensures
        unstake_outcome(n, amount, min_stake, lock_period, ledger) matches Ok((m, entry)) ==> {
            &&& entry.amount == amount
            &&& entry.unlocks_at == ledger.sequence + lock_period
            &&& (later.sequence >= entry.unlocks_at <==> later.sequence >= ledger.sequence
                + lock_period)
            &&& m.stake == n.stake - amount
        },
{
}

/// Reinstating a slashed node gives it no stake back.
pub proof fn lemma_reinstated_node_has_no_stake(c: &RelayRegistryContract, a: AccountId)
    requires
        c.wf(),
        c@.nodes.contains_key(a),
        c@.nodes[a].status == NodeStatus::Slashed,
    ensures
        (NodeView { status: NodeStatus::Inactive, ..c@.nodes[a] }).stake == 0,
{
    lemma_records_consistent(c, a);
}

/// Any `threshold` distinct council members approve a council action,
/// whichever members they are; fewer distinct members never do.
pub proof fn lemma_any_threshold_members_approve(c: CouncilView, approvers: Seq<AccountId>)
    requires
        council_config_valid(c),
        approvers.no_duplicates(),
        forall|i: int| 0 <= i < approvers.len() ==> c.members.contains(#[trigger] approvers[i]),
    ensures
        approvers.len() == c.threshold ==> approved_by(c, approvers),
        approvers.len() < c.threshold ==> !approved_by(c, approvers),
{
}

/// Once the minimum stake is set, no operation leaves an active node with
/// less than the minimum stake: staking activates only at the minimum,
/// withdrawing below it deactivates, slashing and reinstatement leave the
/// node not active.
pub proof fn lemma_active_nodes_hold_min_stake(
    n: NodeView,
    amount: i128,
    min_stake: i128,
    lock_period: u32,
    ledger: Ledger,
)
    requires
        n.status == NodeStatus::Active ==> n.stake >= min_stake,
    ensures
        stake_outcome(n, amount, min_stake, ledger) matches Ok(m) ==> (m.status
            == NodeStatus::Active ==> m.stake >= min_stake),
        unstake_outcome(n, amount, min_stake, lock_period, ledger) matches Ok((m, _e)) ==> (m.status
            == NodeStatus::Active ==> m.stake >= min_stake),
        slashed_node(n, ledger).status != NodeStatus::Active,
{
}

/// What the registry gives up at the end of an invocation
/// (`into_records`) is rebuilt, unchanged, at the start of the next
/// (`from_records`).
pub proof fn lemma_records_round_trip(c: RelayRegistryContract)
    requires
        c.wf(),
    ensures
        RelayRegistryContract::restored(RelayRegistryContract::records_of(c)) == Some(c),
{
    RelayRegistryContract::lemma_assembled_records_of(c);
}

/// A node that is not slashed may always add stake, whether or not it is
/// already active: every positive amount that does not overflow is accepted
/// and added in full, an active node stays active, and a node whose stake
/// reaches the minimum becomes active.
pub proof fn lemma_stake_accepts_any_top_up(n: NodeView, amount: i128, min_stake: i128, ledger: Ledger)
    requires
        n.status != NodeStatus::Slashed,
        amount > 0,
        n.stake + amount <= i128::MAX,
    ensures
        stake_outcome(n, amount, min_stake, ledger) matches Ok(m) && m.stake == n.stake + amount
            && m.address == n.address && m.metadata == n.metadata && (n.status
            == NodeStatus::Active ==> m.status == NodeStatus::Active) && (n.stake + amount
            >= min_stake ==> m.status == NodeStatus::Active),
{
}

/// An active node may withdraw any positive part of its stake, the whole of
/// it included: the stake drops by exactly the amount, the amount becomes a
/// withdrawal payable `lock_period` ledgers later, and a node left below the
/// minimum stake is no longer active.
pub proof fn lemma_unstake_accepts_up_to_whole_stake(
    n: NodeView,
    amount: i128,
    min_stake: i128,
    lock_period: u32,
    ledger: Ledger,
)
    requires
        n.status == NodeStatus::Active,
        0 < amount <= n.stake,
    ensures
        unstake_outcome(n, amount, min_stake, lock_period, ledger) matches Ok((m, e)) && m.stake
            == n.stake - amount && m.address == n.address && e.address == n.address && e.amount
            == amount && e.unlocks_at == ledger.sequence + lock_period && (m.stake < min_stake
            ==> m.status == NodeStatus::Inactive) && (m.stake >= min_stake ==> m.status
            == NodeStatus::Active),
        amount == n.stake ==> (unstake_outcome(n, amount, min_stake, lock_period, ledger) matches Ok(
            (m, e),
        ) && m.stake == 0 && e.amount == n.stake),
{
}

} // verus!
