//! The dispute resolver's state and operations.
//!
//! Authorization of the caller, the ledger clock, signature verification and
//! event publication belong to the host; each operation here takes their
//! outcome as arguments and decides what the contract answers and stores.

use vstd::prelude::*;

use crate::account::{same_bytes32, AccountId};
use crate::dispute_resolver::errors::ContractError;
use crate::dispute_resolver::types::{
    resolver_council_valid, AdminCouncil, CouncilView, Dispute, DisputeStatus, Ledger, OptionalRelayChainProof,
    PublicKeyEntry, RelayChainProof, MAX_COUNCIL_MEMBERS, Ruling, RulingReason, SignatureCheck,
};
use crate::keyed::{
    keyed_map, keys_are_unique, lemma_keyed_map_at, lemma_keyed_map_push, lemma_keyed_map_update, position_of,
    unique_keys,
};

verus! {

/// What the dispute resolver holds, seen as mathematical values.
pub struct ResolverView {
    /// The admin council, once the contract is initialized.
    pub council: Option<CouncilView>,
    /// Number of ledgers a respondent has to respond (zero until set).
    pub resolution_window: u32,
    /// Number of disputes raised so far; their identifiers are `1..=dispute_count`.
    pub dispute_count: nat,
    /// Every dispute, by identifier.
    pub disputes: Map<u64, Dispute>,
    /// Every ruling, by dispute identifier.
    pub rulings: Map<u64, Ruling>,
    /// The Ed25519 public key registered for each account.
    pub public_keys: Map<AccountId, [u8; 32]>,
}

impl ResolverView {
    /// Some dispute concerns the transaction `tx_id`.
    pub open spec fn tx_disputed(self, tx_id: [u8; 32]) -> bool {
        exists|id: u64| #[trigger] self.disputes.contains_key(id) && self.disputes[id].tx_id == tx_id
    }

    /// The state after dispute `id` is resolved with `ruling`.
    pub open spec fn with_ruling(self, id: u64, ruling: Ruling) -> ResolverView {
        ResolverView {
            disputes: self.disputes.insert(
                id,
                Dispute { status: DisputeStatus::Resolved, ..self.disputes[id] },
            ),
            rulings: self.rulings.insert(id, ruling),
            ..self
        }
    }
}

/// The dispute record created by a successful `raise_dispute`.
pub open spec fn new_dispute(
    id: u64,
    initiator: AccountId,
    respondent: AccountId,
    tx_id: [u8; 32],
    proof: RelayChainProof,
    ledger: Ledger,
    resolution_window: u32,
) -> Dispute {
    Dispute {
        dispute_id: id,
        tx_id,
        initiator,
        respondent,
        initiator_proof: proof,
        respondent_proof: OptionalRelayChainProof::NotSubmitted,
        status: DisputeStatus::Open,
        raised_at: ledger.timestamp,
        resolve_by: (ledger.sequence + resolution_window) as u64,
    }
}

/// The answer to a response by `respondent` to dispute `d` at `ledger`.
pub open spec fn response(d: Dispute, respondent: AccountId, ledger: Ledger) -> Result<
    (),
    ContractError,
> {
    if d.respondent != respondent {
        Err(ContractError::UnauthorizedRespondent)
    } else if d.status != DisputeStatus::Open {
        Err(ContractError::NotOpen)
    } else if ledger.sequence > d.resolve_by {
        Err(ContractError::ResolutionWindowExpired)
    } else {
        Ok(())
    }
}

/// Who wins and why, given the verdicts on both signatures of a responded
/// dispute; `None` when neither signature holds.
pub open spec fn verdict(
    d: Dispute,
    counter_proof: RelayChainProof,
    initiator_valid: bool,
    respondent_valid: bool,
) -> Option<(AccountId, AccountId, RulingReason)> {
    if initiator_valid && !respondent_valid {
        Some((d.initiator, d.respondent, RulingReason::InitiatorProofOnly))
    } else if !initiator_valid && respondent_valid {
        Some((d.respondent, d.initiator, RulingReason::RespondentProofOnly))
    } else if initiator_valid && respondent_valid {
        if d.initiator_proof.sequence <= counter_proof.sequence {
            Some((d.initiator, d.respondent, RulingReason::InitiatorLowerSequence))
        } else {
            Some((d.respondent, d.initiator, RulingReason::RespondentLowerSequence))
        }
    } else {
        None
    }
}

/// The answer to resolving dispute `d` at `ledger`, given the verdicts on the
/// signatures of both proofs.
pub open spec fn resolution(
    d: Dispute,
    ledger: Ledger,
    initiator_valid: bool,
    respondent_valid: bool,
) -> Result<Ruling, ContractError> {
    if d.status == DisputeStatus::Resolved {
        Err(ContractError::DisputeAlreadyResolved)
    } else if d.status == DisputeStatus::Open {
        if ledger.sequence <= d.resolve_by {
            Err(ContractError::ResolutionWindowActive)
        } else {
            Ok(
                Ruling {
                    dispute_id: d.dispute_id,
                    winner: d.initiator,
                    loser: d.respondent,
                    reason: RulingReason::NoResponse,
                    resolved_at: ledger.timestamp,
                },
            )
        }
    } else if d.status != DisputeStatus::Responded {
        Err(ContractError::NotResponded)
    } else {
        match d.respondent_proof {
            OptionalRelayChainProof::NotSubmitted => Err(ContractError::NotResponded),
            OptionalRelayChainProof::Submitted(p) => match verdict(
                d,
                p,
                initiator_valid,
                respondent_valid,
            ) {
                None => Err(ContractError::InvalidProofSignature),
                Some((winner, loser, reason)) => Ok(
                    Ruling {
                        dispute_id: d.dispute_id,
                        winner,
                        loser,
                        reason,
                        resolved_at: ledger.timestamp,
                    },
                ),
            },
        }
    }
}

/// The contract's records as they are kept between invocations:
/// `disputes[i]` and `rulings[i]` belong to the dispute with identifier
/// `i + 1`.
pub struct ResolverRecords {
    pub council: Option<AdminCouncil>,
    pub resolution_window: u32,
    pub disputes: Vec<Dispute>,
    pub rulings: Vec<Option<Ruling>>,
    pub public_keys: Vec<PublicKeyEntry>,
}

/// The state of the dispute resolver contract.
pub struct DisputeResolverContract {
    council: Option<AdminCouncil>,
    resolution_window: u32,
    /// `disputes[i]` is the dispute with identifier `i + 1`.
    disputes: Vec<Dispute>,
    /// `rulings[i]` is the ruling of the dispute with identifier `i + 1`.
    rulings: Vec<Option<Ruling>>,
    public_keys: Vec<PublicKeyEntry>,
}

/// The ruling stored at a position, if any.
pub open spec fn stored_ruling(r: Option<Ruling>) -> Ruling {
    match r {
        Some(x) => x,
        None => arbitrary(),
    }
}

impl View for DisputeResolverContract {
    type V = ResolverView;

    closed spec fn view(&self) -> ResolverView {
        ResolverView {
            council: match self.council {
                Some(c) => Some(c@),
                None => None,
            },
            resolution_window: self.resolution_window,
            dispute_count: self.disputes@.len(),
            disputes: Map::new(
                |id: u64| 1 <= id <= self.disputes@.len(),
                |id: u64| self.disputes@[id - 1],
            ),
            rulings: Map::new(
                |id: u64| 1 <= id <= self.rulings@.len() && self.rulings@[id - 1] is Some,
                |id: u64| stored_ruling(self.rulings@[id - 1]),
            ),
            public_keys: keyed_map(self.public_keys@).map_values(
                |e: PublicKeyEntry| e.public_key,
            ),
        }
    }
}

impl DisputeResolverContract {
    /// The representation invariant, which holds of every reachable state.
    pub closed spec fn wf(&self) -> bool {
        let ds = self.disputes@;
        let rs = self.rulings@;
        &&& stored_council_valid(self.council)
        &&& ds.len() == rs.len()
        &&& unique_keys(self.public_keys@)
        &&& forall|i: int| 0 <= i < ds.len() ==> #[trigger] ds[i].dispute_id == i + 1
        &&& forall|i: int| 0 <= i < ds.len() ==> dispute_consistent(#[trigger] ds[i], rs[i])
        &&& forall|i: int, j: int|
            0 <= i < ds.len() && 0 <= j < ds.len() && i != j ==> #[trigger] ds[i].tx_id
                != #[trigger] ds[j].tx_id
    }

    /// The contract state made of `records`.
    pub closed spec fn assembled(records: ResolverRecords) -> DisputeResolverContract {
        DisputeResolverContract {
            council: records.council,
            resolution_window: records.resolution_window,
            disputes: records.disputes,
            rulings: records.rulings,
            public_keys: records.public_keys,
        }
    }

    /// The records that make up `c`.
    pub closed spec fn records_of(c: DisputeResolverContract) -> ResolverRecords {
        ResolverRecords {
            council: c.council,
            resolution_window: c.resolution_window,
            disputes: c.disputes,
            rulings: c.rulings,
            public_keys: c.public_keys,
        }
    }

    /// What rebuilding from `records` gives: the state they make up, when
    /// it is one the contract can reach.
    pub open spec fn restored(records: ResolverRecords) -> Option<DisputeResolverContract> {
        if Self::assembled(records).wf() {
            Some(Self::assembled(records))
        } else {
            None
        }
    }

    /// Records taken from a state rebuild that state.
    pub proof fn lemma_assembled_records_of(c: DisputeResolverContract)
        ensures
            Self::assembled(Self::records_of(c)) == c,
    {
    }

    /// Rebuilds the contract from its kept records; `None` when the records
    /// do not form a state the contract can reach.
    pub fn from_records(records: ResolverRecords) -> (r: Option<DisputeResolverContract>)
        ensures
            r == Self::restored(records),
    {
        let c = DisputeResolverContract {
            council: records.council,
            resolution_window: records.resolution_window,
            disputes: records.disputes,
            rulings: records.rulings,
            public_keys: records.public_keys,
        };
        if c.check_wf() {
            Some(c)
        } else {
            None
        }
    }

    /// Gives up the contract's records, to be kept until the next invocation.
    pub fn into_records(self) -> (r: ResolverRecords)
        ensures
            r == Self::records_of(self),
    {
        ResolverRecords {
            council: self.council,
            resolution_window: self.resolution_window,
            disputes: self.disputes,
            rulings: self.rulings,
            public_keys: self.public_keys,
        }
    }

    /// Whether the representation invariant holds.
    fn check_wf(&self) -> (r: bool)
        ensures
            r == self.wf(),
    {
        match &self.council {
            Some(c) => {
                if c.threshold == 0 || c.members.len() < c.threshold as usize || c.members.len()
                    > MAX_COUNCIL_MEMBERS {
                    return false;
                }
            },
            None => {},
        }
        if self.disputes.len() != self.rulings.len() {
            return false;
        }
        if !keys_are_unique(&self.public_keys) {
            return false;
        }
        let n = self.disputes.len();
        let mut i: usize = 0;
        while i < n
            invariant
                stored_council_valid(self.council),
                n == self.disputes@.len(),
                n == self.rulings@.len(),
                0 <= i <= n,
                forall|k: int| 0 <= k < i ==> #[trigger] self.disputes@[k].dispute_id == k + 1,
                forall|k: int|
                    0 <= k < i ==> dispute_consistent(#[trigger] self.disputes@[k], self.rulings@[k]),
            decreases n - i,
        {
            let d = self.disputes[i];
            if d.dispute_id as u128 != i as u128 + 1 {
                return false;
            }
            if !consistency_holds(&d, &self.rulings[i]) {
                return false;
            }
            i = i + 1;
        }
        let mut p: usize = 0;
        while p < n
            invariant
                n == self.disputes@.len(),
                0 <= p <= n,
                forall|a: int, b: int|
                    0 <= a < p && 0 <= b < n && a != b ==> #[trigger] self.disputes@[a].tx_id
                        != #[trigger] self.disputes@[b].tx_id,
            decreases n - p,
        {
            let mut q: usize = 0;
            while q < n
                invariant
                    n == self.disputes@.len(),
                    0 <= p < n,
                    0 <= q <= n,
                    forall|b: int|
                        0 <= b < q && b != p ==> self.disputes@[p as int].tx_id
                            != #[trigger] self.disputes@[b].tx_id,
                decreases n - q,
            {
                if q != p && same_bytes32(&self.disputes[p].tx_id, &self.disputes[q].tx_id) {
                    return false;
                }
                q = q + 1;
            }
            p = p + 1;
        }
        true
    }

    /// What the invariant says of the dispute with identifier `id`.
    pub proof fn lemma_view_facts(&self, id: u64)
        requires
            self.wf(),
        ensures
            self@.disputes.contains_key(id) <==> 1 <= id <= self@.dispute_count,
            self@.rulings.contains_key(id) ==> self@.disputes.contains_key(id),
            self@.disputes.contains_key(id) ==> dispute_consistent(
                self@.disputes[id],
                if self@.rulings.contains_key(id) {
                    Some(self@.rulings[id])
                } else {
                    None
                },
            ) && self@.disputes[id].dispute_id == id,
    {
        if self@.disputes.contains_key(id) {
            let i = id - 1;
            assert(dispute_consistent(self.disputes@[i], self.rulings@[i]));
        }
    }

    /// The invariant keeps transaction ids distinct.
    pub proof fn lemma_distinct_transactions(&self, id1: u64, id2: u64)
        requires
            self.wf(),
            self@.disputes.contains_key(id1),
            self@.disputes.contains_key(id2),
            id1 != id2,
        ensures
            self@.disputes[id1].tx_id != self@.disputes[id2].tx_id,
    {
        let i = id1 - 1;
        let j = id2 - 1;
        assert(self.disputes@[i].tx_id != self.disputes@[j].tx_id);
    }

    /// An empty, uninitialized contract.
    pub fn new() -> (r: DisputeResolverContract)
        ensures
            r.wf(),
            r@.council is None,
            r@.resolution_window == 0,
            r@.dispute_count == 0,
            r@.disputes == Map::<u64, Dispute>::empty(),
            r@.rulings == Map::<u64, Ruling>::empty(),
            r@.public_keys == Map::<AccountId, [u8; 32]>::empty(),
    {
        let r = DisputeResolverContract {
            council: None,
            resolution_window: 0,
            disputes: Vec::new(),
            rulings: Vec::new(),
            public_keys: Vec::new(),
        };
        proof {
            assert(r@.disputes =~= Map::<u64, Dispute>::empty());
            assert(r@.rulings =~= Map::<u64, Ruling>::empty());
            assert(r@.public_keys =~= Map::<AccountId, [u8; 32]>::empty());
        }
        r
    }

    /// The admin council has been set.
    pub fn is_initialized(&self) -> (r: bool)
        ensures
            r == (self@.council is Some),
    {
        self.council.is_some()
    }

    /// Returns the number of disputes raised so far.
    pub fn dispute_count(&self) -> (r: u64)
        requires
            self.wf(),
        ensures
            r == self@.dispute_count,
    {
        let n = self.disputes.len();
        if n > 0 {
            let last = self.disputes[n - 1].dispute_id;
            proof {
                assert(self.disputes@[n - 1].dispute_id == n);
            }
            last
        } else {
            0
        }
    }

    /// Returns the number of ledgers a respondent has to respond.
    pub fn resolution_window(&self) -> (r: u32)
        ensures
            r == self@.resolution_window,
    {
        self.resolution_window
    }

    /// Returns the admin council, once set.
    pub fn admin_council(&self) -> (r: Option<&AdminCouncil>)
        ensures
            match r {
                Some(c) => self@.council == Some(c@),
                None => self@.council is None,
            },
    {
        match &self.council {
            Some(c) => Some(c),
            None => None,
        }
    }

    /// One-time setup: records the admin council and the resolution window.
    pub fn initialize(&mut self, council: AdminCouncil, resolution_window: u32) -> (r: Result<
        (),
        ContractError,
    >)
        requires
            old(self).wf(),
        ensures
            final(self).wf(),
            old(self)@.council is Some ==> r == Err::<(), ContractError>(
                ContractError::AlreadyInitialized,
            ),
            old(self)@.council is None && resolution_window == 0 ==> r == Err::<(), ContractError>(
                ContractError::InvalidConfig,
            ),
            old(self)@.council is None && resolution_window != 0 && !resolver_council_valid(
                council@,
            ) ==> r == Err::<(), ContractError>(ContractError::InvalidCouncilConfig),
            r is Err ==> final(self)@ == old(self)@,
            old(self)@.council is None && resolution_window != 0 && resolver_council_valid(council@)
                ==> r is Ok && final(self)@ == (ResolverView {
                council: Some(council@),
                resolution_window,
                ..old(self)@
            }),
    {
        if self.council.is_some() {
            return Err(ContractError::AlreadyInitialized);
        }
        if resolution_window == 0 {
            return Err(ContractError::InvalidConfig);
        }
        if council.threshold == 0 || council.members.len() < council.threshold as usize
            || council.members.len() > MAX_COUNCIL_MEMBERS {
            return Err(ContractError::InvalidCouncilConfig);
        }
        self.council = Some(council);
        self.resolution_window = resolution_window;
        proof {
            assert(final(self)@.disputes =~= old(self)@.disputes);
            assert(final(self)@.rulings =~= old(self)@.rulings);
        }
        Ok(())
    }

    /// Registers (or replaces) the Ed25519 public key of `account`.
    pub fn set_public_key(&mut self, account: AccountId, public_key: [u8; 32])
        requires
            old(self).wf(),
        ensures
            final(self).wf(),
            final(self)@ == (ResolverView {
                public_keys: old(self)@.public_keys.insert(account, public_key),
                ..old(self)@
            }),
    {
        let entry = PublicKeyEntry { account, public_key };
        let ghost before = self.public_keys@;
        match position_of(&self.public_keys, &account) {
            Some(i) => {
                self.public_keys.set(i, entry);
                proof {
                    lemma_keyed_map_update(before, i as int, entry);
                }
            },
            None => {
                self.public_keys.push(entry);
                proof {
                    lemma_keyed_map_push(before, entry);
                }
            },
        }
        proof {
            assert(final(self)@.public_keys =~= old(self)@.public_keys.insert(account, public_key));
            assert(final(self)@.disputes =~= old(self)@.disputes);
            assert(final(self)@.rulings =~= old(self)@.rulings);
        }
    }

    /// Returns the Ed25519 public key registered for `account`, if any.
    pub fn public_key(&self, account: &AccountId) -> (r: Option<[u8; 32]>)
        requires
            self.wf(),
        ensures
            r == (if self@.public_keys.contains_key(*account) {
                Some(self@.public_keys[*account])
            } else {
                None
            }),
    {
        match position_of(&self.public_keys, account) {
            Some(i) => {
                proof {
                    lemma_keyed_map_at(self.public_keys@, i as int);
                }
                Some(self.public_keys[i].public_key)
            },
            None => None,
        }
    }

    /// Returns the identifier of the dispute raised over `tx_id`, if any.
    pub fn dispute_by_tx(&self, tx_id: &[u8; 32]) -> (r: Option<u64>)
        requires
            self.wf(),
        ensures
            match r {
                Some(id) => self@.disputes.contains_key(id) && self@.disputes[id].tx_id == *tx_id,
                None => !self@.tx_disputed(*tx_id),
            },
    {
        let mut i: usize = 0;
        while i < self.disputes.len()
            invariant
                self.wf(),
                0 <= i <= self.disputes@.len(),
                forall|j: int| 0 <= j < i ==> #[trigger] self.disputes@[j].tx_id != *tx_id,
            decreases self.disputes@.len() - i,
        {
            if same_bytes32(&self.disputes[i].tx_id, tx_id) {
                return Some(self.disputes[i].dispute_id);
            }
            i = i + 1;
        }
        proof {
            assert forall|id: u64| #[trigger] self@.disputes.contains_key(id) implies self@.disputes[id].tx_id
                != *tx_id by {
                assert(self.disputes@[id - 1].tx_id != *tx_id);
            }
        }
        None
    }

    /// Raises a dispute over transaction `tx_id` against `respondent`, with
    /// the initiator's proof; returns the new dispute's identifier. The
    /// response deadline is the current ledger sequence plus the resolution
    /// window.
    pub fn raise_dispute(
        &mut self,
        initiator: AccountId,
        respondent: AccountId,
        tx_id: [u8; 32],
        proof: RelayChainProof,
        ledger: Ledger,
    ) -> (r: Result<u64, ContractError>)
        requires
            old(self).wf(),
            initiator != respondent && !old(self)@.tx_disputed(tx_id) ==> old(self)@.dispute_count
                < u64::MAX && ledger.sequence + old(self)@.resolution_window <= u32::MAX,
        ensures
            final(self).wf(),
            initiator == respondent ==> r == Err::<u64, ContractError>(
                ContractError::InvalidRespondent,
            ),
            initiator != respondent && old(self)@.tx_disputed(tx_id) ==> r == Err::<
                u64,
                ContractError,
            >(ContractError::DuplicateDispute),
            r is Err ==> final(self)@ == old(self)@,
            initiator != respondent && !old(self)@.tx_disputed(tx_id) ==> {
                let id = (old(self)@.dispute_count + 1) as u64;
                &&& r == Ok::<u64, ContractError>(id)
                &&& final(self)@ == (ResolverView {
                    dispute_count: old(self)@.dispute_count + 1,
                    disputes: old(self)@.disputes.insert(
                        id,
                        new_dispute(
                            id,
                            initiator,
                            respondent,
                            tx_id,
                            proof,
                            ledger,
                            old(self)@.resolution_window,
                        ),
                    ),
                    ..old(self)@
                })
            },
    {
        if initiator.same_as(&respondent) {
            return Err(ContractError::InvalidRespondent);
        }
        if self.dispute_by_tx(&tx_id).is_some() {
            return Err(ContractError::DuplicateDispute);
        }
        let dispute_id = self.disputes.len() as u64 + 1;
        let resolve_by = ledger.sequence + self.resolution_window;
        let dispute = Dispute {
            dispute_id,
            tx_id,
            initiator,
            respondent,
            initiator_proof: proof,
            respondent_proof: OptionalRelayChainProof::NotSubmitted,
            status: DisputeStatus::Open,
            raised_at: ledger.timestamp,
            resolve_by: resolve_by as u64,
        };
        let ghost ds = self.disputes@;
        self.disputes.push(dispute);
        self.rulings.push(None);
        proof {
            let ds2 = self.disputes@;
            assert forall|i: int, j: int|
                0 <= i < ds2.len() && 0 <= j < ds2.len() && i != j implies #[trigger] ds2[i].tx_id
                != #[trigger] ds2[j].tx_id by {
                if i < ds.len() && j < ds.len() {
                } else if i < ds.len() {
                    assert(old(self)@.disputes.contains_key((i + 1) as u64));
                } else {
                    assert(old(self)@.disputes.contains_key((j + 1) as u64));
                }
            }
            assert(final(self)@.disputes =~= old(self)@.disputes.insert(dispute_id, dispute));
            assert(final(self)@.rulings =~= old(self)@.rulings);
        }
        Ok(dispute_id)
    }

    /// Records the respondent's counter-proof on an open dispute whose
    /// response deadline has not passed.
    pub fn respond(
        &mut self,
        respondent: AccountId,
        dispute_id: u64,
        proof: RelayChainProof,
        ledger: Ledger,
    ) -> (r: Result<(), ContractError>)
        requires
            old(self).wf(),
        ensures
            final(self).wf(),
            !old(self)@.disputes.contains_key(dispute_id) ==> r == Err::<(), ContractError>(
                ContractError::DisputeNotFound,
            ),
            old(self)@.disputes.contains_key(dispute_id) ==> r == response(
                old(self)@.disputes[dispute_id],
                respondent,
                ledger,
            ),
            r is Err ==> final(self)@ == old(self)@,
            r is Ok ==> final(self)@ == (ResolverView {
                disputes: old(self)@.disputes.insert(
                    dispute_id,
                    Dispute {
                        respondent_proof: OptionalRelayChainProof::Submitted(proof),
                        status: DisputeStatus::Responded,
                        ..old(self)@.disputes[dispute_id]
                    },
                ),
                ..old(self)@
            }),
    {
        if dispute_id == 0 || dispute_id as u128 > self.disputes.len() as u128 {
            return Err(ContractError::DisputeNotFound);
        }
        let i = (dispute_id - 1) as usize;
        let mut dispute = self.disputes[i];
        if !dispute.respondent.same_as(&respondent) {
            return Err(ContractError::UnauthorizedRespondent);
        }
        match dispute.status {
            DisputeStatus::Open => {},
            _ => {
                return Err(ContractError::NotOpen);
            },
        }
        if ledger.sequence as u64 > dispute.resolve_by {
            return Err(ContractError::ResolutionWindowExpired);
        }
        dispute.respondent_proof = OptionalRelayChainProof::Submitted(proof);
        dispute.status = DisputeStatus::Responded;
        self.disputes.set(i, dispute);
        proof {
            assert(final(self)@.disputes =~= old(self)@.disputes.insert(dispute_id, dispute));
            assert(final(self)@.rulings =~= old(self)@.rulings);
        }
        Ok(())
    }

    /// Issues the final ruling of a dispute.
    ///
    /// An open dispute whose response deadline has passed goes to the
    /// initiator. A responded dispute is decided by the verdicts on the two
    /// signatures (`initiator_valid` for the initiator's proof,
    /// `respondent_valid` for the counter-proof, each checked against the
    /// signer's registered key as [`Self::signature_checks`] lists them):
    /// a single valid proof wins; with both valid the lower relay chain
    /// sequence wins, the initiator on a tie; with neither valid there is no
    /// ruling.
    ///
    /// The verdicts come from the host's signature check, which aborts the
    /// whole invocation on a rejected signature: the deployed contract only
    /// ever reaches this function with both verdicts valid, so a responded
    /// dispute with a bad signature is never resolved there. The other
    /// verdict pairs decide the ruling as the table above says.
    pub fn resolve(
        &mut self,
        dispute_id: u64,
        ledger: Ledger,
        initiator_valid: bool,
        respondent_valid: bool,
    ) -> (r: Result<Ruling, ContractError>)
        requires
            old(self).wf(),
        ensures
            final(self).wf(),
            !old(self)@.disputes.contains_key(dispute_id) ==> r == Err::<Ruling, ContractError>(
                ContractError::DisputeNotFound,
            ),
            old(self)@.disputes.contains_key(dispute_id) ==> r == resolution(
                old(self)@.disputes[dispute_id],
                ledger,
                initiator_valid,
                respondent_valid,
            ),
            r is Err ==> final(self)@ == old(self)@,
            r matches Ok(ruling) ==> final(self)@ == old(self)@.with_ruling(dispute_id, ruling),
    {
        if dispute_id == 0 || dispute_id as u128 > self.disputes.len() as u128 {
            return Err(ContractError::DisputeNotFound);
        }
        let i = (dispute_id - 1) as usize;
        let mut dispute = self.disputes[i];
        let current_sequence = ledger.sequence as u64;
        let ruling = match dispute.status {
            DisputeStatus::Resolved => {
                return Err(ContractError::DisputeAlreadyResolved);
            },
            DisputeStatus::Open => {
                if current_sequence <= dispute.resolve_by {
                    return Err(ContractError::ResolutionWindowActive);
                }
                Ruling {
                    dispute_id,
                    winner: dispute.initiator,
                    loser: dispute.respondent,
                    reason: RulingReason::NoResponse,
                    resolved_at: ledger.timestamp,
                }
            },
            DisputeStatus::Expired => {
                return Err(ContractError::NotResponded);
            },
            DisputeStatus::Responded => {
                let counter_proof = match dispute.respondent_proof {
                    OptionalRelayChainProof::Submitted(p) => p,
                    OptionalRelayChainProof::NotSubmitted => {
                        return Err(ContractError::NotResponded);
                    },
                };
                let (winner, loser, reason) = if initiator_valid && !respondent_valid {
                    (dispute.initiator, dispute.respondent, RulingReason::InitiatorProofOnly)
                } else if !initiator_valid && respondent_valid {
                    (dispute.respondent, dispute.initiator, RulingReason::RespondentProofOnly)
                } else if initiator_valid && respondent_valid {
                    if dispute.initiator_proof.sequence <= counter_proof.sequence {
                        (dispute.initiator, dispute.respondent, RulingReason::InitiatorLowerSequence)
                    } else {
                        (
                            dispute.respondent,
                            dispute.initiator,
                            RulingReason::RespondentLowerSequence,
                        )
                    }
                } else {
                    return Err(ContractError::InvalidProofSignature);
                };
                Ruling { dispute_id, winner, loser, reason, resolved_at: ledger.timestamp }
            },
        };
        dispute.status = DisputeStatus::Resolved;
        self.disputes.set(i, dispute);
        self.rulings.set(i, Some(ruling));
        proof {
            assert(final(self)@.disputes =~= old(self)@.with_ruling(dispute_id, ruling).disputes);
            assert(final(self)@.rulings =~= old(self)@.with_ruling(dispute_id, ruling).rulings);
        }
        Ok(ruling)
    }

    /// Lists the two signature checks that resolving dispute `dispute_id`
    /// depends on: the initiator's proof, then the counter-proof, each
    /// against its signer's registered key. There are none unless the
    /// dispute has been responded to.
    pub fn signature_checks(&self, dispute_id: u64) -> (r: Option<(SignatureCheck, SignatureCheck)>)
        requires
            self.wf(),
        ensures
            match r {
                Some((ci, cr)) => {
                    &&& self@.disputes.contains_key(dispute_id)
                    &&& self@.disputes[dispute_id].status == DisputeStatus::Responded
                    &&& self@.disputes[dispute_id].respondent_proof matches
                        OptionalRelayChainProof::Submitted(p) && {
                        &&& ci == signature_check(
                            self@,
                            self@.disputes[dispute_id].initiator,
                            self@.disputes[dispute_id].initiator_proof,
                        )
                        &&& cr == signature_check(self@, self@.disputes[dispute_id].respondent, p)
                    }
                },
                None => !self@.disputes.contains_key(dispute_id) || self@.disputes[dispute_id].status
                    != DisputeStatus::Responded,
            },
    {
        if dispute_id == 0 || dispute_id as u128 > self.disputes.len() as u128 {
            return None;
        }
        let dispute = self.disputes[(dispute_id - 1) as usize];
        match dispute.status {
            DisputeStatus::Responded => {},
            _ => {
                return None;
            },
        }
        match dispute.respondent_proof {
            OptionalRelayChainProof::Submitted(p) => {
                let ci = SignatureCheck {
                    signer: dispute.initiator,
                    public_key: self.public_key(&dispute.initiator),
                    message: dispute.initiator_proof.chain_hash,
                    signature: dispute.initiator_proof.signature,
                };
                let cr = SignatureCheck {
                    signer: dispute.respondent,
                    public_key: self.public_key(&dispute.respondent),
                    message: p.chain_hash,
                    signature: p.signature,
                };
                Some((ci, cr))
            },
            OptionalRelayChainProof::NotSubmitted => None,
        }
    }

    /// Returns the dispute with identifier `dispute_id`.
    pub fn get_dispute(&self, dispute_id: u64) -> (r: Result<Dispute, ContractError>)
        requires
            self.wf(),
        ensures
            r == (if self@.disputes.contains_key(dispute_id) {
                Ok(self@.disputes[dispute_id])
            } else {
                Err(ContractError::DisputeNotFound)
            }),
    {
        if dispute_id == 0 || dispute_id as u128 > self.disputes.len() as u128 {
            return Err(ContractError::DisputeNotFound);
        }
        Ok(self.disputes[(dispute_id - 1) as usize])
    }

    /// Returns the ruling of the dispute with identifier `dispute_id`.
    pub fn get_ruling(&self, dispute_id: u64) -> (r: Result<Ruling, ContractError>)
        requires
            self.wf(),
        ensures
            r == (if self@.rulings.contains_key(dispute_id) {
                Ok(self@.rulings[dispute_id])
            } else {
                Err(ContractError::DisputeNotFound)
            }),
    {
        if dispute_id == 0 || dispute_id as u128 > self.rulings.len() as u128 {
            return Err(ContractError::DisputeNotFound);
        }
        match self.rulings[(dispute_id - 1) as usize] {
            Some(r) => Ok(r),
            None => Err(ContractError::DisputeNotFound),
        }
    }
}

/// The check of `proof`'s signature over its chain hash against the key
/// registered for `signer`.
pub open spec fn signature_check(s: ResolverView, signer: AccountId, proof: RelayChainProof) -> SignatureCheck {
    SignatureCheck {
        signer,
        public_key: if s.public_keys.contains_key(signer) {
            Some(s.public_keys[signer])
        } else {
            None
        },
        message: proof.chain_hash,
        signature: proof.signature,
    }
}

/// A stored council is one `initialize` accepts.
pub open spec fn stored_council_valid(c: Option<AdminCouncil>) -> bool {
    match c {
        Some(c) => resolver_council_valid(c@),
        None => true,
    }
}

/// A stored dispute agrees with its stored ruling: the ruling exists exactly
/// when the dispute is resolved and names the two parties as winner and
/// loser; the parties differ; the counter-proof is there exactly when the
/// respondent has answered.
pub open spec fn dispute_consistent(d: Dispute, r: Option<Ruling>) -> bool {
    &&& d.initiator != d.respondent
    &&& d.status != DisputeStatus::Expired
    &&& (d.status == DisputeStatus::Resolved <==> r is Some)
    &&& (d.status == DisputeStatus::Open ==> d.respondent_proof is NotSubmitted)
    &&& (d.status == DisputeStatus::Responded ==> d.respondent_proof is Submitted)
    &&& match r {
        Some(x) => {
            &&& x.dispute_id == d.dispute_id
            &&& ((x.winner == d.initiator && x.loser == d.respondent) || (x.winner == d.respondent
                && x.loser == d.initiator))
        },
        None => true,
    }
}

/// Whether a stored dispute agrees with its stored ruling.
fn consistency_holds(d: &Dispute, r: &Option<Ruling>) -> (b: bool)
    ensures
        b == dispute_consistent(*d, *r),
{
    if d.initiator.same_as(&d.respondent) {
        return false;
    }
    let proof_given = match d.respondent_proof {
        OptionalRelayChainProof::Submitted(_) => true,
        OptionalRelayChainProof::NotSubmitted => false,
    };
    match d.status {
        DisputeStatus::Expired => {
            return false;
        },
        DisputeStatus::Open => {
            if proof_given {
                return false;
            }
        },
        DisputeStatus::Responded => {
            if !proof_given {
                return false;
            }
        },
        DisputeStatus::Resolved => {},
    }
    let resolved = match d.status {
        DisputeStatus::Resolved => true,
        _ => false,
    };
    match r {
        None => !resolved,
        Some(x) => {
            resolved && x.dispute_id == d.dispute_id && ((x.winner.same_as(&d.initiator)
                && x.loser.same_as(&d.respondent)) || (x.winner.same_as(&d.respondent)
                && x.loser.same_as(&d.initiator)))
        },
    }
}

} // verus!
