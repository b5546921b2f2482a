//! Properties of the dispute resolver that hold across its operations.
//!
//! Every operation keeps `wf`, so what `wf` implies holds of every state
//! the contract can reach.

use vstd::prelude::*;

use crate::account::AccountId;
use crate::dispute_resolver::contract::{
    new_dispute, resolution, response, DisputeResolverContract, ResolverView,
};
use crate::dispute_resolver::errors::ContractError;
use crate::council::CouncilView;
use crate::dispute_resolver::types::{
    resolver_council_valid, Dispute, DisputeStatus, Ledger, OptionalRelayChainProof, RelayChainProof,
    Ruling, RulingReason,
};

verus! {

/// In every reachable state, disputes are numbered `1..=dispute_count`, each
/// record carries its own identifier, its two parties differ, a ruling is
/// stored exactly for the resolved disputes and names the dispute's two
/// parties, one as winner and the other as loser, and a counter-proof is
/// present exactly when the respondent has answered.
pub proof fn lemma_records_consistent(c: &DisputeResolverContract, id: u64)
    requires
        c.wf(),
    ensures
        c@.disputes.contains_key(id) <==> 1 <= id <= c@.dispute_count,
        c@.rulings.contains_key(id) ==> c@.disputes.contains_key(id),
        c@.disputes.contains_key(id) ==> {
            let d = c@.disputes[id];
            &&& d.dispute_id == id
            &&& d.initiator != d.respondent
            &&& d.status != DisputeStatus::Expired
            &&& (d.status == DisputeStatus::Resolved <==> c@.rulings.contains_key(id))
            &&& (d.status == DisputeStatus::Open ==> d.respondent_proof
                is NotSubmitted)
            &&& (d.status == DisputeStatus::Responded ==> d.respondent_proof
                is Submitted)
        },
        c@.rulings.contains_key(id) ==> {
            let d = c@.disputes[id];
            let r = c@.rulings[id];
            &&& r.dispute_id == id
            &&& r.winner != r.loser
            &&& ((r.winner == d.initiator && r.loser == d.respondent) || (r.winner == d.respondent
                && r.loser == d.initiator))
        },
{
    c.lemma_view_facts(id);
}

/// No two disputes concern the same transaction.
pub proof fn lemma_one_dispute_per_transaction(c: &DisputeResolverContract, id1: u64, id2: u64)
    requires
        c.wf(),
        c@.disputes.contains_key(id1),
        c@.disputes.contains_key(id2),
        id1 != id2,
    ensures
        c@.disputes[id1].tx_id != c@.disputes[id2].tx_id,
{
    c.lemma_distinct_transactions(id1, id2);
}

/// A resolved dispute is final: no response is accepted and no second
/// ruling is issued, whoever calls and whenever.
pub proof fn lemma_resolved_is_final(
    d: Dispute,
    caller: AccountId,
    ledger: Ledger,
    initiator_valid: bool,
    respondent_valid: bool,
)
    requires
        d.status == DisputeStatus::Resolved,
    ensures
        response(d, caller, ledger) is Err,
        resolution(d, ledger, initiator_valid, respondent_valid) == Err::<Ruling, ContractError>(
            ContractError::DisputeAlreadyResolved,
        ),
{
}

/// Every ruling names the dispute's two parties, one as winner and the other
/// as loser; with both proofs valid, the winner's relay chain sequence is
/// the lower one (the initiator's on a tie); an unanswered dispute goes to
/// the initiator.
pub proof fn lemma_ruling_names_both_parties(
    d: Dispute,
    ledger: Ledger,
    initiator_valid: bool,
    respondent_valid: bool,
)
    requires
        d.initiator != d.respondent,
    ensures
        resolution(d, ledger, initiator_valid, respondent_valid) matches Ok(r) ==> {
            &&& r.dispute_id == d.dispute_id
            &&& r.resolved_at == ledger.timestamp
            &&& r.winner != r.loser
            &&& ((r.winner == d.initiator && r.loser == d.respondent) || (r.winner == d.respondent
                && r.loser == d.initiator))
            &&& (d.status == DisputeStatus::Open ==> r.winner == d.initiator)
            &&& (d.respondent_proof matches OptionalRelayChainProof::Submitted(p)
                ==> (initiator_valid && respondent_valid && d.status == DisputeStatus::Responded
                ==> (r.winner == d.initiator <==> d.initiator_proof.sequence <= p.sequence)))
        },
{
}

/// After a ruling is stored, reading it back gives that ruling, and the
/// dispute reads as resolved.
pub proof fn lemma_ruling_read_back(s: ResolverView, id: u64, ruling: Ruling)
    requires
        s.disputes.contains_key(id),
    ensures
        s.with_ruling(id, ruling).rulings.contains_key(id),
        s.with_ruling(id, ruling).rulings[id] == ruling,
        s.with_ruling(id, ruling).disputes[id].status == DisputeStatus::Resolved,
        forall|other: u64|
            other != id ==> s.with_ruling(id, ruling).disputes.contains_key(other)
                == s.disputes.contains_key(other) && s.with_ruling(id, ruling).disputes[other]
                == s.disputes[other] && s.with_ruling(id, ruling).rulings.contains_key(other)
                == s.rulings.contains_key(other) && s.with_ruling(id, ruling).rulings[other]
                == s.rulings[other],
{
}

/// At every ledger an open dispute is in exactly one of two phases: the
/// named respondent may still respond, or the dispute may be resolved in
/// the initiator's favour.
pub proof fn lemma_open_dispute_phases(
    d: Dispute,
    ledger: Ledger,
    initiator_valid: bool,
    respondent_valid: bool,
)
    requires
        d.status == DisputeStatus::Open,
    ensures
        response(d, d.respondent, ledger) is Ok <==> resolution(
            d,
            ledger,
            initiator_valid,
            respondent_valid,
        ) == Err::<Ruling, ContractError>(ContractError::ResolutionWindowActive),
        response(d, d.respondent, ledger) is Err ==> resolution(
            d,
            ledger,
            initiator_valid,
            respondent_valid,
        ) is Ok,
{
}

/// What the contract gives up at the end of an invocation
/// (`into_records`) is rebuilt, unchanged, at the start of the next
/// (`from_records`).
pub proof fn lemma_records_round_trip(c: DisputeResolverContract)
    requires
        c.wf(),
    ensures
        DisputeResolverContract::restored(DisputeResolverContract::records_of(c)) == Some(c),
{
    DisputeResolverContract::lemma_assembled_records_of(c);
}

/// An answered dispute can be resolved at any later ledger, however long
/// after its response deadline: as soon as one of the two signatures holds,
/// resolving succeeds, and the winner, loser and reason are the same at every
/// ledger. With both signatures valid the lower relay chain sequence wins,
/// the initiator's on a tie.
pub proof fn lemma_responded_dispute_resolves_at_any_ledger(
    d: Dispute,
    counter_proof: RelayChainProof,
    l1: Ledger,
    l2: Ledger,
    initiator_valid: bool,
    respondent_valid: bool,
)
    requires
        d.status == DisputeStatus::Responded,
        d.respondent_proof == OptionalRelayChainProof::Submitted(counter_proof),
        initiator_valid || respondent_valid,
    ensures
        resolution(d, l1, initiator_valid, respondent_valid) matches Ok(r1) && resolution(
            d,
            l2,
            initiator_valid,
            respondent_valid,
        ) matches Ok(r2) && r1.winner == r2.winner && r1.loser == r2.loser && r1.reason
            == r2.reason && r1.dispute_id == d.dispute_id && r1.resolved_at == l1.timestamp,
        initiator_valid && respondent_valid && d.initiator_proof.sequence <= counter_proof.sequence
            ==> resolution(d, l1, true, true) == Ok::<Ruling, ContractError>(
            Ruling {
                dispute_id: d.dispute_id,
                winner: d.initiator,
                loser: d.respondent,
                reason: RulingReason::InitiatorLowerSequence,
                resolved_at: l1.timestamp,
            },
        ),
        initiator_valid && respondent_valid && d.initiator_proof.sequence > counter_proof.sequence
            ==> resolution(d, l1, true, true) == Ok::<Ruling, ContractError>(
            Ruling {
                dispute_id: d.dispute_id,
                winner: d.respondent,
                loser: d.initiator,
                reason: RulingReason::RespondentLowerSequence,
                resolved_at: l1.timestamp,
            },
        ),
{
}

/// A dispute raised at `ledger` under a resolution window `window` may be
/// answered by its respondent up to and including ledger sequence
/// `ledger.sequence + window`, and not after: its deadline is the raising
/// ledger's sequence plus the configured window.
pub proof fn lemma_new_dispute_deadline(
    id: u64,
    initiator: AccountId,
    respondent: AccountId,
    tx_id: [u8; 32],
    proof: RelayChainProof,
    ledger: Ledger,
    window: u32,
    later: Ledger,
)
    ensures
        new_dispute(id, initiator, respondent, tx_id, proof, ledger, window).resolve_by
            == ledger.sequence + window,
        new_dispute(id, initiator, respondent, tx_id, proof, ledger, window).status
            == DisputeStatus::Open,
        response(new_dispute(id, initiator, respondent, tx_id, proof, ledger, window), respondent, later)
            is Ok <==> later.sequence <= ledger.sequence + window,
{
}

/// The dispute resolver accepts exactly the councils whose threshold is
/// positive and at most its number of members, with at most ten members:
/// any such threshold, majority or not.
pub proof fn lemma_accepted_councils(c: CouncilView)
    ensures
        resolver_council_valid(c) <==> (0 < c.threshold && c.threshold <= c.members.len()
            && c.members.len() <= 10),
{
}

} // verus!
