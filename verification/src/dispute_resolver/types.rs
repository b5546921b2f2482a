//! Data kept and returned by the dispute resolver.

use vstd::prelude::*;

use crate::account::AccountId;
use crate::keyed::Keyed;

pub use crate::council::{council_config_valid, AdminCouncil, CouncilView};
pub use crate::ledger::Ledger;

verus! {

/// Largest number of members a dispute resolver council may have.
pub const MAX_COUNCIL_MEMBERS: usize = 10;

/// A council the dispute resolver accepts: a positive threshold no larger
/// than its number of members, and at most ten members.
pub open spec fn resolver_council_valid(c: CouncilView) -> bool {
    council_config_valid(c) && c.members.len() <= MAX_COUNCIL_MEMBERS
}

/// Lifecycle status of a dispute.
#[derive(Clone, Copy, Debug, PartialEq, Eq)]
pub enum DisputeStatus {
    /// Raised, awaiting a counter-proof from the respondent.
    Open,
    /// A counter-proof has been submitted, awaiting resolution.
    Responded,
    /// A final ruling has been issued.
    Resolved,
    /// The resolution window passed without a response.
    Expired,
}

/// A cryptographic proof submitted by a party in a dispute.
#[derive(Clone, Copy, Debug, PartialEq, Eq)]
pub struct RelayChainProof {
    /// Ed25519 signature of the relay chain hash.
    pub signature: [u8; 64],
    /// Hash of the relay chain at the point of signing.
    pub chain_hash: [u8; 32],
    /// Sequence number in the relay chain at signing.
    pub sequence: u64,
}

/// The respondent's counter-proof, absent until they respond.
#[derive(Clone, Copy, Debug, PartialEq, Eq)]
pub enum OptionalRelayChainProof {
    /// No proof submitted yet.
    NotSubmitted,
    /// Proof provided.
    Submitted(RelayChainProof),
}

/// The record of a raised dispute.
#[derive(Clone, Copy, Debug, PartialEq, Eq)]
pub struct Dispute {
    /// Identifier of the dispute; the first dispute has identifier 1.
    pub dispute_id: u64,
    /// The Stellar transaction id under dispute.
    pub tx_id: [u8; 32],
    /// Address that raised the dispute.
    pub initiator: AccountId,
    /// Counter-party address.
    pub respondent: AccountId,
    /// Proof from the initiator.
    pub initiator_proof: RelayChainProof,
    /// Counter-proof from the respondent; set on response.
    pub respondent_proof: OptionalRelayChainProof,
    /// Current lifecycle status.
    pub status: DisputeStatus,
    /// Ledger timestamp when the dispute was raised.
    pub raised_at: u64,
    /// Last ledger sequence at which the respondent may still respond.
    pub resolve_by: u64,
}

/// Why a ruling went the way it did.
#[derive(Clone, Copy, Debug, PartialEq, Eq)]
pub enum RulingReason {
    /// The respondent did not respond in time; the initiator wins.
    NoResponse,
    /// Only the initiator's proof is valid.
    InitiatorProofOnly,
    /// Only the respondent's proof is valid.
    RespondentProofOnly,
    /// Both proofs are valid and the initiator's sequence is lower or equal.
    InitiatorLowerSequence,
    /// Both proofs are valid and the respondent's sequence is lower.
    RespondentLowerSequence,
}

/// The human-readable explanation of each reason.
pub open spec fn reason_text(r: RulingReason) -> Seq<char> {
    match r {
        RulingReason::NoResponse => "Respondent failed to respond within the resolution window"@,
        RulingReason::InitiatorProofOnly =>
            "Initiator proof valid; respondent proof failed signature verification"@,
        RulingReason::RespondentProofOnly =>
            "Respondent proof valid; initiator proof failed signature verification"@,
        RulingReason::InitiatorLowerSequence =>
            "Both proofs valid; initiator has lower or equal sequence"@,
        RulingReason::RespondentLowerSequence =>
            "Both proofs valid; respondent has lower sequence"@,
    }
}

impl RulingReason {
    /// Returns the human-readable explanation of this reason.
    pub fn text(&self) -> (r: &'static str)
        ensures
            r@ == reason_text(*self),
    {
        match self {
            RulingReason::NoResponse => "Respondent failed to respond within the resolution window",
            RulingReason::InitiatorProofOnly =>
                "Initiator proof valid; respondent proof failed signature verification",
            RulingReason::RespondentProofOnly =>
                "Respondent proof valid; initiator proof failed signature verification",
            RulingReason::InitiatorLowerSequence =>
                "Both proofs valid; initiator has lower or equal sequence",
            RulingReason::RespondentLowerSequence =>
                "Both proofs valid; respondent has lower sequence",
        }
    }
}

/// The final outcome of a dispute, written only upon resolution.
#[derive(Clone, Copy, Debug, PartialEq, Eq)]
pub struct Ruling {
    /// The dispute this ruling belongs to.
    pub dispute_id: u64,
    /// Address that won the dispute.
    pub winner: AccountId,
    /// Address that lost and will be penalized.
    pub loser: AccountId,
    /// Why the ruling went this way.
    pub reason: RulingReason,
    /// Ledger timestamp when the ruling was issued.
    pub resolved_at: u64,
}

/// The Ed25519 public key registered for an account.
#[derive(Clone, Copy, Debug, PartialEq, Eq)]
pub struct PublicKeyEntry {
    pub account: AccountId,
    pub public_key: [u8; 32],
}

impl Keyed for PublicKeyEntry {
    open spec fn key_of(&self) -> AccountId {
        self.account
    }

    fn key(&self) -> (r: AccountId) {
        self.account
    }
}

/// One signature check that resolution depends on: the signature over the
/// chain hash, against the public key registered for the signer.
#[derive(Clone, Copy, Debug, PartialEq, Eq)]
pub struct SignatureCheck {
    /// The party whose proof is checked.
    pub signer: AccountId,
    /// The key registered for the signer, if any.
    pub public_key: Option<[u8; 32]>,
    /// The signed message: the relay chain hash of the proof.
    pub message: [u8; 32],
    /// The signature to check.
    pub signature: [u8; 64],
}

} // verus!
