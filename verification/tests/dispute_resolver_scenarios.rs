//! Integration scenarios across the dispute lifecycle.

#![allow(dead_code, unused_imports)]

use conduit_contracts::account::AccountId;
use conduit_contracts::dispute_resolver::contract::DisputeResolverContract;
use conduit_contracts::dispute_resolver::errors::ContractError;
use conduit_contracts::dispute_resolver::types::{
    AdminCouncil, DisputeStatus, Ledger, OptionalRelayChainProof, RelayChainProof, Ruling,
    SignatureCheck,
};
use ed25519_dalek::{Signature, Signer, SigningKey, VerifyingKey};

/// A distinct account address for each tag.
fn address(tag: u8) -> AccountId {
    let mut strkey = [b'A'; 56];
    strkey[0] = b'G';
    strkey[54] = b'A' + tag / 26;
    strkey[55] = b'A' + tag % 26;
    AccountId::from_strkey(strkey)
}

/// The contract and the ledger it runs against.
struct Harness {
    contract: DisputeResolverContract,
    ledger: Ledger,
}

/// Why an invocation failed: the contract answered an error, or the host
/// aborted it (a rejected signature, a missing key).
#[derive(Debug, PartialEq)]
enum Failure {
    Contract(ContractError),
    Host,
}

/// Unwraps a contract answer as a contract client does: an error aborts
/// with the error's code.
fn contract_ok<T>(r: Result<T, ContractError>) -> T {
    match r {
        Ok(v) => v,
        Err(e) => panic!("Error(Contract, #{})", e.code()),
    }
}

fn council_of(admin: AccountId) -> AdminCouncil {
    AdminCouncil { members: vec![admin], threshold: 1 }
}

fn setup() -> Harness {
    let mut contract = DisputeResolverContract::new();
    let admin = address(0);
    contract_ok(contract.initialize(council_of(admin), 100u32));
    Harness { contract, ledger: Ledger { sequence: 0, timestamp: 0 } }
}

fn setup_disputants(h: &mut Harness) -> (AccountId, AccountId, SigningKey, SigningKey) {
    let initiator = address(1);
    let respondent = address(2);

    let initiator_sk = SigningKey::from_bytes(&[1u8; 32]);
    let initiator_pk: [u8; 32] = initiator_sk.verifying_key().to_bytes();

    let respondent_sk = SigningKey::from_bytes(&[2u8; 32]);
    let respondent_pk: [u8; 32] = respondent_sk.verifying_key().to_bytes();

    h.contract.set_public_key(initiator, initiator_pk);
    h.contract.set_public_key(respondent, respondent_pk);

    (initiator, respondent, initiator_sk, respondent_sk)
}

fn create_proof(sk: &SigningKey, chain_hash_bytes: &[u8; 32], sequence: u64) -> RelayChainProof {
    let sig = sk.sign(chain_hash_bytes.as_slice());
    RelayChainProof { signature: sig.to_bytes(), chain_hash: *chain_hash_bytes, sequence }
}

/// Checks a signature as the host does; a rejected signature or a missing
/// key aborts the invocation.
fn host_check(check: &SignatureCheck) -> Result<(), Failure> {
    let key = check.public_key.ok_or(Failure::Host)?;
    let key = VerifyingKey::from_bytes(&key).map_err(|_| Failure::Host)?;
    key.verify_strict(&check.message, &Signature::from_bytes(&check.signature))
        .map_err(|_| Failure::Host)
}

fn try_resolve(h: &mut Harness, dispute_id: u64) -> Result<Ruling, Failure> {
    if let Some((initiator_check, respondent_check)) = h.contract.signature_checks(dispute_id) {
        host_check(&initiator_check)?;
        host_check(&respondent_check)?;
    }
    h.contract.resolve(dispute_id, h.ledger, true, true).map_err(Failure::Contract)
}

fn resolve(h: &mut Harness, dispute_id: u64) -> Ruling {
    match try_resolve(h, dispute_id) {
        Ok(r) => r,
        Err(Failure::Contract(e)) => panic!("Error(Contract, #{})", e.code()),
        Err(Failure::Host) => panic!("HostError: Error(Crypto, InvalidInput)"),
    }
}

#[test]
fn test_raise_dispute_creates_entry() {
    let mut h = setup();
    let (initiator, respondent, init_sk, _) = setup_disputants(&mut h);
    let tx_id = [9u8; 32];
    let chain_hash = [8u8; 32];
    let proof = create_proof(&init_sk, &chain_hash, 10);

    let dispute_id =
        contract_ok(h.contract.raise_dispute(initiator, respondent, tx_id, proof, h.ledger));

    let dispute = contract_ok(h.contract.get_dispute(dispute_id));
    assert_eq!(dispute.dispute_id, dispute_id);
    assert_eq!(dispute.status, DisputeStatus::Open);
    assert_eq!(dispute.tx_id, tx_id);
    assert_eq!(dispute.initiator, initiator);
    assert_eq!(dispute.resolve_by, h.ledger.sequence as u64 + 100);
}

#[test]
fn test_raise_dispute_tx_already_disputed() {
    let mut h = setup();
    let (initiator, respondent, init_sk, _) = setup_disputants(&mut h);
    let tx_id = [9u8; 32];
    let chain_hash = [8u8; 32];
    let proof = create_proof(&init_sk, &chain_hash, 10);

    contract_ok(h.contract.raise_dispute(initiator, respondent, tx_id, proof, h.ledger));
    let duplicate = h.contract.raise_dispute(initiator, respondent, tx_id, proof, h.ledger);
    assert_eq!(duplicate, Err(ContractError::DuplicateDispute));
}

#[test]
fn test_raise_dispute_invalid_respondent() {
    let mut h = setup();
    let (initiator, respondent, init_sk, _) = setup_disputants(&mut h);
    let tx_id = [9u8; 32];
    let chain_hash = [8u8; 32];
    let proof = create_proof(&init_sk, &chain_hash, 10);

    let dispute_id =
        contract_ok(h.contract.raise_dispute(initiator, respondent, tx_id, proof, h.ledger));
    let dispute = contract_ok(h.contract.get_dispute(dispute_id));
    // Nothing has come from the respondent yet.
    assert_eq!(dispute.respondent_proof, OptionalRelayChainProof::NotSubmitted);
    assert_eq!(dispute.initiator, initiator);
}

#[test]
fn test_respond_with_valid_proof() {
    let mut h = setup();
    let (initiator, respondent, init_sk, resp_sk) = setup_disputants(&mut h);
    let tx_id = [9u8; 32];
    let chain_hash = [8u8; 32];

    let init_proof = create_proof(&init_sk, &chain_hash, 10);
    let dispute_id =
        contract_ok(h.contract.raise_dispute(initiator, respondent, tx_id, init_proof, h.ledger));

    let resp_proof = create_proof(&resp_sk, &chain_hash, 15);
    contract_ok(h.contract.respond(respondent, dispute_id, resp_proof, h.ledger));

    let dispute = contract_ok(h.contract.get_dispute(dispute_id));
    assert_eq!(dispute.status, DisputeStatus::Responded);
    assert_eq!(dispute.respondent, respondent);
}

#[test]
fn test_respond_after_deadline() {
    let mut h = setup();
    let (initiator, respondent, init_sk, resp_sk) = setup_disputants(&mut h);
    let tx_id = [9u8; 32];
    let chain_hash = [8u8; 32];

    let init_proof = create_proof(&init_sk, &chain_hash, 10);
    let dispute_id =
        contract_ok(h.contract.raise_dispute(initiator, respondent, tx_id, init_proof, h.ledger));

    h.ledger.sequence += 101;

    let resp_proof = create_proof(&resp_sk, &chain_hash, 15);
    let result = h.contract.respond(respondent, dispute_id, resp_proof, h.ledger);
    assert_eq!(result, Err(ContractError::ResolutionWindowExpired));
}

#[test]
fn test_respond_already_resolved() {
    let mut h = setup();
    let (initiator, respondent, init_sk, resp_sk) = setup_disputants(&mut h);
    let tx_id = [9u8; 32];
    let chain_hash = [8u8; 32];

    let init_proof = create_proof(&init_sk, &chain_hash, 10);
    let dispute_id =
        contract_ok(h.contract.raise_dispute(initiator, respondent, tx_id, init_proof, h.ledger));

    let resp_proof = create_proof(&resp_sk, &chain_hash, 15);
    contract_ok(h.contract.respond(respondent, dispute_id, resp_proof, h.ledger));
    resolve(&mut h, dispute_id);

    let result = h.contract.respond(respondent, dispute_id, resp_proof, h.ledger);
    assert_eq!(result, Err(ContractError::NotOpen));
}

#[test]
fn test_resolve_selects_correct_winner() {
    let mut h = setup();
    let (initiator, respondent, init_sk, resp_sk) = setup_disputants(&mut h);
    let tx_id = [9u8; 32];
    let chain_hash = [8u8; 32];

    let init_proof = create_proof(&init_sk, &chain_hash, 20);
    let dispute_id =
        contract_ok(h.contract.raise_dispute(initiator, respondent, tx_id, init_proof, h.ledger));

    let resp_proof = create_proof(&resp_sk, &chain_hash, 15);
    contract_ok(h.contract.respond(respondent, dispute_id, resp_proof, h.ledger));

    let ruling = resolve(&mut h, dispute_id);
    assert_eq!(ruling.winner, respondent);
    assert_eq!(ruling.loser, initiator);
}

#[test]
fn test_resolve_before_response_window() {
    let mut h = setup();
    let (initiator, respondent, init_sk, _) = setup_disputants(&mut h);
    let tx_id = [9u8; 32];
    let chain_hash = [8u8; 32];

    let init_proof = create_proof(&init_sk, &chain_hash, 10);
    let dispute_id =
        contract_ok(h.contract.raise_dispute(initiator, respondent, tx_id, init_proof, h.ledger));

    let result = try_resolve(&mut h, dispute_id);
    assert_eq!(result, Err(Failure::Contract(ContractError::ResolutionWindowActive)));
}

#[test]
fn dispute_resolver_test_test_resolve_already_resolved() {
    let mut h = setup();
    let (initiator, respondent, init_sk, resp_sk) = setup_disputants(&mut h);
    let tx_id = [9u8; 32];
    let chain_hash = [8u8; 32];

    let init_proof = create_proof(&init_sk, &chain_hash, 10);
    let dispute_id =
        contract_ok(h.contract.raise_dispute(initiator, respondent, tx_id, init_proof, h.ledger));

    let resp_proof = create_proof(&resp_sk, &chain_hash, 15);
    contract_ok(h.contract.respond(respondent, dispute_id, resp_proof, h.ledger));
    resolve(&mut h, dispute_id);

    let result = try_resolve(&mut h, dispute_id);
    assert_eq!(result, Err(Failure::Contract(ContractError::DisputeAlreadyResolved)));
}

#[test]
fn test_resolve_expired_dispute() {
    let mut h = setup();
    let (initiator, respondent, init_sk, _) = setup_disputants(&mut h);
    let tx_id = [9u8; 32];
    let chain_hash = [8u8; 32];

    let init_proof = create_proof(&init_sk, &chain_hash, 10);
    let dispute_id =
        contract_ok(h.contract.raise_dispute(initiator, respondent, tx_id, init_proof, h.ledger));

    h.ledger.sequence += 101;

    let ruling = resolve(&mut h, dispute_id);
    assert_eq!(ruling.winner, initiator);
    assert_eq!(ruling.loser, respondent);
    assert!(ruling.reason.text().contains("Respondent failed to respond"));
}

#[test]
fn test_get_dispute_returns_data() {
    let mut h = setup();
    let (initiator, respondent, init_sk, _) = setup_disputants(&mut h);
    let tx_id = [9u8; 32];
    let chain_hash = [8u8; 32];

    let proof = create_proof(&init_sk, &chain_hash, 10);
    let dispute_id =
        contract_ok(h.contract.raise_dispute(initiator, respondent, tx_id, proof, h.ledger));

    let dispute = contract_ok(h.contract.get_dispute(dispute_id));
    assert_eq!(dispute.dispute_id, dispute_id);
    assert_eq!(dispute.tx_id, tx_id);
    assert_eq!(dispute.status, DisputeStatus::Open);
}

#[test]
fn dispute_resolver_test_test_get_dispute_not_found() {
    let h = setup();
    let result = h.contract.get_dispute(999u64);
    assert_eq!(result, Err(ContractError::DisputeNotFound));
}

#[test]
fn dispute_resolver_test_test_get_ruling_after_resolve() {
    let mut h = setup();
    let (initiator, respondent, init_sk, _) = setup_disputants(&mut h);
    let tx_id = [9u8; 32];
    let chain_hash = [8u8; 32];

    let proof = create_proof(&init_sk, &chain_hash, 10);
    let dispute_id =
        contract_ok(h.contract.raise_dispute(initiator, respondent, tx_id, proof, h.ledger));

    h.ledger.sequence += 101;
    let resolved = resolve(&mut h, dispute_id);
    let ruling = contract_ok(h.contract.get_ruling(dispute_id));

    assert_eq!(resolved.dispute_id, ruling.dispute_id);
    assert_eq!(resolved.winner, ruling.winner);
    assert_eq!(resolved.reason, ruling.reason);
}

#[test]
fn test_get_ruling_before_resolve() {
    let mut h = setup();
    let (initiator, respondent, init_sk, _) = setup_disputants(&mut h);
    let tx_id = [9u8; 32];
    let chain_hash = [8u8; 32];

    let proof = create_proof(&init_sk, &chain_hash, 10);
    let dispute_id =
        contract_ok(h.contract.raise_dispute(initiator, respondent, tx_id, proof, h.ledger));

    let result = h.contract.get_ruling(dispute_id);
    assert_eq!(result, Err(ContractError::DisputeNotFound));
}
