//! Rulings on responded disputes and the self-dispute guard.

#![allow(dead_code, unused_imports)]

use conduit_contracts::account::AccountId;
use conduit_contracts::dispute_resolver::contract::DisputeResolverContract;
use conduit_contracts::dispute_resolver::errors::ContractError;
use conduit_contracts::dispute_resolver::types::{
    AdminCouncil, DisputeStatus, Ledger, RelayChainProof, Ruling, SignatureCheck,
};
use ed25519_dalek::{Signature, Signer, SigningKey, VerifyingKey};

/// A distinct account address for each tag.
fn address(tag: u8) -> AccountId {
    let mut strkey = [b'A'; 56];
    strkey[0] = b'G';
    strkey[54] = b'A' + tag / 26;
    strkey[55] = b'A' + tag % 26;
    AccountId::from_strkey(strkey)
}

/// The contract and the ledger it runs against.
struct Harness {
    contract: DisputeResolverContract,
    ledger: Ledger,
}

/// Why an invocation failed: the contract answered an error, or the host
/// aborted it (a rejected signature, a missing key).
#[derive(Debug, PartialEq)]
enum Failure {
    Contract(ContractError),
    Host,
}

/// Unwraps a contract answer as a contract client does: an error aborts
/// with the error's code.
fn contract_ok<T>(r: Result<T, ContractError>) -> T {
    match r {
        Ok(v) => v,
        Err(e) => panic!("Error(Contract, #{})", e.code()),
    }
}

fn council_of(admin: AccountId) -> AdminCouncil {
    AdminCouncil { members: vec![admin], threshold: 1 }
}

fn setup() -> Harness {
    let mut contract = DisputeResolverContract::new();
    let admin = address(0);
    contract_ok(contract.initialize(council_of(admin), 100u32));
    Harness { contract, ledger: Ledger { sequence: 0, timestamp: 0 } }
}

fn setup_disputants(h: &mut Harness) -> (AccountId, AccountId, SigningKey, SigningKey) {
    let initiator = address(1);
    let respondent = address(2);

    let initiator_sk = SigningKey::from_bytes(&[1u8; 32]);
    let initiator_pk: [u8; 32] = initiator_sk.verifying_key().to_bytes();

    let respondent_sk = SigningKey::from_bytes(&[2u8; 32]);
    let respondent_pk: [u8; 32] = respondent_sk.verifying_key().to_bytes();

    h.contract.set_public_key(initiator, initiator_pk);
    h.contract.set_public_key(respondent, respondent_pk);

    (initiator, respondent, initiator_sk, respondent_sk)
}

fn create_proof(sk: &SigningKey, chain_hash_bytes: &[u8; 32], sequence: u64) -> RelayChainProof {
    let sig = sk.sign(chain_hash_bytes.as_slice());
    RelayChainProof { signature: sig.to_bytes(), chain_hash: *chain_hash_bytes, sequence }
}

/// Checks a signature as the host does; a rejected signature or a missing
/// key aborts the invocation.
fn host_check(check: &SignatureCheck) -> Result<(), Failure> {
    let key = check.public_key.ok_or(Failure::Host)?;
    let key = VerifyingKey::from_bytes(&key).map_err(|_| Failure::Host)?;
    key.verify_strict(&check.message, &Signature::from_bytes(&check.signature))
        .map_err(|_| Failure::Host)
}

fn try_resolve(h: &mut Harness, dispute_id: u64) -> Result<Ruling, Failure> {
    if let Some((initiator_check, respondent_check)) = h.contract.signature_checks(dispute_id) {
        host_check(&initiator_check)?;
        host_check(&respondent_check)?;
    }
    h.contract.resolve(dispute_id, h.ledger, true, true).map_err(Failure::Contract)
}

fn resolve(h: &mut Harness, dispute_id: u64) -> Ruling {
    match try_resolve(h, dispute_id) {
        Ok(r) => r,
        Err(Failure::Contract(e)) => panic!("Error(Contract, #{})", e.code()),
        Err(Failure::Host) => panic!("HostError: Error(Crypto, InvalidInput)"),
    }
}

#[test]
fn test_resolve_both_valid_initiator_wins() {
    let mut h = setup();
    let (initiator, respondent, init_sk, resp_sk) = setup_disputants(&mut h);

    let tx_id = [9u8; 32];
    let chain_hash = [8u8; 32];

    // Initiator proof: seq 10 (lower = better)
    let init_proof = create_proof(&init_sk, &chain_hash, 10);
    let dispute_id =
        contract_ok(h.contract.raise_dispute(initiator, respondent, tx_id, init_proof, h.ledger));

    // Respondent proof: seq 15
    let resp_proof = create_proof(&resp_sk, &chain_hash, 15);
    contract_ok(h.contract.respond(respondent, dispute_id, resp_proof, h.ledger));

    // Both sigs valid. Initiator seq 10 <= Respondent seq 15. Initiator wins.
    let ruling = resolve(&mut h, dispute_id);
    assert_eq!(ruling.winner, initiator);
    assert_eq!(ruling.loser, respondent);
}

#[test]
fn test_resolve_both_valid_respondent_wins() {
    let mut h = setup();
    let (initiator, respondent, init_sk, resp_sk) = setup_disputants(&mut h);

    let tx_id = [9u8; 32];
    let chain_hash = [8u8; 32];

    // Initiator proof: seq 20
    let init_proof = create_proof(&init_sk, &chain_hash, 20);
    let dispute_id =
        contract_ok(h.contract.raise_dispute(initiator, respondent, tx_id, init_proof, h.ledger));

    // Respondent proof: seq 15 (lower = better)
    let resp_proof = create_proof(&resp_sk, &chain_hash, 15);
    contract_ok(h.contract.respond(respondent, dispute_id, resp_proof, h.ledger));

    // Both sigs valid. Respondent seq 15 < Initiator seq 20. Respondent wins.
    let ruling = resolve(&mut h, dispute_id);
    assert_eq!(ruling.winner, respondent);
    assert_eq!(ruling.loser, initiator);
}

#[test]
fn test_resolve_initiator_valid_respondent_invalid() {
    let mut h = setup();
    let (initiator, respondent, init_sk, _) = setup_disputants(&mut h);

    let tx_id = [9u8; 32];
    let chain_hash = [8u8; 32];

    // Initiator proof: valid signature
    let init_proof = create_proof(&init_sk, &chain_hash, 20);
    let dispute_id =
        contract_ok(h.contract.raise_dispute(initiator, respondent, tx_id, init_proof, h.ledger));

    // Respondent proof: invalid signature (bad bytes)
    let resp_proof = RelayChainProof {
        signature: [0u8; 64], // All zeros is invalid Ed25519
        chain_hash,
        sequence: 10, // Normally they'd win, but bad sig means they lose
    };
    contract_ok(h.contract.respond(respondent, dispute_id, resp_proof, h.ledger));

    let result = try_resolve(&mut h, dispute_id);
    // The rejected signature aborts the invocation
    assert!(result.is_err());
}

#[test]
fn test_resolve_both_invalid() {
    let mut h = setup();
    let (initiator, respondent, _, _) = setup_disputants(&mut h);

    let tx_id = [9u8; 32];
    let chain_hash = [8u8; 32];

    // Initiator proof: invalid
    let init_proof = RelayChainProof { signature: [0u8; 64], chain_hash, sequence: 10 };
    let dispute_id =
        contract_ok(h.contract.raise_dispute(initiator, respondent, tx_id, init_proof, h.ledger));

    // Respondent proof: invalid
    let resp_proof = RelayChainProof { signature: [0u8; 64], chain_hash, sequence: 15 };
    contract_ok(h.contract.respond(respondent, dispute_id, resp_proof, h.ledger));

    let result = try_resolve(&mut h, dispute_id);
    assert!(result.is_err());
}

#[test]
fn test_raise_dispute_self_rejection() {
    let mut h = setup();
    let (initiator, _, init_sk, _) = setup_disputants(&mut h);

    let tx_id = [9u8; 32];
    let chain_hash = [8u8; 32];
    let init_proof = create_proof(&init_sk, &chain_hash, 10);

    let result = h.contract.raise_dispute(initiator, initiator, tx_id, init_proof, h.ledger);
    assert_eq!(result, Err(ContractError::InvalidRespondent));
}
