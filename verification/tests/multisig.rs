use ed25519_dalek::{Signer, SigningKey};
use invoicelift::ident::Symbol;
use invoicelift::multisig::{
    configure, is_expired, record_signature, status, submit_signature, VerificationLedger,
    DEFAULT_TIMEOUT_SECS,
};
use rand::rngs::OsRng;

const INVOICE: Symbol = Symbol { head: 0x494e_5631_0000_0000_0000_0000_0000_0000, tail: 0 };
const MESSAGE: &[u8] = b"invoice INV1 amount 50000";

fn keypair() -> ([u8; 32], SigningKey) {
    let mut csprng = OsRng;
    let signing_key = SigningKey::generate(&mut csprng);
    (signing_key.verifying_key().to_bytes(), signing_key)
}

fn sign(signing_key: &SigningKey, msg: &[u8]) -> [u8; 64] {
    signing_key.sign(msg).to_bytes()
}

fn setup(required: u32) -> (VerificationLedger, Vec<([u8; 32], SigningKey)>) {
    let signers = vec![keypair(), keypair(), keypair()];
    let keys: Vec<[u8; 32]> = signers.iter().map(|s| s.0).collect();
    let mut ledger = VerificationLedger::new();
    configure(&mut ledger, 0, INVOICE, required, keys);
    (ledger, signers)
}

#[test]
fn valid_signature_from_configured_signer_is_accepted() {
    let (mut ledger, signers) = setup(2);
    let sig = sign(&signers[0].1, MESSAGE);
    assert!(ledger.awaits(0, INVOICE, &signers[0].0));
    let reached = submit_signature(&mut ledger, 0, INVOICE, signers[0].0, MESSAGE, &sig).unwrap();
    assert!(!reached);
    let state = status(&ledger, INVOICE);
    assert_eq!(state.collected.len(), 1);
    assert!(!state.verified);
}

#[test]
fn quorum_reached_exactly_at_m_signatures_flips_state_to_verified() {
    let (mut ledger, signers) = setup(2);
    let sig0 = sign(&signers[0].1, MESSAGE);
    let reached0 = submit_signature(&mut ledger, 0, INVOICE, signers[0].0, MESSAGE, &sig0).unwrap();
    assert!(!reached0);

    let sig1 = sign(&signers[1].1, MESSAGE);
    let reached1 = submit_signature(&mut ledger, 0, INVOICE, signers[1].0, MESSAGE, &sig1).unwrap();
    assert!(reached1);

    let state = status(&ledger, INVOICE);
    assert!(state.verified);
    assert_eq!(state.collected.len(), 2);
}

#[test]
fn quorum_not_reached_before_deadline_stays_pending() {
    let (mut ledger, signers) = setup(2);
    let sig = sign(&signers[0].1, MESSAGE);
    submit_signature(&mut ledger, 0, INVOICE, signers[0].0, MESSAGE, &sig);

    assert!(!is_expired(&ledger, 0, INVOICE));
    let state = status(&ledger, INVOICE);
    assert!(!state.verified);
}

#[test]
fn a_tampered_message_is_not_counted() {
    let (mut ledger, signers) = setup(1);
    let sig = sign(&signers[0].1, MESSAGE);
    let tampered: &[u8] = b"invoice INV1 amount 99999";
    assert_eq!(submit_signature(&mut ledger, 0, INVOICE, signers[0].0, tampered, &sig), None);
    assert!(status(&ledger, INVOICE).collected.is_empty());
    assert!(!status(&ledger, INVOICE).verified);
    assert_eq!(
        submit_signature(&mut ledger, 0, INVOICE, signers[0].0, MESSAGE, &sig),
        Some(true)
    );
}

#[test]
fn a_tampered_signature_is_not_counted() {
    let (mut ledger, signers) = setup(1);
    let mut sig = sign(&signers[0].1, MESSAGE);
    sig[0] ^= 0xFF;
    assert_eq!(submit_signature(&mut ledger, 0, INVOICE, signers[0].0, MESSAGE, &sig), None);
    assert!(status(&ledger, INVOICE).collected.is_empty());
}

#[test]
fn a_signature_of_another_key_is_not_counted() {
    let (mut ledger, signers) = setup(1);
    let sig = sign(&signers[1].1, MESSAGE);
    assert_eq!(submit_signature(&mut ledger, 0, INVOICE, signers[0].0, MESSAGE, &sig), None);
}

#[test]
fn bytes_that_are_no_key_verify_nothing() {
    let mut ledger = VerificationLedger::new();
    let mut no_point = [0u8; 32];
    no_point[0] = 2;
    configure(&mut ledger, 0, INVOICE, 1, vec![no_point]);
    assert_eq!(submit_signature(&mut ledger, 0, INVOICE, no_point, MESSAGE, &[0; 64]), None);
}

#[test]
fn only_known_signers_are_awaited_each_once() {
    let (mut ledger, signers) = setup(2);
    let (unknown, _) = keypair();
    assert!(!ledger.awaits(0, INVOICE, &unknown));
    assert!(ledger.awaits(0, INVOICE, &signers[2].0));
    let sig = sign(&signers[2].1, MESSAGE);
    submit_signature(&mut ledger, 0, INVOICE, signers[2].0, MESSAGE, &sig);
    assert!(!ledger.awaits(0, INVOICE, &signers[2].0));
    assert!(ledger.awaits(0, INVOICE, &signers[1].0));
}

#[test]
fn nothing_is_awaited_after_the_deadline() {
    let (ledger, signers) = setup(2);
    assert!(ledger.awaits(DEFAULT_TIMEOUT_SECS, INVOICE, &signers[0].0));
    assert!(!is_expired(&ledger, DEFAULT_TIMEOUT_SECS, INVOICE));
    assert!(!ledger.awaits(DEFAULT_TIMEOUT_SECS + 1, INVOICE, &signers[0].0));
    assert!(is_expired(&ledger, DEFAULT_TIMEOUT_SECS + 1, INVOICE));
    assert_eq!(status(&ledger, INVOICE).deadline, 7 * 86_400);
}

#[test]
fn nothing_is_awaited_once_complete() {
    let (mut ledger, signers) = setup(1);
    assert_eq!(record_signature(&mut ledger, 3, INVOICE, signers[0].0, true), Some(true));
    assert!(!ledger.awaits(4, INVOICE, &signers[1].0));
    assert!(!is_expired(&ledger, u64::MAX, INVOICE));
}

#[test]
fn an_invalid_signature_leaves_the_signer_awaited() {
    let (mut ledger, signers) = setup(2);
    assert_eq!(record_signature(&mut ledger, 3, INVOICE, signers[0].0, false), None);
    assert!(ledger.awaits(4, INVOICE, &signers[0].0));
    assert_eq!(record_signature(&mut ledger, 4, INVOICE, signers[0].0, true), Some(false));
    assert_eq!(status(&ledger, INVOICE).collected, vec![signers[0].0]);
}

#[test]
fn configuring_again_opens_a_new_window() {
    let (mut ledger, signers) = setup(2);
    record_signature(&mut ledger, 0, INVOICE, signers[0].0, true);
    configure(&mut ledger, 50, INVOICE, 1, vec![signers[0].0]);
    assert_eq!(status(&ledger, INVOICE).deadline, 50 + DEFAULT_TIMEOUT_SECS);
    assert!(ledger.awaits(50, INVOICE, &signers[0].0));
    assert!(!ledger.awaits(50, INVOICE, &signers[1].0));
    let other = Symbol { head: 1, tail: 0 };
    assert!(ledger.is_configured(INVOICE));
    assert!(!ledger.is_configured(other));
}
