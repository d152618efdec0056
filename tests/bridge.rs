use bnb_solana_bridge::aggregator::AttestationAggregator;
use bnb_solana_bridge::attest::{count_verified_signers, mint_digest, mint_message, Attestation};
use bnb_solana_bridge::bridge::{
    add_validator, initialize, remove_validator, set_bridge_active, BridgeError, BridgeState, MAX_VALIDATORS,
};
use bnb_solana_bridge::replay::{derive_processed_key, ReplayGuard};
use bnb_solana_bridge::transfer::{bridge_from_bnb, bridge_to_bnb, TokenAccount};
use solana_sdk::signature::Keypair;
use solana_sdk::signer::Signer;

const AUTHORITY: [u8; 32] = [7u8; 32];

fn keypair(seed: u8) -> Keypair {
    Keypair::new_from_array([seed; 32])
}

fn key_of(kp: &Keypair) -> [u8; 32] {
    kp.pubkey().to_bytes()
}

fn sign(kp: &Keypair, message: &[u8]) -> [u8; 64] {
    <[u8; 64]>::from(kp.sign_message(message))
}

fn bridge_with(threshold: u8, validators: &[&Keypair]) -> BridgeState {
    let mut b = initialize(AUTHORITY, 97, threshold, 254, 253);
    for v in validators {
        add_validator(&mut b, &AUTHORITY, key_of(v)).unwrap();
    }
    b
}

fn account(owner: [u8; 32], amount: u64) -> TokenAccount {
    TokenAccount { owner, mint: [9u8; 32], amount }
}

fn attest(kp: &Keypair, digest: &[u8; 32]) -> Attestation {
    Attestation { validator: key_of(kp), signature: sign(kp, digest) }
}

#[test]
fn initialize_sets_defaults() {
    let b = initialize(AUTHORITY, 97, 3, 254, 253);
    assert_eq!(b.authority, AUTHORITY);
    assert_eq!(b.bnb_chain_id, 97);
    assert_eq!(b.validator_threshold, 3);
    assert!(b.is_active);
    assert_eq!(b.nonce, 0);
    assert_eq!(b.bump, 254);
    assert_eq!(b.authority_bump, 253);
    assert!(b.validators.is_empty());
}

#[test]
fn add_validator_twice_fails_and_keeps_size() {
    let mut b = initialize(AUTHORITY, 97, 1, 0, 0);
    assert_eq!(add_validator(&mut b, &AUTHORITY, [1u8; 32]), Ok(()));
    assert_eq!(add_validator(&mut b, &AUTHORITY, [1u8; 32]), Err(BridgeError::ValidatorExists));
    assert_eq!(b.validators.len(), 1);
}

#[test]
fn add_validator_needs_authority() {
    let mut b = initialize(AUTHORITY, 97, 1, 0, 0);
    assert_eq!(add_validator(&mut b, &[8u8; 32], [1u8; 32]), Err(BridgeError::Unauthorized));
    assert!(b.validators.is_empty());
}

#[test]
fn add_validator_stops_at_capacity() {
    let mut b = initialize(AUTHORITY, 97, 1, 0, 0);
    for i in 0..MAX_VALIDATORS {
        let mut k = [0u8; 32];
        k[0] = i as u8;
        k[1] = 1;
        assert_eq!(add_validator(&mut b, &AUTHORITY, k), Ok(()));
    }
    assert_eq!(add_validator(&mut b, &AUTHORITY, [2u8; 32]), Err(BridgeError::ValidatorLimitReached));
    assert_eq!(b.validators.len(), MAX_VALIDATORS);
}

#[test]
fn remove_absent_validator_is_noop() {
    let mut b = initialize(AUTHORITY, 97, 1, 0, 0);
    add_validator(&mut b, &AUTHORITY, [1u8; 32]).unwrap();
    assert_eq!(remove_validator(&mut b, &AUTHORITY, [2u8; 32]), Ok(()));
    assert_eq!(b.validators, vec![[1u8; 32]]);
}

#[test]
fn remove_validator_removes_it() {
    let mut b = initialize(AUTHORITY, 97, 1, 0, 0);
    add_validator(&mut b, &AUTHORITY, [1u8; 32]).unwrap();
    add_validator(&mut b, &AUTHORITY, [2u8; 32]).unwrap();
    assert_eq!(remove_validator(&mut b, &[3u8; 32], [1u8; 32]), Err(BridgeError::Unauthorized));
    assert_eq!(b.validators.len(), 2);
    assert_eq!(remove_validator(&mut b, &AUTHORITY, [1u8; 32]), Ok(()));
    assert_eq!(b.validators, vec![[2u8; 32]]);
}

#[test]
fn set_bridge_active_needs_authority() {
    let mut b = initialize(AUTHORITY, 97, 1, 0, 0);
    assert_eq!(set_bridge_active(&mut b, &[3u8; 32], false), Err(BridgeError::Unauthorized));
    assert!(b.is_active);
    assert_eq!(set_bridge_active(&mut b, &AUTHORITY, false), Ok(()));
    assert!(!b.is_active);
}

#[test]
fn mark_processed_succeeds_once() {
    let mut g = ReplayGuard::new();
    let h = [5u8; 32];
    assert!(!g.is_processed(&h));
    assert_eq!(g.mark_processed(h, 10), Ok(()));
    assert!(g.is_processed(&h));
    assert_eq!(g.mark_processed(h, 11), Err(BridgeError::AlreadyProcessed));
    assert_eq!(g.records.len(), 1);
    let rec = g.record(&h).unwrap();
    assert!(rec.is_processed);
    assert_eq!(rec.timestamp, 10);
    assert_eq!(g.mark_processed([6u8; 32], 12), Ok(()));
}

#[test]
fn mint_message_layout() {
    let m = mint_message(0x0102, &[3u8; 32], &[4u8; 20], &[5u8; 32]);
    assert_eq!(m.len(), 8 + 32 + 20 + 32);
    assert_eq!(&m[0..8], &[2, 1, 0, 0, 0, 0, 0, 0]);
    assert_eq!(&m[8..40], &[3u8; 32]);
    assert_eq!(&m[40..60], &[4u8; 20]);
    assert_eq!(&m[60..92], &[5u8; 32]);
}

#[test]
fn mint_digest_is_sha256_of_message() {
    let m = mint_message(100, &[3u8; 32], &[4u8; 20], &[5u8; 32]);
    let d = mint_digest(100, &[3u8; 32], &[4u8; 20], &[5u8; 32]);
    assert_eq!(d, solana_sdk::hash::hash(&m).to_bytes());
    assert_ne!(&d[..], &m[0..32]);
}

#[test]
fn mint_with_quorum_succeeds() {
    let (v1, v2, v3) = (keypair(1), keypair(2), keypair(3));
    let b = bridge_with(3, &[&v1, &v2, &v3]);
    let mut g = ReplayGuard::new();
    let user = [11u8; 32];
    let mut acc = account(user, 0);
    let h = [21u8; 32];
    let token = [31u8; 20];
    let d = mint_digest(100, &h, &token, &user);
    let sigs = vec![attest(&v1, &d), attest(&v2, &d), attest(&v3, &d)];
    let ev = bridge_from_bnb(&b, &mut g, &mut acc, 100, h, token, &sigs, 1_700_000_000).unwrap();
    assert_eq!(acc.amount, 100);
    assert!(g.is_processed(&h));
    assert_eq!(ev.amount, 100);
    assert_eq!(ev.bnb_tx_hash, h);
    assert_eq!(ev.token_address, token);
    assert_eq!(ev.user, user);
    assert_eq!(ev.timestamp, 1_700_000_000);
}

#[test]
fn mint_with_two_of_three_fails() {
    let (v1, v2, v3) = (keypair(1), keypair(2), keypair(3));
    let b = bridge_with(3, &[&v1, &v2, &v3]);
    let mut g = ReplayGuard::new();
    let user = [11u8; 32];
    let mut acc = account(user, 0);
    let h = [21u8; 32];
    let d = mint_digest(100, &h, &[31u8; 20], &user);
    let sigs = vec![attest(&v1, &d), attest(&v2, &d)];
    let r = bridge_from_bnb(&b, &mut g, &mut acc, 100, h, [31u8; 20], &sigs, 0);
    assert_eq!(r, Err(BridgeError::InsufficientSignatures));
    assert_eq!(acc.amount, 0);
    assert!(!g.is_processed(&h));
}

#[test]
fn mint_duplicate_validator_counts_once() {
    let (v1, v2, v3) = (keypair(1), keypair(2), keypair(3));
    let b = bridge_with(3, &[&v1, &v2, &v3]);
    let mut g = ReplayGuard::new();
    let user = [11u8; 32];
    let mut acc = account(user, 0);
    let h = [21u8; 32];
    let d = mint_digest(100, &h, &[31u8; 20], &user);
    let sigs = vec![attest(&v1, &d), attest(&v1, &d), attest(&v2, &d), attest(&v2, &d)];
    assert_eq!(count_verified_signers(&b.validators, &sigs, &d), 2);
    let r = bridge_from_bnb(&b, &mut g, &mut acc, 100, h, [31u8; 20], &sigs, 0);
    assert_eq!(r, Err(BridgeError::InsufficientSignatures));
    assert_eq!(acc.amount, 0);
    assert!(!g.is_processed(&h));
}

#[test]
fn mint_forged_and_foreign_signatures_do_not_count() {
    let (v1, v2, v3, outsider) = (keypair(1), keypair(2), keypair(3), keypair(4));
    let b = bridge_with(3, &[&v1, &v2, &v3]);
    let mut g = ReplayGuard::new();
    let user = [11u8; 32];
    let mut acc = account(user, 0);
    let h = [21u8; 32];
    let d = mint_digest(100, &h, &[31u8; 20], &user);
    let mut forged = attest(&v3, &d);
    forged.signature[0] ^= 1;
    let wrong_digest = attest(&v3, &mint_digest(999, &h, &[31u8; 20], &user));
    let sigs = vec![attest(&v1, &d), attest(&v2, &d), forged, wrong_digest, attest(&outsider, &d)];
    assert_eq!(count_verified_signers(&b.validators, &sigs, &d), 2);
    let r = bridge_from_bnb(&b, &mut g, &mut acc, 100, h, [31u8; 20], &sigs, 0);
    assert_eq!(r, Err(BridgeError::InsufficientSignatures));
    assert_eq!(acc.amount, 0);
}

#[test]
fn mint_replay_is_refused() {
    let (v1, v2) = (keypair(1), keypair(2));
    let b = bridge_with(2, &[&v1, &v2]);
    let mut g = ReplayGuard::new();
    let user = [11u8; 32];
    let mut acc = account(user, 5);
    let h = [21u8; 32];
    let d = mint_digest(100, &h, &[31u8; 20], &user);
    let sigs = vec![attest(&v1, &d), attest(&v2, &d)];
    assert!(bridge_from_bnb(&b, &mut g, &mut acc, 100, h, [31u8; 20], &sigs, 0).is_ok());
    assert_eq!(acc.amount, 105);
    let r = bridge_from_bnb(&b, &mut g, &mut acc, 100, h, [31u8; 20], &sigs, 1);
    assert_eq!(r, Err(BridgeError::AlreadyProcessed));
    assert_eq!(acc.amount, 105);
    assert_eq!(g.records.len(), 1);
}

#[test]
fn mint_refused_when_inactive() {
    let v1 = keypair(1);
    let mut b = bridge_with(1, &[&v1]);
    set_bridge_active(&mut b, &AUTHORITY, false).unwrap();
    let mut g = ReplayGuard::new();
    let user = [11u8; 32];
    let mut acc = account(user, 0);
    let h = [21u8; 32];
    let d = mint_digest(1, &h, &[31u8; 20], &user);
    let r = bridge_from_bnb(&b, &mut g, &mut acc, 1, h, [31u8; 20], &vec![attest(&v1, &d)], 0);
    assert_eq!(r, Err(BridgeError::BridgeInactive));
    assert!(!g.is_processed(&h));
}

#[test]
fn mint_refused_on_balance_overflow() {
    let v1 = keypair(1);
    let b = bridge_with(1, &[&v1]);
    let mut g = ReplayGuard::new();
    let user = [11u8; 32];
    let mut acc = account(user, u64::MAX);
    let h = [21u8; 32];
    let d = mint_digest(1, &h, &[31u8; 20], &user);
    let r = bridge_from_bnb(&b, &mut g, &mut acc, 1, h, [31u8; 20], &vec![attest(&v1, &d)], 0);
    assert_eq!(r, Err(BridgeError::Overflow));
    assert_eq!(acc.amount, u64::MAX);
    assert!(!g.is_processed(&h));
}

#[test]
fn burn_when_inactive_fails() {
    let mut b = initialize(AUTHORITY, 97, 1, 0, 0);
    set_bridge_active(&mut b, &AUTHORITY, false).unwrap();
    let user = [11u8; 32];
    let mut acc = account(user, 80);
    let r = bridge_to_bnb(&mut b, &mut acc, &user, 50, [1u8; 20], 0);
    assert_eq!(r, Err(BridgeError::BridgeInactive));
    assert_eq!(b.nonce, 0);
    assert_eq!(acc.amount, 80);
}

#[test]
fn burn_nonces_are_consecutive() {
    let mut b = initialize(AUTHORITY, 97, 1, 0, 0);
    let user = [11u8; 32];
    let mut acc = account(user, 100);
    let mut nonces = Vec::new();
    for i in 0..5u64 {
        let ev = bridge_to_bnb(&mut b, &mut acc, &user, 10, [1u8; 20], i as i64).unwrap();
        assert_eq!(ev.amount, 10);
        assert_eq!(ev.user, user);
        assert_eq!(ev.token_mint, [9u8; 32]);
        nonces.push(ev.nonce);
    }
    assert_eq!(nonces, vec![1, 2, 3, 4, 5]);
    assert_eq!(b.nonce, 5);
    assert_eq!(acc.amount, 50);
}

#[test]
fn burn_refusals() {
    let mut b = initialize(AUTHORITY, 97, 1, 0, 0);
    let user = [11u8; 32];
    let mut acc = account(user, 30);
    assert_eq!(bridge_to_bnb(&mut b, &mut acc, &user, 0, [1u8; 20], 0), Err(BridgeError::InvalidAmount));
    assert_eq!(bridge_to_bnb(&mut b, &mut acc, &[12u8; 32], 5, [1u8; 20], 0), Err(BridgeError::Unauthorized));
    assert_eq!(bridge_to_bnb(&mut b, &mut acc, &user, 31, [1u8; 20], 0), Err(BridgeError::InsufficientFunds));
    b.nonce = u64::MAX;
    assert_eq!(bridge_to_bnb(&mut b, &mut acc, &user, 5, [1u8; 20], 0), Err(BridgeError::Overflow));
    assert_eq!(acc.amount, 30);
    assert_eq!(b.nonce, u64::MAX);
}

#[test]
fn aggregator_counts_distinct_verified_validators() {
    let (v1, v2, v3, outsider) = (keypair(1), keypair(2), keypair(3), keypair(4));
    let b = bridge_with(2, &[&v1, &v2, &v3]);
    let mut agg = AttestationAggregator::new();
    let d = [42u8; 32];
    assert_eq!(agg.submit(&b, d, key_of(&outsider), &sign(&outsider, &d), 1), Err(BridgeError::ValidatorNotFound));
    let mut bad = sign(&v1, &d);
    bad[5] ^= 0xff;
    assert_eq!(agg.submit(&b, d, key_of(&v1), &bad, 1), Err(BridgeError::SignatureInvalid));
    assert_eq!(agg.submit(&b, d, key_of(&v1), &sign(&v1, &d), 1), Ok(true));
    assert_eq!(agg.submit(&b, d, key_of(&v1), &sign(&v1, &d), 2), Ok(false));
    assert_eq!(agg.signer_count(&d), 1);
    assert!(!agg.quorum_reached(&d, b.validator_threshold));
    assert_eq!(agg.submit(&b, d, key_of(&v2), &sign(&v2, &d), 3), Ok(true));
    assert!(agg.quorum_reached(&d, b.validator_threshold));
    assert!(agg.has_signed(&d, &key_of(&v2)));
    assert!(!agg.has_signed(&d, &key_of(&v3)));
}

#[test]
fn aggregator_discard_and_evict() {
    let (v1, v2) = (keypair(1), keypair(2));
    let b = bridge_with(1, &[&v1, &v2]);
    let mut agg = AttestationAggregator::new();
    let (d1, d2) = ([1u8; 32], [2u8; 32]);
    agg.submit(&b, d1, key_of(&v1), &sign(&v1, &d1), 10).unwrap();
    agg.submit(&b, d2, key_of(&v1), &sign(&v1, &d2), 20).unwrap();
    agg.submit(&b, d2, key_of(&v2), &sign(&v2, &d2), 30).unwrap();
    agg.discard(&d2);
    assert_eq!(agg.signer_count(&d2), 0);
    assert_eq!(agg.signer_count(&d1), 1);
    agg.submit(&b, d2, key_of(&v2), &sign(&v2, &d2), 40).unwrap();
    agg.evict_before(15);
    assert_eq!(agg.signer_count(&d1), 0);
    assert_eq!(agg.signer_count(&d2), 1);
    assert_eq!(agg.records.len(), 1);
}

#[test]
fn processed_key_is_program_derived_address() {
    let program = [3u8; 32];
    let h = [21u8; 32];
    let expected = solana_sdk::pubkey::Pubkey::try_find_program_address(
        &[b"processed-tx", &h],
        &solana_sdk::pubkey::Pubkey::new_from_array(program),
    )
    .map(|(a, _)| a.to_bytes());
    let got = derive_processed_key(&program, &h);
    assert_eq!(got, expected);
    assert!(got.is_some());
    assert_ne!(got, Some(h));
    assert_ne!(derive_processed_key(&program, &[22u8; 32]), got);
}
