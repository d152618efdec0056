use bnb_solana_bridge::aggregator::AttestationAggregator;
use bnb_solana_bridge::attest::mint_digest;
use bnb_solana_bridge::bridge::{add_validator, initialize, BridgeError};
use bnb_solana_bridge::relay::{relay_decision, unlock_digest, RelayDecision, SubmitOutcome};
use bnb_solana_bridge::watcher::{
    monitor_solana_burns, parse_lock_log, process_bnb_lock, read_be_u64, BurnEvent, ChainWatcher, WatchAction,
};
use solana_sdk::signature::Keypair;
use solana_sdk::signer::Signer;

fn lock_log(block_tag: u8, amount: u64) -> (Vec<[u8; 32]>, Vec<u8>) {
    let topics = vec![[0xaau8; 32], [block_tag; 32]];
    let mut data = vec![0u8; 128];
    for i in 12..32 {
        data[i] = 0x11;
    }
    for i in 44..64 {
        data[i] = 0x22;
    }
    data[88..96].copy_from_slice(&amount.to_be_bytes());
    for i in 96..128 {
        data[i] = 0x33;
    }
    (topics, data)
}

#[test]
fn watcher_idle_when_head_not_past_cursor() {
    let w = ChainWatcher::new(100);
    assert_eq!(w.plan(100), WatchAction::Idle);
    assert_eq!(w.plan(90), WatchAction::Idle);
}

#[test]
fn watcher_scan_hands_lock_on_then_advances() {
    let validator = Keypair::new_from_array([1u8; 32]);
    let authority = [7u8; 32];
    let mut bridge = initialize(authority, 97, 1, 0, 0);
    add_validator(&mut bridge, &authority, validator.pubkey().to_bytes()).unwrap();
    let mut agg = AttestationAggregator::new();

    let mut w = ChainWatcher::new(100);
    let action = w.plan(105);
    assert_eq!(action, WatchAction::Scan { from: 100, to: 105 });

    // one lock, at block 103
    let (topics, data) = lock_log(103, 100);
    let ev = parse_lock_log(&topics, &data, 1_700_000_103).unwrap();
    assert_eq!(ev.amount, 100);
    assert_eq!(ev.lock_id, [103u8; 32]);
    assert_eq!(ev.token, [0x11u8; 20]);
    assert_eq!(ev.solana_recipient, [0x33u8; 32]);
    let digest = process_bnb_lock(&ev);
    assert_eq!(digest, mint_digest(100, &[103u8; 32], &[0x11u8; 20], &[0x33u8; 32]));
    let sig = <[u8; 64]>::from(validator.sign_message(&digest));
    assert_eq!(agg.submit(&bridge, digest, validator.pubkey().to_bytes(), &sig, 103), Ok(true));
    assert_eq!(w.cursor, 100);

    w.complete(105, true);
    assert_eq!(w.cursor, 105);
    assert!(agg.quorum_reached(&digest, 1));
}

#[test]
fn watcher_keeps_cursor_on_failed_scan() {
    let mut w = ChainWatcher::new(100);
    w.complete(105, false);
    assert_eq!(w.cursor, 100);
    assert_eq!(w.plan(105), WatchAction::Scan { from: 100, to: 105 });
    w.complete(90, true);
    assert_eq!(w.cursor, 100);
}

#[test]
fn parse_lock_log_refuses_malformed() {
    let (topics, data) = lock_log(1, 5);
    assert_eq!(parse_lock_log(&vec![topics[0]], &data, 0), Err(BridgeError::MalformedEvent));
    assert_eq!(parse_lock_log(&topics, &data[..127].to_vec(), 0), Err(BridgeError::MalformedEvent));
    let mut big = data.clone();
    big[87] = 1;
    assert_eq!(parse_lock_log(&topics, &big, 0), Err(BridgeError::MalformedEvent));
}

#[test]
fn parse_lock_log_reads_largest_amount() {
    let (topics, data) = lock_log(1, u64::MAX);
    assert_eq!(parse_lock_log(&topics, &data, 0).unwrap().amount, u64::MAX);
}

#[test]
fn read_be_u64_value() {
    let b = vec![9, 0, 0, 0, 0, 0, 0, 1, 2];
    assert_eq!(read_be_u64(&b, 1), 0x0102);
}

#[test]
fn solana_burns_split_at_last_seen() {
    let sigs = vec![[3u8; 64], [2u8; 64], [1u8; 64]];
    assert_eq!(monitor_solana_burns(&sigs, Some([2u8; 64])), (1, Some([3u8; 64])));
    assert_eq!(monitor_solana_burns(&sigs, None), (3, Some([3u8; 64])));
    assert_eq!(monitor_solana_burns(&sigs, Some([9u8; 64])), (3, Some([3u8; 64])));
    assert_eq!(monitor_solana_burns(&vec![], Some([2u8; 64])), (0, Some([2u8; 64])));
}

#[test]
fn relay_decisions() {
    assert_eq!(relay_decision(SubmitOutcome::Accepted), RelayDecision::Done);
    assert_eq!(relay_decision(SubmitOutcome::Rejected(BridgeError::AlreadyProcessed)), RelayDecision::Done);
    assert_eq!(relay_decision(SubmitOutcome::Transient), RelayDecision::Retry);
    assert_eq!(
        relay_decision(SubmitOutcome::Rejected(BridgeError::InsufficientSignatures)),
        RelayDecision::Abandon(BridgeError::InsufficientSignatures)
    );
}

#[test]
fn unlock_digest_is_sha256_of_burn_message() {
    let ev = BurnEvent {
        nonce: 1,
        amount: 50,
        bnb_recipient: [4u8; 20],
        token_mint: [5u8; 32],
        user: [6u8; 32],
        timestamp: 0,
    };
    let mut m = Vec::new();
    m.extend_from_slice(&1u64.to_le_bytes());
    m.extend_from_slice(&50u64.to_le_bytes());
    m.extend_from_slice(&[4u8; 20]);
    m.extend_from_slice(&[5u8; 32]);
    m.extend_from_slice(&[6u8; 32]);
    assert_eq!(unlock_digest(&ev), solana_sdk::hash::hash(&m).to_bytes());
    let next = BurnEvent { nonce: 2, ..ev };
    assert_ne!(unlock_digest(&ev), unlock_digest(&next));
}
