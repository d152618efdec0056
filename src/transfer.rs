//! The two transfer paths. Inbound, a quorum of validators authorises minting
//! for a lock on the remote chain; outbound, a holder burns tokens and the
//! bridge numbers the burn with the next nonce.
use vstd::prelude::*;
use crate::attest::{attestation_valid, count_verified_signers, mint_digest, mint_digest_spec, verified_signers, Attestation};
use crate::bridge::{BridgeError, BridgeState};
use crate::keys::{keys_equal, Pubkey};
use crate::replay::ReplayGuard;

verus! {

/// A token account on the destination ledger: who owns it, which token it
/// holds and how much.
#[derive(Clone, Copy, Debug, PartialEq, Eq)]
pub struct TokenAccount {
    pub owner: Pubkey,
    pub mint: Pubkey,
    pub amount: u64,
}

/// Emitted when a mint for a remote lock is executed.
#[derive(Clone, Copy, Debug, PartialEq, Eq)]
pub struct BridgeFromBnbEvent {
    pub amount: u64,
    pub bnb_tx_hash: [u8; 32],
    pub token_address: [u8; 20],
    pub user: Pubkey,
    pub timestamp: i64,
}

/// Emitted when tokens are burned for release on the remote chain.
#[derive(Clone, Copy, Debug, PartialEq, Eq)]
pub struct BridgeToBnbEvent {
    pub nonce: u64,
    pub amount: u64,
    pub bnb_recipient: [u8; 20],
    pub token_mint: Pubkey,
    pub user: Pubkey,
    pub timestamp: i64,
}

/// The first precondition of a mint that fails, checked in order: the active flag,
/// the replay guard, the quorum of `signers` distinct verified validators, and
/// room in the recipient's balance.
pub open spec fn mint_check(
    bridge: BridgeState,
    processed: Set<[u8; 32]>,
    balance: u64,
    amount: u64,
    h: [u8; 32],
    signers: nat,
) -> Option<BridgeError> {
    if !bridge.is_active {
        Some(BridgeError::BridgeInactive)
    } else if processed.contains(h) {
        Some(BridgeError::AlreadyProcessed)
    } else if signers < bridge.validator_threshold {
        Some(BridgeError::InsufficientSignatures)
    } else if balance + amount > u64::MAX {
        Some(BridgeError::Overflow)
    } else {
        None
    }
}

/// The distinct registered validators whose attestation authorises minting
/// `amount` for the lock `h` of `token` to `recipient`.
pub open spec fn mint_signers(
    bridge: BridgeState,
    atts: Seq<Attestation>,
    amount: u64,
    h: [u8; 32],
    token: [u8; 20],
    recipient: Pubkey,
) -> nat {
    verified_signers(bridge.validator_set(), atts, mint_digest_spec(amount, h@, token@, recipient@)).len()
}

/// Mints `amount` to `account` for the remote lock `bnb_tx_hash` and records
/// the hash, in one step: either both happen or neither does. Refused with
/// the first failing check of `mint_check`.
pub fn bridge_from_bnb(
    bridge: &BridgeState,
    guard: &mut ReplayGuard,
    account: &mut TokenAccount,
    amount: u64,
    bnb_tx_hash: [u8; 32],
    token_address: [u8; 20],
    validator_signatures: &Vec<Attestation>,
    timestamp: i64,
) -> (r: Result<BridgeFromBnbEvent, BridgeError>)
    requires
        bridge.wf(),
        old(guard).wf(),
    ensures
        final(guard).wf(),
        match mint_check(
            *bridge,
            old(guard).processed(),
            old(account).amount,
            amount,
            bnb_tx_hash,
            mint_signers(*bridge, validator_signatures@, amount, bnb_tx_hash, token_address, old(account).owner),
        ) {
            Some(e) => r == Err::<BridgeFromBnbEvent, BridgeError>(e) && *final(guard) == *old(guard)
                && *final(account) == *old(account),
            None => r == Ok::<BridgeFromBnbEvent, BridgeError>(
                BridgeFromBnbEvent {
                    amount,
                    bnb_tx_hash,
                    token_address,
                    user: old(account).owner,
                    timestamp,
                },
            ) && *final(account) == (TokenAccount {
                amount: (old(account).amount + amount) as u64,
                ..*old(account)
            }) && final(guard).processed() == old(guard).processed().insert(bnb_tx_hash),
        },
{
    if !bridge.is_active {
        return Err(BridgeError::BridgeInactive);
    }
    if guard.is_processed(&bnb_tx_hash) {
        return Err(BridgeError::AlreadyProcessed);
    }
    let digest = mint_digest(amount, &bnb_tx_hash, &token_address, &account.owner);
    let signers = count_verified_signers(&bridge.validators, validator_signatures, &digest);
    if signers < bridge.validator_threshold as usize {
        return Err(BridgeError::InsufficientSignatures);
    }
    if account.amount > u64::MAX - amount {
        return Err(BridgeError::Overflow);
    }
    account.amount = account.amount + amount;
    let marked = guard.mark_processed(bnb_tx_hash, timestamp);
    assert(marked is Ok);
    Ok(BridgeFromBnbEvent { amount, bnb_tx_hash, token_address, user: account.owner, timestamp })
}

/// The first precondition of a burn that fails, checked in order: the active flag, a
/// positive amount, the holder's authority over the account, its balance, and
/// room for the next nonce.
pub open spec fn burn_check(bridge: BridgeState, account: TokenAccount, user: Pubkey, amount: u64) -> Option<BridgeError> {
    if !bridge.is_active {
        Some(BridgeError::BridgeInactive)
    } else if amount == 0 {
        Some(BridgeError::InvalidAmount)
    } else if user != account.owner {
        Some(BridgeError::Unauthorized)
    } else if account.amount < amount {
        Some(BridgeError::InsufficientFunds)
    } else if bridge.nonce == u64::MAX {
        Some(BridgeError::Overflow)
    } else {
        None
    }
}

/// A successful burn took the bridge from `before` to `after` and emitted
/// `ev`: the nonce went up by one, the event carries the new nonce, and
/// nothing else changed.
pub open spec fn burn_step(before: BridgeState, after: BridgeState, ev: BridgeToBnbEvent) -> bool {
    &&& after.nonce == before.nonce + 1
    &&& ev.nonce == after.nonce
    &&& after.validators@ == before.validators@
    &&& after.authority == before.authority
    &&& after.bnb_chain_id == before.bnb_chain_id
    &&& after.validator_threshold == before.validator_threshold
    &&& after.is_active == before.is_active
    &&& after.bump == before.bump
    &&& after.authority_bump == before.authority_bump
}

/// Burns `amount` from `account`, on the authority of its owner `user`, for
/// release to `bnb_recipient` on the remote chain, and numbers the burn with
/// the next nonce. Refused with the first failing check of `burn_check`.
pub fn bridge_to_bnb(
    bridge: &mut BridgeState,
    account: &mut TokenAccount,
    user: &Pubkey,
    amount: u64,
    bnb_recipient: [u8; 20],
    timestamp: i64,
) -> (r: Result<BridgeToBnbEvent, BridgeError>)
    ensures
        match burn_check(*old(bridge), *old(account), *user, amount) {
            Some(e) => r == Err::<BridgeToBnbEvent, BridgeError>(e) && *final(bridge) == *old(bridge)
                && *final(account) == *old(account),
            None => r == Ok::<BridgeToBnbEvent, BridgeError>(
                BridgeToBnbEvent {
                    nonce: (old(bridge).nonce + 1) as u64,
                    amount,
                    bnb_recipient,
                    token_mint: old(account).mint,
                    user: *user,
                    timestamp,
                },
            ) && burn_step(*old(bridge), *final(bridge), r->Ok_0) && *final(account) == (TokenAccount {
                amount: (old(account).amount - amount) as u64,
                ..*old(account)
            }),
        },
{
    if !bridge.is_active {
        return Err(BridgeError::BridgeInactive);
    }
    if amount == 0 {
        return Err(BridgeError::InvalidAmount);
    }
    if !keys_equal(user, &account.owner) {
        return Err(BridgeError::Unauthorized);
    }
    if account.amount < amount {
        return Err(BridgeError::InsufficientFunds);
    }
    if bridge.nonce == u64::MAX {
        return Err(BridgeError::Overflow);
    }
    account.amount = account.amount - amount;
    bridge.nonce = bridge.nonce + 1;
    Ok(
        BridgeToBnbEvent {
            nonce: bridge.nonce,
            amount,
            bnb_recipient,
            token_mint: account.mint,
            user: *user,
            timestamp,
        },
    )
}

/// Along a run of successful burns the emitted nonces are the starting nonce
/// plus one, plus two, and so on: strictly increasing, with no gap and no
/// repeat.
pub proof fn law_burn_nonces_consecutive(states: Seq<BridgeState>, events: Seq<BridgeToBnbEvent>)
    requires
        states.len() == events.len() + 1,
        forall|k: int| 0 <= k < events.len() ==> burn_step(states[k], #[trigger] states[k + 1], events[k]),
    ensures
        forall|k: int| 0 <= k < events.len() ==> #[trigger] events[k].nonce == states[0].nonce + k + 1,
        forall|a: int, b: int| 0 <= a < b < events.len() ==> #[trigger] events[a].nonce < #[trigger] events[b].nonce,
{
    assert forall|k: int| 0 <= k < states.len() implies #[trigger] states[k].nonce == states[0].nonce + k by {
        lemma_nonce_after_burns(states, events, k);
    }
    assert forall|k: int| 0 <= k < events.len() implies #[trigger] events[k].nonce == states[0].nonce + k + 1 by {
        assert(burn_step(states[k], states[k + 1], events[k]));
        assert(states[k].nonce == states[0].nonce + k);
    }
}

proof fn lemma_nonce_after_burns(states: Seq<BridgeState>, events: Seq<BridgeToBnbEvent>, k: int)
    requires
        states.len() == events.len() + 1,
        forall|j: int| 0 <= j < events.len() ==> burn_step(states[j], #[trigger] states[j + 1], events[j]),
        0 <= k < states.len(),
    ensures
        states[k].nonce == states[0].nonce + k,
    decreases k,
{
    if k > 0 {
        lemma_nonce_after_burns(states, events, k - 1);
        let j = k - 1;
        assert(burn_step(states[j], states[j + 1], events[j]));
    }
}

/// A mint whose distinct verified signers fall short of the threshold is
/// refused, whatever number of attestations came with it: an active bridge
/// that has not seen the hash answers `InsufficientSignatures`.
pub proof fn law_mint_needs_quorum(
    bridge: BridgeState,
    processed: Set<[u8; 32]>,
    balance: u64,
    amount: u64,
    h: [u8; 32],
    token: [u8; 20],
    recipient: Pubkey,
    atts: Seq<Attestation>,
)
    requires
        mint_signers(bridge, atts, amount, h, token, recipient) < bridge.validator_threshold,
    ensures
        mint_check(bridge, processed, balance, amount, h, mint_signers(bridge, atts, amount, h, token, recipient)) is Some,
        bridge.is_active && !processed.contains(h) ==> mint_check(
            bridge,
            processed,
            balance,
            amount,
            h,
            mint_signers(bridge, atts, amount, h, token, recipient),
        ) == Some(BridgeError::InsufficientSignatures),
{
}

/// An attestation that is forged, comes from an unregistered signer, or comes
/// from a validator already counted adds no signer.
pub proof fn law_extra_attestation_not_counted(
    validators: Set<Pubkey>,
    atts: Seq<Attestation>,
    message: Seq<u8>,
    a: Attestation,
)
    requires
        !attestation_valid(validators, a, message) || verified_signers(validators, atts, message).contains(
            a.validator,
        ),
    ensures
        verified_signers(validators, atts.push(a), message) == verified_signers(validators, atts, message),
{
    let before = verified_signers(validators, atts, message);
    let after = verified_signers(validators, atts.push(a), message);
    assert forall|v: Pubkey| after.contains(v) <==> before.contains(v) by {
        if after.contains(v) {
            let j = choose|j: int|
                0 <= j < atts.len() + 1 && #[trigger] atts.push(a)[j].validator == v && attestation_valid(
                    validators,
                    atts.push(a)[j],
                    message,
                );
            if j < atts.len() {
                assert(atts[j] == atts.push(a)[j]);
            }
        }
        if before.contains(v) {
            let j = choose|j: int|
                0 <= j < atts.len() && #[trigger] atts[j].validator == v && attestation_valid(validators, atts[j], message);
            assert(atts.push(a)[j] == atts[j]);
        }
    }
    assert(after =~= before);
}

/// Replaying a mint that succeeded is refused with `AlreadyProcessed`, whatever
/// balance, amount or signatures come with the replay.
pub proof fn law_mint_replay_refused(
    bridge: BridgeState,
    processed: Set<[u8; 32]>,
    balance: u64,
    amount: u64,
    h: [u8; 32],
    signers: nat,
    balance2: u64,
    amount2: u64,
    signers2: nat,
)
    requires
        mint_check(bridge, processed, balance, amount, h, signers) is None,
    ensures
        mint_check(bridge, processed.insert(h), balance2, amount2, h, signers2) == Some(
            BridgeError::AlreadyProcessed,
        ),
{
}

} // verus!
