//! The relayer's decisions: the digest under which a burn is attested for
//! release on the remote chain, and what to do after a submission.
use vstd::prelude::*;
use crate::attest::{append_bytes, append_u64_le, u64_le_bytes};
use crate::bridge::BridgeError;
use crate::crypto::{sha256_digest, sha256_of};
use crate::watcher::BurnEvent;

verus! {

/// What became of a submitted transaction.
#[derive(Clone, Copy, Debug, PartialEq, Eq, Structural)]
pub enum SubmitOutcome {
    /// It landed and took effect.
    Accepted,
    /// It landed and the chain refused it.
    Rejected(BridgeError),
    /// It did not land (a network or node failure).
    Transient,
}

/// What the relayer does next with a quorum-backed transfer.
#[derive(Clone, Copy, Debug, PartialEq, Eq, Structural)]
pub enum RelayDecision {
    /// The transfer is complete: this submission, or an earlier one, took effect.
    Done,
    /// Nothing landed: submit the same transaction again.
    Retry,
    /// The chain refused the transfer for `0`: do not resubmit it.
    Abandon(BridgeError),
}

/// After a submission: done where it took effect or the chain already holds
/// the transfer, retry where nothing landed, and give up on any other refusal.
pub fn relay_decision(outcome: SubmitOutcome) -> (r: RelayDecision)
    ensures
        outcome == SubmitOutcome::Accepted ==> r == RelayDecision::Done,
        outcome == SubmitOutcome::Rejected(BridgeError::AlreadyProcessed) ==> r == RelayDecision::Done,
        outcome == SubmitOutcome::Transient ==> r == RelayDecision::Retry,
        outcome is Rejected && outcome->Rejected_0 != BridgeError::AlreadyProcessed ==> r
            == RelayDecision::Abandon(outcome->Rejected_0),
{
    match outcome {
        SubmitOutcome::Accepted => RelayDecision::Done,
        SubmitOutcome::Rejected(BridgeError::AlreadyProcessed) => RelayDecision::Done,
        SubmitOutcome::Rejected(e) => RelayDecision::Abandon(e),
        SubmitOutcome::Transient => RelayDecision::Retry,
    }
}

/// The message validators sign to authorise a release for a burn: its nonce,
/// amount, remote recipient, token and burning user, concatenated.
pub open spec fn unlock_message_spec(ev: BurnEvent) -> Seq<u8> {
    u64_le_bytes(ev.nonce) + u64_le_bytes(ev.amount) + ev.bnb_recipient@ + ev.token_mint@ + ev.user@
}

/// The digest validators sign to authorise the release for `ev`: the SHA-256
/// of its message. Its nonce makes it unique per burn.
pub fn unlock_digest(ev: &BurnEvent) -> (r: [u8; 32])
    ensures
        r@ == sha256_of(unlock_message_spec(*ev)),
{
    let mut out: Vec<u8> = Vec::new();
    append_u64_le(&mut out, ev.nonce);
    append_u64_le(&mut out, ev.amount);
    append_bytes(&mut out, &ev.bnb_recipient);
    append_bytes(&mut out, &ev.token_mint);
    append_bytes(&mut out, &ev.user);
    assert(out@ =~= unlock_message_spec(*ev));
    sha256_digest(out.as_slice())
}

} // verus!
