//! A two-ledger token bridge: the on-chain state machine that guards minting
//! and burning, and the decisions of the off-chain validator that watches both
//! chains, gathers attestations and relays quorum-backed transfers.

pub mod keys;
pub mod crypto;
pub mod attest;
pub mod bridge;
pub mod replay;
pub mod transfer;
pub mod aggregator;
pub mod watcher;
pub mod relay;
