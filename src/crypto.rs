//! Ed25519 signature checks and SHA-256 digests, through the Solana SDK.
use vstd::prelude::*;

verus! {

/// Whether `signature` is a valid Ed25519 signature of `message` under the
/// public key `key`. A function of its three arguments alone.
pub uninterp spec fn ed25519_valid(signature: Seq<u8>, key: Seq<u8>, message: Seq<u8>) -> bool;

/// Relies on `solana_sdk::signature::Signature::verify`: strict Ed25519
/// verification of `message` under `key`, `false` where the key cannot be parsed.
#[verifier::external_body]
pub(crate) fn verify_signature(signature: &[u8; 64], key: &[u8; 32], message: &[u8]) -> (r: bool)
    ensures
        r == ed25519_valid(signature@, key@, message@),
{
    solana_sdk::signature::Signature::from(*signature).verify(key, message)
}

/// The SHA-256 digest of `message`. A function of the message alone.
pub uninterp spec fn sha256_of(message: Seq<u8>) -> Seq<u8>;

/// Relies on `solana_sdk::hash::hash`: the SHA-256 digest of `message`.
#[verifier::external_body]
pub(crate) fn sha256_digest(message: &[u8]) -> (r: [u8; 32])
    ensures
        r@ == sha256_of(message@),
{
    solana_sdk::hash::hash(message).to_bytes()
}

} // verus!
