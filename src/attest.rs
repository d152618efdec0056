//! Validator attestations: the message a validator signs for a transfer, and
//! the count of distinct registered validators whose signature verifies.
use vstd::prelude::*;
use crate::crypto::{ed25519_valid, sha256_digest, sha256_of, verify_signature};
use crate::keys::{find_key, Pubkey};

verus! {

/// One validator's signature over a transfer's message.
#[derive(Clone, Copy, Debug)]
pub struct Attestation {
    pub validator: Pubkey,
    pub signature: [u8; 64],
}

/// The eight little-endian bytes of `x`.
pub open spec fn u64_le_bytes(x: u64) -> Seq<u8> {
    Seq::new(8, |k: int| (x >> ((8 * k) as u64)) as u8)
}

/// The message validators sign to authorise a mint: the amount, the source
/// transaction hash, the source token and the recipient, concatenated.
pub open spec fn mint_message_spec(
    amount: u64,
    tx_hash: Seq<u8>,
    token: Seq<u8>,
    recipient: Seq<u8>,
) -> Seq<u8> {
    u64_le_bytes(amount) + tx_hash + token + recipient
}

/// The digest validators sign to authorise a mint: the SHA-256 of its message.
pub open spec fn mint_digest_spec(amount: u64, tx_hash: Seq<u8>, token: Seq<u8>, recipient: Seq<u8>) -> Seq<u8> {
    sha256_of(mint_message_spec(amount, tx_hash, token, recipient))
}

/// Whether `a` is a valid signature, by a registered validator, of `message`.
pub open spec fn attestation_valid(validators: Set<Pubkey>, a: Attestation, message: Seq<u8>) -> bool {
    validators.contains(a.validator) && ed25519_valid(a.signature@, a.validator@, message)
}

/// The validators with a valid attestation among the first `n` of `atts`.
pub open spec fn signers_upto(
    validators: Set<Pubkey>,
    atts: Seq<Attestation>,
    message: Seq<u8>,
    n: int,
) -> Set<Pubkey> {
    Set::new(
        |v: Pubkey|
            exists|i: int|
                0 <= i < n && #[trigger] atts[i].validator == v && attestation_valid(
                    validators,
                    atts[i],
                    message,
                ),
    )
}

/// The distinct registered validators that validly signed `message` in `atts`.
pub open spec fn verified_signers(
    validators: Set<Pubkey>,
    atts: Seq<Attestation>,
    message: Seq<u8>,
) -> Set<Pubkey> {
    signers_upto(validators, atts, message, atts.len() as int)
}

/// Appends the bytes of `b` to `out`.
pub fn append_bytes(out: &mut Vec<u8>, b: &[u8])
    ensures
        final(out)@ == old(out)@ + b@,
{
    let mut i: usize = 0;
    while i < b.len()
        invariant
            i <= b@.len(),
            out@ == old(out)@ + b@.subrange(0, i as int),
        decreases b@.len() - i,
    {
        out.push(b[i]);
        i = i + 1;
        assert(out@ =~= old(out)@ + b@.subrange(0, i as int));
    }
    assert(b@.subrange(0, b@.len() as int) =~= b@);
}

/// Appends the eight little-endian bytes of `x` to `out`.
pub fn append_u64_le(out: &mut Vec<u8>, x: u64)
    ensures
        final(out)@ == old(out)@ + u64_le_bytes(x),
{
    let mut k: u64 = 0;
    while k < 8
        invariant
            k <= 8,
            out@ =~= old(out)@ + u64_le_bytes(x).subrange(0, k as int),
        decreases 8 - k,
    {
        out.push((x >> (8 * k)) as u8);
        k = k + 1;
    }
    assert(u64_le_bytes(x).subrange(0, 8) =~= u64_le_bytes(x));
}

/// The message validators sign to authorise minting `amount` for the lock
/// `tx_hash` of `token` to `recipient`.
pub fn mint_message(amount: u64, tx_hash: &[u8; 32], token: &[u8; 20], recipient: &Pubkey) -> (r: Vec<u8>)
    ensures
        r@ == mint_message_spec(amount, tx_hash@, token@, recipient@),
{
    let mut out: Vec<u8> = Vec::new();
    append_u64_le(&mut out, amount);
    append_bytes(&mut out, tx_hash);
    append_bytes(&mut out, token);
    append_bytes(&mut out, recipient);
    assert(out@ =~= mint_message_spec(amount, tx_hash@, token@, recipient@));
    out
}

/// The digest validators sign to authorise minting `amount` for the lock
/// `tx_hash` of `token` to `recipient`.
pub fn mint_digest(amount: u64, tx_hash: &[u8; 32], token: &[u8; 20], recipient: &Pubkey) -> (r: [u8; 32])
    ensures
        r@ == mint_digest_spec(amount, tx_hash@, token@, recipient@),
{
    let message = mint_message(amount, tx_hash, token, recipient);
    sha256_digest(message.as_slice())
}

/// Counts the distinct registered validators whose attestation in `atts` is a
/// valid signature of `message`. A validator that signs twice counts once; a
/// forged signature or an unregistered signer does not count.
pub fn count_verified_signers(validators: &Vec<Pubkey>, atts: &Vec<Attestation>, message: &[u8]) -> (n: usize)
    ensures
        n == verified_signers(validators@.to_set(), atts@, message@).len(),
        n <= atts@.len(),
{
    let ghost vset = validators@.to_set();
    let mut counted: Vec<Pubkey> = Vec::new();
    let mut i: usize = 0;
    while i < atts.len()
        invariant
            i <= atts@.len(),
            counted@.len() <= i,
            vset == validators@.to_set(),
            counted@.no_duplicates(),
            counted@.to_set() == signers_upto(vset, atts@, message@, i as int),
        decreases atts@.len() - i,
    {
        let a = atts[i];
        assert(a == atts@[i as int]);
        let registered = find_key(validators, &a.validator).is_some();
        let fresh = find_key(&counted, &a.validator).is_none();
        let ghost before = signers_upto(vset, atts@, message@, i as int);
        let ghost after = signers_upto(vset, atts@, message@, i as int + 1);
        if registered && fresh && verify_signature(&a.signature, &a.validator, message) {
            proof {
                assert(vset.contains(a.validator));
                assert(attestation_valid(vset, atts@[i as int], message@));
                assert(after =~= before.insert(a.validator)) by {
                    assert forall|v: Pubkey| after.contains(v) implies #[trigger] before.insert(
                        a.validator,
                    ).contains(v) by {
                        let j = choose|j: int|
                            0 <= j < i + 1 && #[trigger] atts@[j].validator == v
                                && attestation_valid(vset, atts@[j], message@);
                        if j < i {
                            assert(before.contains(v));
                        }
                    }
                    assert(after.contains(a.validator));
                };
                counted@.lemma_push_to_set_commute(a.validator);
            }
            counted.push(a.validator);
        } else {
            proof {
                assert(after =~= before) by {
                    assert forall|v: Pubkey| after.contains(v) implies #[trigger] before.contains(v) by {
                        let j = choose|j: int|
                            0 <= j < i + 1 && #[trigger] atts@[j].validator == v
                                && attestation_valid(vset, atts@[j], message@);
                        if j == i {
                            assert(counted@.contains(v));
                        }
                    }
                };
            }
        }
        i = i + 1;
    }
    proof {
        counted@.unique_seq_to_set();
    }
    counted.len()
}

} // verus!
