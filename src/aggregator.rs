//! The attestation aggregator: per event digest, the registered validators
//! that have validly signed it, and whether they reach the quorum.
use vstd::prelude::*;
use crate::bridge::{BridgeError, BridgeState};
use crate::crypto::{ed25519_valid, verify_signature};
use crate::keys::{find_key, keys_equal, Pubkey};

verus! {

/// One accepted attestation: `validator` validly signed `digest`, received at
/// `received_at`.
#[derive(Clone, Copy, Debug)]
pub struct AttestationRecord {
    pub digest: [u8; 32],
    pub validator: Pubkey,
    pub received_at: u64,
}

/// The accepted attestations, at most one per validator and digest.
#[derive(Clone, Debug)]
pub struct AttestationAggregator {
    pub records: Vec<AttestationRecord>,
}

impl AttestationAggregator {
    /// No validator is recorded twice for one digest.
    pub open spec fn wf(&self) -> bool {
        forall|a: int, b: int|
            0 <= a < self.records@.len() && 0 <= b < self.records@.len() && a != b ==> !(
            #[trigger] self.records@[a].digest == #[trigger] self.records@[b].digest
                && self.records@[a].validator == self.records@[b].validator)
    }

    /// The validators recorded for `digest`.
    pub open spec fn signers_of(&self, digest: [u8; 32]) -> Set<Pubkey> {
        Set::new(
            |v: Pubkey|
                exists|i: int|
                    0 <= i < self.records@.len() && #[trigger] self.records@[i].digest == digest
                        && self.records@[i].validator == v,
        )
    }

    pub fn new() -> (r: AttestationAggregator)
        ensures
            r.wf(),
            forall|d: [u8; 32]| #[trigger] r.signers_of(d) == Set::<Pubkey>::empty(),
    {
        let r = AttestationAggregator { records: Vec::new() };
        assert forall|d: [u8; 32]| #[trigger] r.signers_of(d) == Set::<Pubkey>::empty() by {
            assert(r.signers_of(d) =~= Set::<Pubkey>::empty());
        }
        r
    }

    /// Whether `validator` is recorded for `digest`.
    pub fn has_signed(&self, digest: &[u8; 32], validator: &Pubkey) -> (r: bool)
        ensures
            r == self.signers_of(*digest).contains(*validator),
    {
        let mut i: usize = 0;
        while i < self.records.len()
            invariant
                i <= self.records@.len(),
                forall|j: int|
                    0 <= j < i ==> !(#[trigger] self.records@[j].digest == *digest && self.records@[j].validator
                        == *validator),
            decreases self.records@.len() - i,
        {
            if keys_equal(&self.records[i].digest, digest) && keys_equal(&self.records[i].validator, validator) {
                return true;
            }
            i = i + 1;
        }
        false
    }

    /// The validators recorded for `digest` among the first `n` records.
    pub open spec fn signers_among(&self, digest: [u8; 32], n: int) -> Set<Pubkey> {
        Set::new(
            |v: Pubkey|
                exists|i: int|
                    0 <= i < n && #[trigger] self.records@[i].digest == digest && self.records@[i].validator == v,
        )
    }

    /// How many distinct validators are recorded for `digest`.
    pub fn signer_count(&self, digest: &[u8; 32]) -> (n: usize)
        requires
            self.wf(),
        ensures
            n == self.signers_of(*digest).len(),
    {
        let mut seen: Vec<Pubkey> = Vec::new();
        let mut i: usize = 0;
        while i < self.records.len()
            invariant
                self.wf(),
                i <= self.records@.len(),
                seen@.len() <= i,
                seen@.no_duplicates(),
                seen@.to_set() == self.signers_among(*digest, i as int),
            decreases self.records@.len() - i,
        {
            let rec = self.records[i];
            let ghost before = self.signers_among(*digest, i as int);
            let ghost after = self.signers_among(*digest, i as int + 1);
            if keys_equal(&rec.digest, digest) {
                proof {
                    if seen@.contains(rec.validator) {
                        assert(seen@.to_set().contains(rec.validator));
                        let j = choose|j: int|
                            0 <= j < i && #[trigger] self.records@[j].digest == *digest
                                && self.records@[j].validator == rec.validator;
                        assert(self.records@[i as int] == rec);
                    }
                    assert forall|v: Pubkey| after.contains(v) <==> #[trigger] before.insert(rec.validator).contains(v) by {
                        if after.contains(v) {
                            let j = choose|j: int|
                                0 <= j < i + 1 && #[trigger] self.records@[j].digest == *digest
                                    && self.records@[j].validator == v;
                            if j < i {
                                assert(before.contains(v));
                            }
                        }
                        if v == rec.validator {
                            assert(self.records@[i as int].digest == *digest);
                        }
                    }
                    assert(after =~= before.insert(rec.validator));
                    seen@.lemma_push_to_set_commute(rec.validator);
                }
                seen.push(rec.validator);
            } else {
                proof {
                    assert forall|v: Pubkey| after.contains(v) <==> #[trigger] before.contains(v) by {
                        if after.contains(v) {
                            let j = choose|j: int|
                                0 <= j < i + 1 && #[trigger] self.records@[j].digest == *digest
                                    && self.records@[j].validator == v;
                            if j == i {
                                assert(self.records@[i as int] == rec);
                            }
                        }
                    }
                    assert(after =~= before);
                }
            }
            i = i + 1;
        }
        proof {
            assert(self.signers_among(*digest, i as int) =~= self.signers_of(*digest));
            seen@.unique_seq_to_set();
        }
        seen.len()
    }

    /// Whether the validators recorded for `digest` reach `threshold`.
    pub fn quorum_reached(&self, digest: &[u8; 32], threshold: u8) -> (r: bool)
        requires
            self.wf(),
        ensures
            r == (self.signers_of(*digest).len() >= threshold),
    {
        self.signer_count(digest) >= threshold as usize
    }

    /// `new_records` holds the records of `old_records` not for `digest` (where
    /// `by_digest`) or not received before `cutoff` (otherwise).
    pub open spec fn kept(old_records: Seq<AttestationRecord>, new_records: Seq<AttestationRecord>, digest: [u8; 32], cutoff: u64, by_digest: bool) -> bool {
        forall|r: AttestationRecord|
            #[trigger] new_records.contains(r) <==> old_records.contains(r) && (if by_digest {
                r.digest != digest
            } else {
                r.received_at >= cutoff
            })
    }

    /// Drops the records for `digest`, or, where `by_digest` is false, the
    /// records received before `cutoff`.
    fn retain_records(&mut self, digest: &[u8; 32], cutoff: u64, by_digest: bool)
        requires
            old(self).wf(),
        ensures
            final(self).wf(),
            Self::kept(old(self).records@, final(self).records@, *digest, cutoff, by_digest),
    {
        let mut kept: Vec<AttestationRecord> = Vec::new();
        let mut i: usize = 0;
        while i < self.records.len()
            invariant
                self.wf(),
                i <= self.records@.len(),
                forall|k: int|
                    0 <= k < kept@.len() ==> exists|j: int|
                        0 <= j < i && #[trigger] self.records@[j] == #[trigger] kept@[k] && (forall|m: int|
                            0 <= m < kept@.len() && m != k ==> kept@[m] != self.records@[j]),
                forall|a: int, b: int|
                    0 <= a < kept@.len() && 0 <= b < kept@.len() && a != b ==> !(
                    #[trigger] kept@[a].digest == #[trigger] kept@[b].digest && kept@[a].validator
                        == kept@[b].validator),
                forall|r: AttestationRecord|
                    #[trigger] kept@.contains(r) <==> self.records@.subrange(0, i as int).contains(r) && (
                    if by_digest {
                        r.digest != *digest
                    } else {
                        r.received_at >= cutoff
                    }),
            decreases self.records@.len() - i,
        {
            let rec = self.records[i];
            let keep = if by_digest {
                !keys_equal(&rec.digest, digest)
            } else {
                rec.received_at >= cutoff
            };
            let ghost old_kept = kept@;
            proof {
                assert(self.records@.subrange(0, i as int + 1) =~= self.records@.subrange(0, i as int).push(rec));
            }
            if keep {
                kept.push(rec);
                proof {
                    assert forall|a: int, b: int|
                        0 <= a < kept@.len() && 0 <= b < kept@.len() && a != b implies !(
                        #[trigger] kept@[a].digest == #[trigger] kept@[b].digest && kept@[a].validator
                            == kept@[b].validator) by {
                        if a == old_kept.len() || b == old_kept.len() {
                            let o = if a == old_kept.len() { b } else { a };
                            assert(kept@[o] == old_kept[o]);
                            let j = choose|j: int|
                                0 <= j < i && #[trigger] self.records@[j] == #[trigger] old_kept[o] && (forall|m: int|
                                    0 <= m < old_kept.len() && m != o ==> old_kept[m] != self.records@[j]);
                            assert(self.records@[i as int] == rec);
                        }
                    }
                    assert forall|k: int| 0 <= k < kept@.len() implies exists|j: int|
                        0 <= j < i + 1 && #[trigger] self.records@[j] == #[trigger] kept@[k] && (forall|m: int|
                            0 <= m < kept@.len() && m != k ==> kept@[m] != self.records@[j]) by {
                        if k == old_kept.len() {
                            assert(self.records@[i as int] == kept@[k]);
                            assert forall|m: int| 0 <= m < kept@.len() && m != k implies kept@[m] != self.records@[i as int] by {
                                assert(!(kept@[m].digest == kept@[k].digest && kept@[m].validator == kept@[k].validator));
                            }
                        } else {
                            let j = choose|j: int|
                                0 <= j < i && #[trigger] self.records@[j] == #[trigger] old_kept[k] && (forall|m: int|
                                    0 <= m < old_kept.len() && m != k ==> old_kept[m] != self.records@[j]);
                            assert(self.records@[j] == kept@[k]);
                            assert forall|m: int| 0 <= m < kept@.len() && m != k implies kept@[m] != self.records@[j] by {
                                assert(!(kept@[m].digest == kept@[k].digest && kept@[m].validator == kept@[k].validator));
                            }
                        }
                    }
                    assert forall|r: AttestationRecord| #[trigger] kept@.contains(r) <==> self.records@.subrange(0, i as int + 1).contains(r) && (
                        if by_digest {
                            r.digest != *digest
                        } else {
                            r.received_at >= cutoff
                        }) by {
                        if kept@.contains(r) && r != rec {
                            let k = choose|k: int| 0 <= k < kept@.len() && kept@[k] == r;
                            assert(old_kept[k] == r);
                            assert(old_kept.contains(r));
                        }
                        if self.records@.subrange(0, i as int + 1).contains(r) && r != rec {
                            let k = choose|k: int| 0 <= k < i + 1 && #[trigger] self.records@.subrange(0, i as int + 1)[k] == r;
                            assert(k < i);
                            assert(self.records@.subrange(0, i as int)[k] == r);
                            if old_kept.contains(r) {
                                let k = choose|k: int| 0 <= k < old_kept.len() && old_kept[k] == r;
                                assert(kept@[k] == r);
                            }
                        }
                        if r == rec {
                            assert(kept@[old_kept.len() as int] == r);
                            assert(self.records@.subrange(0, i as int + 1)[i as int] == rec);
                        }
                    }
                }
            } else {
                proof {
                    assert forall|r: AttestationRecord| #[trigger] kept@.contains(r) <==> self.records@.subrange(0, i as int + 1).contains(r) && (
                        if by_digest {
                            r.digest != *digest
                        } else {
                            r.received_at >= cutoff
                        }) by {
                        if r == rec {
                            assert(self.records@[i as int] == rec);
                        }
                    }
                    assert forall|k: int| 0 <= k < kept@.len() implies exists|j: int|
                        0 <= j < i + 1 && #[trigger] self.records@[j] == #[trigger] kept@[k] && (forall|m: int|
                            0 <= m < kept@.len() && m != k ==> kept@[m] != self.records@[j]) by {
                        let j = choose|j: int|
                            0 <= j < i && #[trigger] self.records@[j] == #[trigger] kept@[k] && (forall|m: int|
                                0 <= m < kept@.len() && m != k ==> kept@[m] != self.records@[j]);
                    }
                }
            }
            i = i + 1;
        }
        proof {
            assert(self.records@.subrange(0, i as int) =~= self.records@);
        }
        self.records = kept;
    }

    /// Forgets what was recorded for `digest`, once its transfer is relayed.
    pub fn discard(&mut self, digest: &[u8; 32])
        requires
            old(self).wf(),
        ensures
            final(self).wf(),
            final(self).signers_of(*digest) == Set::<Pubkey>::empty(),
            forall|d: [u8; 32]| d != *digest ==> #[trigger] final(self).signers_of(d) == old(self).signers_of(d),
    {
        let ghost before = *self;
        self.retain_records(digest, 0, true);
        proof {
            assert(self.signers_of(*digest) =~= Set::<Pubkey>::empty()) by {
                if exists|v: Pubkey| self.signers_of(*digest).contains(v) {
                    let v = choose|v: Pubkey| self.signers_of(*digest).contains(v);
                    let i = choose|i: int|
                        0 <= i < self.records@.len() && #[trigger] self.records@[i].digest == *digest
                            && self.records@[i].validator == v;
                    assert(self.records@.contains(self.records@[i]));
                }
            }
            assert forall|d: [u8; 32]| d != *digest implies #[trigger] self.signers_of(d) == before.signers_of(d) by {
                assert forall|v: Pubkey| self.signers_of(d).contains(v) <==> before.signers_of(d).contains(v) by {
                    if self.signers_of(d).contains(v) {
                        let i = choose|i: int|
                            0 <= i < self.records@.len() && #[trigger] self.records@[i].digest == d
                                && self.records@[i].validator == v;
                        assert(self.records@.contains(self.records@[i]));
                        let j = choose|j: int| 0 <= j < before.records@.len() && before.records@[j] == self.records@[i];
                        assert(before.records@[j].digest == d);
                    }
                    if before.signers_of(d).contains(v) {
                        let i = choose|i: int|
                            0 <= i < before.records@.len() && #[trigger] before.records@[i].digest == d
                                && before.records@[i].validator == v;
                        assert(before.records@.contains(before.records@[i]));
                        assert(Self::kept(before.records@, self.records@, *digest, 0, true));
                        assert(self.records@.contains(before.records@[i]));
                        let j = choose|j: int| 0 <= j < self.records@.len() && self.records@[j] == before.records@[i];
                        assert(self.records@[j].digest == d);
                    }
                }
                assert(self.signers_of(d) =~= before.signers_of(d));
            }
        }
    }

    /// Forgets every attestation received before `cutoff`, so that digests
    /// that never reach quorum do not stay forever.
    pub fn evict_before(&mut self, cutoff: u64)
        requires
            old(self).wf(),
        ensures
            final(self).wf(),
            forall|r: AttestationRecord|
                #[trigger] final(self).records@.contains(r) <==> old(self).records@.contains(r) && r.received_at
                    >= cutoff,
    {
        self.retain_records(&[0u8; 32], cutoff, false);
    }

    /// Accepts `validator`'s `signature` over `digest`. Refused with
    /// `ValidatorNotFound` for a signer that is not registered and with
    /// `SignatureInvalid` for a signature that does not verify. A validator
    /// already recorded for the digest is not recorded again: the result says
    /// whether it was new.
    pub fn submit(
        &mut self,
        bridge: &BridgeState,
        digest: [u8; 32],
        validator: Pubkey,
        signature: &[u8; 64],
        received_at: u64,
    ) -> (r: Result<bool, BridgeError>)
        requires
            old(self).wf(),
        ensures
            final(self).wf(),
            !bridge.validators@.contains(validator) ==> r == Err::<bool, BridgeError>(
                BridgeError::ValidatorNotFound,
            ),
            bridge.validators@.contains(validator) && !ed25519_valid(signature@, validator@, digest@) ==> r
                == Err::<bool, BridgeError>(BridgeError::SignatureInvalid),
            bridge.validators@.contains(validator) && ed25519_valid(signature@, validator@, digest@) ==> r
                == Ok::<bool, BridgeError>(!old(self).signers_of(digest).contains(validator)),
            r is Err ==> *final(self) == *old(self),
            r is Ok ==> final(self).signers_of(digest) == old(self).signers_of(digest).insert(validator),
            r is Ok ==> forall|d: [u8; 32]|
                d != digest ==> #[trigger] final(self).signers_of(d) == old(self).signers_of(d),
    {
        if find_key(&bridge.validators, &validator).is_none() {
            return Err(BridgeError::ValidatorNotFound);
        }
        if !verify_signature(signature, &validator, &digest) {
            return Err(BridgeError::SignatureInvalid);
        }
        if self.has_signed(&digest, &validator) {
            assert(self.signers_of(digest).insert(validator) =~= self.signers_of(digest));
            return Ok(false);
        }
        let ghost before = *self;
        let rec = AttestationRecord { digest, validator, received_at };
        self.records.push(rec);
        proof {
            let n = before.records@.len() as int;
            assert(self.records@[n] == rec);
            assert forall|d: [u8; 32]| #[trigger] self.signers_of(d) == (if d == digest {
                before.signers_of(d).insert(validator)
            } else {
                before.signers_of(d)
            }) by {
                assert forall|v: Pubkey| self.signers_of(d).contains(v) implies (if d == digest {
                    before.signers_of(d).insert(validator)
                } else {
                    before.signers_of(d)
                }).contains(v) by {
                    let i = choose|i: int|
                        0 <= i < self.records@.len() && #[trigger] self.records@[i].digest == d
                            && self.records@[i].validator == v;
                    if i < n {
                        assert(before.records@[i] == self.records@[i]);
                    }
                }
                assert forall|v: Pubkey| (if d == digest {
                    before.signers_of(d).insert(validator)
                } else {
                    before.signers_of(d)
                }).contains(v) implies self.signers_of(d).contains(v) by {
                    if d == digest && v == validator {
                        assert(self.records@[n].digest == d && self.records@[n].validator == v);
                    }
                    if before.signers_of(d).contains(v) {
                        let i = choose|i: int|
                            0 <= i < before.records@.len() && #[trigger] before.records@[i].digest == d
                                && before.records@[i].validator == v;
                        assert(self.records@[i] == before.records@[i]);
                    }
                }
                assert(self.signers_of(d) =~= (if d == digest {
                    before.signers_of(d).insert(validator)
                } else {
                    before.signers_of(d)
                }));
            }
            assert forall|a: int, b: int|
                0 <= a < self.records@.len() && 0 <= b < self.records@.len() && a != b implies !(
                #[trigger] self.records@[a].digest == #[trigger] self.records@[b].digest
                    && self.records@[a].validator == self.records@[b].validator) by {
                if a == n {
                    assert(self.records@[b] == before.records@[b]);
                    assert(!before.signers_of(digest).contains(validator));
                } else if b == n {
                    assert(self.records@[a] == before.records@[a]);
                    assert(!before.signers_of(digest).contains(validator));
                } else {
                    assert(self.records@[a] == before.records@[a]);
                    assert(self.records@[b] == before.records@[b]);
                }
            }
        }
        Ok(true)
    }
}

} // verus!
