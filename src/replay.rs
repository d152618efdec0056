//! The replay guard: one record per source transaction hash, created once and
//! never changed, so that no source event is honoured twice.
use vstd::prelude::*;
use crate::bridge::BridgeError;
use crate::keys::{keys_equal, Pubkey};

verus! {

/// The record that marks a source transaction as honoured.
#[derive(Clone, Copy, Debug)]
pub struct ProcessedTx {
    pub is_processed: bool,
    pub bnb_tx_hash: [u8; 32],
    pub timestamp: i64,
}

/// The set of replay records, in the order they were written.
#[derive(Clone, Debug)]
pub struct ReplayGuard {
    pub records: Vec<ProcessedTx>,
}

/// What marking `h` does to the set `processed` of marked hashes: the set
/// with `h` added, or `AlreadyProcessed` where `h` is in it.
pub open spec fn mark_outcome(processed: Set<[u8; 32]>, h: [u8; 32]) -> Result<Set<[u8; 32]>, BridgeError> {
    if processed.contains(h) {
        Err(BridgeError::AlreadyProcessed)
    } else {
        Ok(processed.insert(h))
    }
}

impl ReplayGuard {
    /// The hashes of the records, in order.
    pub open spec fn hashes(&self) -> Seq<[u8; 32]> {
        self.records@.map_values(|r: ProcessedTx| r.bnb_tx_hash)
    }

    pub open spec fn processed(&self) -> Set<[u8; 32]> {
        self.hashes().to_set()
    }

    /// One record per hash, each marked processed.
    pub open spec fn wf(&self) -> bool {
        &&& self.hashes().no_duplicates()
        &&& forall|i: int| 0 <= i < self.records@.len() ==> (#[trigger] self.records@[i]).is_processed
    }

    pub fn new() -> (r: ReplayGuard)
        ensures
            r.wf(),
            r.processed() == Set::<[u8; 32]>::empty(),
    {
        let r = ReplayGuard { records: Vec::new() };
        assert(r.processed() =~= Set::<[u8; 32]>::empty());
        r
    }

    /// Position of the record for `h`, if there is one.
    fn find(&self, h: &[u8; 32]) -> (r: Option<usize>)
        ensures
            r is None <==> !self.processed().contains(*h),
            r matches Some(i) ==> i < self.records@.len() && self.records@[i as int].bnb_tx_hash == *h,
    {
        let mut i: usize = 0;
        while i < self.records.len()
            invariant
                i <= self.records@.len(),
                forall|j: int| 0 <= j < i ==> self.records@[j].bnb_tx_hash != *h,
            decreases self.records@.len() - i,
        {
            if keys_equal(&self.records[i].bnb_tx_hash, h) {
                assert(self.hashes()[i as int] == *h);
                return Some(i);
            }
            i = i + 1;
        }
        proof {
            if self.hashes().contains(*h) {
                let k = choose|k: int| 0 <= k < self.hashes().len() && self.hashes()[k] == *h;
                assert(self.records@[k].bnb_tx_hash == *h);
            }
        }
        None
    }

    /// Whether a record for `h` exists.
    pub fn is_processed(&self, h: &[u8; 32]) -> (r: bool)
        ensures
            r == self.processed().contains(*h),
    {
        self.find(h).is_some()
    }

    /// The record for `h`, if there is one.
    pub fn record(&self, h: &[u8; 32]) -> (r: Option<ProcessedTx>)
        ensures
            r is None <==> !self.processed().contains(*h),
            r matches Some(t) ==> t.bnb_tx_hash == *h && self.records@.contains(t),
    {
        match self.find(h) {
            Some(i) => Some(self.records[i]),
            None => None,
        }
    }

    /// Writes the record for `h`, stamped `timestamp`. Fails with
    /// `AlreadyProcessed`, writing nothing, where a record for `h` exists.
    pub fn mark_processed(&mut self, h: [u8; 32], timestamp: i64) -> (r: Result<(), BridgeError>)
        requires
            old(self).wf(),
        ensures
            final(self).wf(),
            match mark_outcome(old(self).processed(), h) {
                Ok(s) => r is Ok && final(self).processed() == s && final(self).records@ == old(
                    self,
                ).records@.push(ProcessedTx { is_processed: true, bnb_tx_hash: h, timestamp }),
                Err(e) => r == Err::<(), BridgeError>(e) && *final(self) == *old(self),
            },
    {
        if self.is_processed(&h) {
            return Err(BridgeError::AlreadyProcessed);
        }
        let ghost before = self.hashes();
        self.records.push(ProcessedTx { is_processed: true, bnb_tx_hash: h, timestamp });
        proof {
            assert(self.hashes() =~= before.push(h));
            before.lemma_push_to_set_commute(h);
            assert(!before.contains(h));
            assert(self.hashes().no_duplicates()) by {
                assert forall|a: int, b: int|
                    0 <= a < self.hashes().len() && 0 <= b < self.hashes().len() && a != b implies
                    #[trigger] self.hashes()[a] != #[trigger] self.hashes()[b] by {
                    if a == before.len() {
                        assert(before[b] != h);
                    } else if b == before.len() {
                        assert(before[a] != h);
                    }
                }
            };
        }
        Ok(())
    }
}

/// The seed that, with a source transaction hash, places that hash's replay
/// record: `"processed-tx"`.
pub const PROCESSED_TX_SEED: [u8; 12] = [112, 114, 111, 99, 101, 115, 115, 101, 100, 45, 116, 120];

/// The program-derived address, with its bump seed, of the seeds `seed` and
/// `key` under `program_id`, or none where no bump seed gives one. A function
/// of its arguments alone.
pub uninterp spec fn program_address_of(seed: Seq<u8>, key: Seq<u8>, program_id: Seq<u8>) -> Option<(Seq<u8>, u8)>;

/// Relies on `solana_sdk::pubkey::Pubkey::try_find_program_address`: the first
/// bump seed, from 255 down, that puts the address off the Ed25519 curve.
#[verifier::external_body]
fn find_program_address(seed: &[u8], key: &[u8], program_id: &Pubkey) -> (r: Option<(Pubkey, u8)>)
    ensures
        r is None <==> program_address_of(seed@, key@, program_id@) is None,
        r matches Some(p) ==> program_address_of(seed@, key@, program_id@) == Some((p.0@, p.1)),
{
    let program = solana_sdk::pubkey::Pubkey::new_from_array(*program_id);
    solana_sdk::pubkey::Pubkey::try_find_program_address(&[seed, key], &program).map(|(a, b)| (a.to_bytes(), b))
}

/// The address of the replay record for `tx_hash` under the bridge program
/// `program_id`, where one exists.
pub fn derive_processed_key(program_id: &Pubkey, tx_hash: &[u8; 32]) -> (r: Option<Pubkey>)
    ensures
        r is None <==> program_address_of(PROCESSED_TX_SEED@, tx_hash@, program_id@) is None,
        r matches Some(a) ==> program_address_of(PROCESSED_TX_SEED@, tx_hash@, program_id@)->Some_0.0 == a@,
{
    match find_program_address(&PROCESSED_TX_SEED, tx_hash, program_id) {
        Some(p) => Some(p.0),
        None => None,
    }
}

/// A source hash can be marked once: where marking `h` succeeds, marking it
/// again in the resulting state fails with `AlreadyProcessed`, and so it does
/// in every state that holds `h`.
pub proof fn law_mark_processed_once(processed: Set<[u8; 32]>, h: [u8; 32])
    ensures
        mark_outcome(processed, h) is Ok <==> !processed.contains(h),
        mark_outcome(processed, h) matches Ok(after) ==> after.contains(h) && mark_outcome(after, h)
            == Err::<Set<[u8; 32]>, BridgeError>(BridgeError::AlreadyProcessed),
        processed.contains(h) ==> mark_outcome(processed, h) == Err::<Set<[u8; 32]>, BridgeError>(
            BridgeError::AlreadyProcessed,
        ),
{
}

} // verus!
