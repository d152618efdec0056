//! The chain watchers' decisions: which block range to scan, when the cursor
//! may advance, how a lock log is read, which burn transactions are new, and
//! the digest under which a lock is attested.
use vstd::prelude::*;
use crate::attest::{mint_digest, mint_digest_spec};
use crate::bridge::BridgeError;
use crate::keys::{keys_equal, Pubkey};

verus! {

/// A lock observed on the remote chain.
#[derive(Clone, Copy, Debug, PartialEq, Eq)]
pub struct LockEvent {
    pub lock_id: [u8; 32],
    pub token: [u8; 20],
    pub amount: u64,
    pub solana_recipient: Pubkey,
    pub timestamp: i64,
}

/// A burn observed on this chain, to be released on the remote chain.
#[derive(Clone, Copy, Debug, PartialEq, Eq)]
pub struct BurnEvent {
    pub nonce: u64,
    pub amount: u64,
    pub bnb_recipient: [u8; 20],
    pub token_mint: Pubkey,
    pub user: Pubkey,
    pub timestamp: i64,
}

/// What a watcher does on a tick.
#[derive(Clone, Copy, Debug, PartialEq, Eq, Structural)]
pub enum WatchAction {
    /// The chain has not moved past the cursor.
    Idle,
    /// Fetch the blocks after `from` up to and including `to`.
    Scan { from: u64, to: u64 },
}

/// A watcher's cursor: the last block whose events were all handed on.
#[derive(Clone, Copy, Debug, PartialEq, Eq, Structural)]
pub struct ChainWatcher {
    pub cursor: u64,
}

impl ChainWatcher {
    pub fn new(cursor: u64) -> (r: ChainWatcher)
        ensures
            r.cursor == cursor,
    {
        ChainWatcher { cursor }
    }

    /// The tick's action for chain head `head`: nothing where the head is not
    /// past the cursor, else the range from the cursor to the head.
    pub fn plan(&self, head: u64) -> (r: WatchAction)
        ensures
            head <= self.cursor ==> r == WatchAction::Idle,
            head > self.cursor ==> r == (WatchAction::Scan { from: self.cursor, to: head }),
    {
        if head <= self.cursor {
            WatchAction::Idle
        } else {
            WatchAction::Scan { from: self.cursor, to: head }
        }
    }

    /// Ends a scan up to `to`. The cursor moves to `to` only where every event
    /// of the range was extracted and handed on; otherwise the same range is
    /// scanned again on the next tick. It never moves back.
    pub fn complete(&mut self, to: u64, all_handed_on: bool)
        ensures
            all_handed_on && to > old(self).cursor ==> final(self).cursor == to,
            !(all_handed_on && to > old(self).cursor) ==> final(self).cursor == old(self).cursor,
    {
        if all_handed_on && to > self.cursor {
            self.cursor = to;
        }
    }
}

/// The big-endian value of the bytes `s`.
pub open spec fn be_value(s: Seq<u8>) -> nat
    decreases s.len(),
{
    if s.len() == 0 {
        0
    } else {
        be_value(s.drop_last()) * 256 + s.last() as nat
    }
}

pub open spec fn pow256(k: nat) -> nat
    decreases k,
{
    if k == 0 {
        1
    } else {
        256 * pow256((k - 1) as nat)
    }
}

proof fn lemma_be_value_bound(s: Seq<u8>)
    ensures
        be_value(s) < pow256(s.len()),
    decreases s.len(),
{
    if s.len() > 0 {
        lemma_be_value_bound(s.drop_last());
        let a = be_value(s.drop_last());
        let p = pow256(s.drop_last().len());
        let b = s.last() as nat;
        assert(a * 256 + b < 256 * p) by (nonlinear_arith)
            requires
                a < p,
                b < 256,
        ;
    }
}

/// Reads the eight bytes of `b` from `start` as a big-endian integer.
pub fn read_be_u64(b: &Vec<u8>, start: usize) -> (r: u64)
    requires
        start + 8 <= b@.len(),
    ensures
        r as nat == be_value(b@.subrange(start as int, start + 8)),
{
    let len = b.len();
    let mut acc: u64 = 0;
    let mut k: usize = 0;
    proof {
        reveal_with_fuel(pow256, 9);
    }
    while k < 8
        invariant
            k <= 8,
            start + 8 <= b@.len(),
            len == b@.len(),
            acc as nat == be_value(b@.subrange(start as int, start + k)),
        decreases 8 - k,
    {
        let ghost prefix = b@.subrange(start as int, start + k);
        let ghost next = b@.subrange(start as int, start + k + 1);
        proof {
            lemma_be_value_bound(prefix);
            assert(next.drop_last() =~= prefix);
            lemma_pow256_monotone(k as nat, 7);
            reveal_with_fuel(pow256, 9);
            assert(pow256(7) * 256 == 0x1_0000_0000_0000_0000);
            let p = pow256(k as nat);
            let a = acc as nat;
            assert(a * 256 + 255 < 0x1_0000_0000_0000_0000) by (nonlinear_arith)
                requires
                    a < p,
                    p <= pow256(7),
                    pow256(7) * 256 == 0x1_0000_0000_0000_0000,
            ;
        }
        acc = acc * 256 + b[start + k] as u64;
        k = k + 1;
    }
    acc
}

proof fn lemma_pow256_monotone(a: nat, b: nat)
    requires
        a <= b,
    ensures
        pow256(a) <= pow256(b),
    decreases b,
{
    if a < b {
        lemma_pow256_monotone(a, (b - 1) as nat);
    }
}

/// Copies the `N` bytes of `b` from `start` into an array.
pub fn read_array<const N: usize>(b: &Vec<u8>, start: usize) -> (r: [u8; N])
    requires
        start + N <= b@.len(),
    ensures
        r@ == b@.subrange(start as int, start + N),
{
    let len = b.len();
    let mut out = [0u8; N];
    let mut k: usize = 0;
    while k < N
        invariant
            k <= N,
            start + N <= b@.len(),
            len == b@.len(),
            out@.len() == N,
            forall|j: int| 0 <= j < k ==> out@[j] == b@[start + j],
        decreases N - k,
    {
        out[k] = b[start + k];
        k = k + 1;
    }
    assert(out@ =~= b@.subrange(start as int, start + N));
    out
}

/// A `TokensLocked(bytes32,address,address,uint256,bytes32)` log is well
/// formed: the lock id is its second topic, and its data holds four 32-byte
/// words (token, sender, amount, recipient) with an amount that fits in 64 bits.
pub open spec fn lock_log_ok(topics: Seq<[u8; 32]>, data: Seq<u8>) -> bool {
    &&& topics.len() >= 2
    &&& data.len() >= 128
    &&& forall|j: int| 64 <= j < 88 ==> data[j] == 0
}

/// Reads a lock from a `TokensLocked` log of the remote bridge contract, or
/// refuses it as `MalformedEvent`.
pub fn parse_lock_log(topics: &Vec<[u8; 32]>, data: &Vec<u8>, timestamp: i64) -> (r: Result<LockEvent, BridgeError>)
    ensures
        !lock_log_ok(topics@, data@) ==> r == Err::<LockEvent, BridgeError>(BridgeError::MalformedEvent),
        lock_log_ok(topics@, data@) ==> (r matches Ok(ev) && ev.lock_id == topics@[1] && ev.token@ == data@.subrange(
            12,
            32,
        ) && ev.amount as nat == be_value(data@.subrange(88, 96)) && ev.solana_recipient@ == data@.subrange(
            96,
            128,
        ) && ev.timestamp == timestamp),
{
    if topics.len() < 2 || data.len() < 128 {
        return Err(BridgeError::MalformedEvent);
    }
    let mut j: usize = 64;
    while j < 88
        invariant
            64 <= j <= 88,
            data@.len() >= 128,
            forall|i: int| 64 <= i < j ==> data@[i] == 0,
        decreases 88 - j,
    {
        if data[j] != 0 {
            return Err(BridgeError::MalformedEvent);
        }
        j = j + 1;
    }
    let lock_id = topics[1];
    let token: [u8; 20] = read_array(data, 12);
    let amount = read_be_u64(data, 88);
    let solana_recipient: [u8; 32] = read_array(data, 96);
    Ok(LockEvent { lock_id, token, amount, solana_recipient, timestamp })
}

/// The digest validators sign to attest `ev`: the mint digest for its
/// amount, lock id, token and recipient.
pub fn process_bnb_lock(ev: &LockEvent) -> (r: [u8; 32])
    ensures
        r@ == mint_digest_spec(ev.amount, ev.lock_id@, ev.token@, ev.solana_recipient@),
{
    mint_digest(ev.amount, &ev.lock_id, &ev.token, &ev.solana_recipient)
}

/// Splits the signatures of the bridge's recent transactions, newest first,
/// at `last`: how many are new, and the signature to remember next (the
/// newest, or `last` where there is none).
pub fn monitor_solana_burns(sigs: &Vec<[u8; 64]>, last: Option<[u8; 64]>) -> (r: (usize, Option<[u8; 64]>))
    ensures
        r.0 <= sigs@.len(),
        forall|j: int| 0 <= j < r.0 ==> last != Some(#[trigger] sigs@[j]),
        r.0 < sigs@.len() ==> last == Some(sigs@[r.0 as int]),
        sigs@.len() == 0 ==> r.1 == last,
        sigs@.len() > 0 ==> r.1 == Some(sigs@[0]),
{
    if sigs.len() == 0 {
        return (0, last);
    }
    let mut n: usize = 0;
    while n < sigs.len()
        invariant
            n <= sigs@.len(),
            forall|j: int| 0 <= j < n ==> last != Some(#[trigger] sigs@[j]),
        ensures
            n <= sigs@.len(),
            forall|j: int| 0 <= j < n ==> last != Some(#[trigger] sigs@[j]),
            n < sigs@.len() ==> last == Some(sigs@[n as int]),
        decreases sigs@.len() - n,
    {
        match &last {
            Some(l) => {
                if keys_equal(&sigs[n], l) {
                    break;
                }
            },
            None => {},
        }
        n = n + 1;
    }
    (n, Some(sigs[0]))
}

} // verus!
