//! Fixed-size identifiers and their comparison.
use vstd::prelude::*;

verus! {

/// A 32-byte account identity (an Ed25519 public key).
pub type Pubkey = [u8; 32];

/// Byte-wise equality of two slices.
pub fn bytes_equal(a: &[u8], b: &[u8]) -> (r: bool)
    ensures
        r == (a@ == b@),
{
    if a.len() != b.len() {
        return false;
    }
    let mut i: usize = 0;
    while i < a.len()
        invariant
            a@.len() == b@.len(),
            i <= a@.len(),
            forall|j: int| 0 <= j < i ==> a@[j] == b@[j],
        decreases a@.len() - i,
    {
        if a[i] != b[i] {
            return false;
        }
        i = i + 1;
    }
    assert(a@ =~= b@);
    true
}

/// Equality of two byte arrays of one length.
pub fn keys_equal<const N: usize>(a: &[u8; N], b: &[u8; N]) -> (r: bool)
    ensures
        r == (*a == *b),
{
    let r = bytes_equal(a, b);
    if r {
        assert(*a =~= *b);
    }
    r
}

/// Position of `k` in `v`, if it occurs there.
pub fn find_key(v: &Vec<Pubkey>, k: &Pubkey) -> (r: Option<usize>)
    ensures
        r is None <==> !v@.contains(*k),
        r matches Some(i) ==> i < v@.len() && v@[i as int] == *k,
{
    let mut i: usize = 0;
    while i < v.len()
        invariant
            i <= v@.len(),
            forall|j: int| 0 <= j < i ==> v@[j] != *k,
        decreases v@.len() - i,
    {
        if keys_equal(&v[i], k) {
            return Some(i);
        }
        i = i + 1;
    }
    None
}

} // verus!
