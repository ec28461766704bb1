//! The per-session nonce: 8 random bytes, then the Unix time in seconds as
//! 8 little-endian bytes. It is the cipher's full initial counter block.

use vstd::prelude::*;
use crate::keys::random_bytes;
use crate::wire::NONCE_LEN;

verus! {

/// The 8 little-endian bytes of `t`.
pub open spec fn le_bytes(t: u64) -> Seq<u8> {
    Seq::new(8, |i: int| ((t >> ((8 * i) as u64)) % 256) as u8)
}

/// A nonce from its two parts.
pub fn nonce_from_parts(random: &[u8; 8], timestamp: u64) -> (r: [u8; NONCE_LEN])
    ensures
        r@ == random@ + le_bytes(timestamp),
{
    let mut n = [0u8; NONCE_LEN];
    let mut i: usize = 0;
    while i < 8
        invariant
            i <= 8,
            n@.len() == NONCE_LEN,
            forall|k: int| 0 <= k < i ==> n@[k] == random@[k],
            forall|k: int| 0 <= k < i ==> #[trigger] n@[8 + k] == le_bytes(timestamp)[k],
        decreases 8 - i,
    {
        n[i] = random[i];
        n[8 + i] = ((timestamp >> (8 * i as u64)) % 256) as u8;
        i = i + 1;
    }
    assert forall|k: int| 8 <= k < 16 implies n@[k] == (random@ + le_bytes(timestamp))[k] by {
        assert(n@[8 + (k - 8)] == le_bytes(timestamp)[k - 8]);
    }
    assert(n@ =~= random@ + le_bytes(timestamp));
    n
}

/// A fresh nonce for a session that starts at `timestamp`.
pub fn generate_nonce(timestamp: u64) -> (r: [u8; NONCE_LEN])
    ensures
        r@.len() == NONCE_LEN,
        r@.subrange(8, 16) == le_bytes(timestamp),
{
    let v = random_bytes(8);
    let mut random = [0u8; 8];
    let mut i: usize = 0;
    while i < 8
        invariant
            i <= 8,
            v@.len() == 8,
        decreases 8 - i,
    {
        random[i] = v[i];
        i = i + 1;
    }
    let r = nonce_from_parts(&random, timestamp);
    assert(r@.subrange(8, 16) =~= le_bytes(timestamp));
    r
}

} // verus!
