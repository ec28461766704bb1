//! Ephemeral X25519 key agreement, session-key derivation and randomness.

use vstd::prelude::*;
use crate::strength::CipherStrength;
use crate::wire::{to_array, POINT_LEN};

verus! {

/// What X25519 gives for a scalar and a u-coordinate.
pub uninterp spec fn x25519_of(k: Seq<u8>, u: Seq<u8>) -> Seq<u8>;

/// What HKDF-SHA256 without salt gives for a secret, a label and a length.
pub uninterp spec fn hkdf_sha256_of(ikm: Seq<u8>, info: Seq<u8>, len: nat) -> Seq<u8>;

/// Relies on x25519_dalek::x25519: clamped scalar multiplication of a
/// Montgomery u-coordinate, a function of its two arguments.
#[verifier::external_body]
fn x25519_mult(k: [u8; POINT_LEN], u: [u8; POINT_LEN]) -> (r: [u8; POINT_LEN])
    ensures
        r@ == x25519_of(k@, u@),
{
    x25519_dalek::x25519(k, u)
}

/// Relies on hkdf::Hkdf::<Sha256>::new with no salt, then expand into a
/// buffer of `len` bytes; expand fails only above 255 hash lengths.
#[verifier::external_body]
fn hkdf_sha256(ikm: &[u8], info: &[u8], len: usize) -> (r: Vec<u8>)
    requires
        len <= 255 * 32,
    ensures
        r@.len() == len,
        r@ == hkdf_sha256_of(ikm@, info@, len as nat),
{
    let mut okm = vec![0u8; len];
    hkdf::Hkdf::<sha2::Sha256>::new(None, ikm).expand(info, &mut okm).unwrap();
    okm
}

/// Relies on rand's OsRng::fill_bytes: overwrites the buffer with bytes from
/// the operating system's secure generator; nothing is known of them. It
/// panics only where the operating system's generator fails.
#[verifier::external_body]
fn fill_os_random(buf: &mut Vec<u8>)
    ensures
        final(buf)@.len() == old(buf)@.len(),
{
    rand::RngCore::fill_bytes(&mut rand::rngs::OsRng, buf.as_mut_slice())
}

/// `n` zero bytes.
pub fn zeros(n: usize) -> (r: Vec<u8>)
    ensures
        r@ == Seq::new(n as nat, |i: int| 0u8),
{
    let mut v: Vec<u8> = Vec::new();
    let mut i: usize = 0;
    while i < n
        invariant
            i <= n,
            v@ == Seq::new(i as nat, |k: int| 0u8),
        decreases n - i,
    {
        v.push(0u8);
        i = i + 1;
        assert(v@ =~= Seq::new(i as nat, |k: int| 0u8));
    }
    v
}

/// `n` bytes from the operating system's secure generator.
pub fn random_bytes(n: usize) -> (r: Vec<u8>)
    ensures
        r@.len() == n,
{
    let mut v = zeros(n);
    fill_os_random(&mut v);
    v
}

/// The Curve25519 base point, u = 9.
pub open spec fn base_point() -> Seq<u8> {
    Seq::new(POINT_LEN as nat, |i: int| if i == 0 { 9u8 } else { 0u8 })
}

/// The HKDF label of session keys, "aes key".
pub open spec fn key_label() -> Seq<u8> {
    seq![97u8, 101u8, 115u8, 32u8, 107u8, 101u8, 121u8]
}

/// The session key that a shared secret gives at a strength.
pub open spec fn session_key_of(shared: Seq<u8>, s: CipherStrength) -> Seq<u8> {
    hkdf_sha256_of(shared, key_label(), s.spec_key_len())
}

/// A fresh private scalar, never reused across sessions.
pub fn generate_secret() -> (r: [u8; POINT_LEN]) {
    let v = random_bytes(POINT_LEN);
    to_array(v.as_slice())
}

/// The public point of a private scalar.
pub fn public_key(secret: &[u8; POINT_LEN]) -> (r: [u8; POINT_LEN])
    ensures
        r@ == x25519_of(secret@, base_point()),
{
    let mut base = [0u8; POINT_LEN];
    base[0] = 9u8;
    assert(base@ =~= base_point());
    x25519_mult(*secret, base)
}

/// The shared secret of a local private scalar and a peer's public point.
pub fn shared_secret(secret: &[u8; POINT_LEN], peer: &[u8; POINT_LEN]) -> (r: [u8; POINT_LEN])
    ensures
        r@ == x25519_of(secret@, peer@),
{
    x25519_mult(*secret, *peer)
}

/// Derives the session key: HKDF-SHA256 of the shared secret, no salt,
/// label "aes key", as many bytes as the strength's key length.
pub fn derive_session_key(shared: &[u8], s: CipherStrength) -> (r: Vec<u8>)
    ensures
        r@ == session_key_of(shared@, s),
        r@.len() == s.spec_key_len(),
{
    let mut label: Vec<u8> = Vec::new();
    label.push(97u8);
    label.push(101u8);
    label.push(115u8);
    label.push(32u8);
    label.push(107u8);
    label.push(101u8);
    label.push(121u8);
    assert(label@ =~= key_label());
    hkdf_sha256(shared, label.as_slice(), s.key_len())
}

/// Two peers that hold the same shared secret and strength derive
/// byte-identical session keys.
pub proof fn lemma_equal_secrets_equal_keys(a: Seq<u8>, b: Seq<u8>, s: CipherStrength)
    requires
        a == b,
    ensures
        session_key_of(a, s) == session_key_of(b, s),
{
}

} // verus!
