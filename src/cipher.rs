//! The session cipher: AES in counter mode with a 128-bit big-endian counter
//! whose initial block is the nonce. One continuous keystream covers every
//! byte of a session; encryption and decryption are the same transform.

use vstd::prelude::*;
use crate::strength::CipherStrength;
use crate::wire::NONCE_LEN;

verus! {

/// Keystream byte `index` of AES-128 in counter mode from a key and an
/// initial counter block.
pub uninterp spec fn aes128_ctr_keystream(key: Seq<u8>, iv: Seq<u8>, index: int) -> u8;

/// Keystream byte `index` of AES-192 in counter mode.
pub uninterp spec fn aes192_ctr_keystream(key: Seq<u8>, iv: Seq<u8>, index: int) -> u8;

/// Keystream byte `index` of AES-256 in counter mode.
pub uninterp spec fn aes256_ctr_keystream(key: Seq<u8>, iv: Seq<u8>, index: int) -> u8;

pub open spec fn keystream_byte(s: CipherStrength, key: Seq<u8>, iv: Seq<u8>, index: int) -> u8 {
    match s {
        CipherStrength::Strength128 => aes128_ctr_keystream(key, iv, index),
        CipherStrength::Strength192 => aes192_ctr_keystream(key, iv, index),
        CipherStrength::Strength256 => aes256_ctr_keystream(key, iv, index),
    }
}

/// `data` XORed with the keystream from byte `start` on.
pub open spec fn xor_keystream(
    s: CipherStrength,
    key: Seq<u8>,
    iv: Seq<u8>,
    start: int,
    data: Seq<u8>,
) -> Seq<u8> {
    Seq::new(data.len(), |i: int| data[i] ^ keystream_byte(s, key, iv, start + i))
}

/// Relies on ctr::Ctr128BE<aes::Aes128>: made from the key and the initial
/// counter block, moved to byte `pos` with seek, and applied in place, it XORs
/// byte i of `buf` with keystream byte `pos + i`. Below 2^64 bytes the
/// keystream never runs out, so neither seek nor apply_keystream panics.
#[verifier::external_body]
fn aes128_ctr_apply(key: &[u8], iv: &[u8], pos: u64, buf: &mut Vec<u8>)
    requires
        key@.len() == 16,
        iv@.len() == 16,
    ensures
        final(buf)@.len() == old(buf)@.len(),
        forall|i: int|
            0 <= i < old(buf)@.len() ==> #[trigger] final(buf)@[i] == old(buf)@[i]
                ^ aes128_ctr_keystream(key@, iv@, pos + i),
{
    let mut c = <ctr::Ctr128BE<aes::Aes128> as ctr::cipher::KeyIvInit>::new(key.into(), iv.into());
    ctr::cipher::StreamCipherSeek::seek(&mut c, pos);
    ctr::cipher::StreamCipher::apply_keystream(&mut c, buf.as_mut_slice());
}

/// Relies on ctr::Ctr128BE<aes::Aes192>, as for AES-128 with a 24-byte key.
#[verifier::external_body]
fn aes192_ctr_apply(key: &[u8], iv: &[u8], pos: u64, buf: &mut Vec<u8>)
    requires
        key@.len() == 24,
        iv@.len() == 16,
    ensures
        final(buf)@.len() == old(buf)@.len(),
        forall|i: int|
            0 <= i < old(buf)@.len() ==> #[trigger] final(buf)@[i] == old(buf)@[i]
                ^ aes192_ctr_keystream(key@, iv@, pos + i),
{
    let mut c = <ctr::Ctr128BE<aes::Aes192> as ctr::cipher::KeyIvInit>::new(key.into(), iv.into());
    ctr::cipher::StreamCipherSeek::seek(&mut c, pos);
    ctr::cipher::StreamCipher::apply_keystream(&mut c, buf.as_mut_slice());
}

/// Relies on ctr::Ctr128BE<aes::Aes256>, as for AES-128 with a 32-byte key.
#[verifier::external_body]
fn aes256_ctr_apply(key: &[u8], iv: &[u8], pos: u64, buf: &mut Vec<u8>)
    requires
        key@.len() == 32,
        iv@.len() == 16,
    ensures
        final(buf)@.len() == old(buf)@.len(),
        forall|i: int|
            0 <= i < old(buf)@.len() ==> #[trigger] final(buf)@[i] == old(buf)@[i]
                ^ aes256_ctr_keystream(key@, iv@, pos + i),
{
    let mut c = <ctr::Ctr128BE<aes::Aes256> as ctr::cipher::KeyIvInit>::new(key.into(), iv.into());
    ctr::cipher::StreamCipherSeek::seek(&mut c, pos);
    ctr::cipher::StreamCipher::apply_keystream(&mut c, buf.as_mut_slice());
}

/// A session's keystream: strength, key, nonce and the position of the next
/// byte to transform.
pub struct SessionCipher {
    strength: CipherStrength,
    key: Vec<u8>,
    nonce: [u8; NONCE_LEN],
    position: u64,
}

impl SessionCipher {
    pub closed spec fn spec_strength(&self) -> CipherStrength {
        self.strength
    }

    pub closed spec fn spec_key(&self) -> Seq<u8> {
        self.key@
    }

    pub closed spec fn spec_nonce(&self) -> Seq<u8> {
        self.nonce@
    }

    pub closed spec fn spec_position(&self) -> nat {
        self.position as nat
    }

    /// The key fits the strength.
    pub closed spec fn wf(&self) -> bool {
        self.key@.len() == self.strength.spec_key_len()
    }

    /// A cipher at the start of the keystream.
    pub fn new(strength: CipherStrength, key: Vec<u8>, nonce: [u8; NONCE_LEN]) -> (r: SessionCipher)
        requires
            key@.len() == strength.spec_key_len(),
        ensures
            r.wf(),
            r.spec_strength() == strength,
            r.spec_key() == key@,
            r.spec_nonce() == nonce@,
            r.spec_position() == 0,
    {
        SessionCipher { strength, key, nonce, position: 0 }
    }

    pub fn strength(&self) -> (r: CipherStrength)
        ensures
            r == self.spec_strength(),
    {
        self.strength
    }

    pub fn position(&self) -> (r: u64)
        ensures
            r == self.spec_position(),
    {
        self.position
    }

    /// Room left in the keystream before the position would overflow.
    pub fn room(&self) -> (r: u64)
        ensures
            r == u64::MAX - self.spec_position(),
    {
        u64::MAX - self.position
    }

    /// XORs `buf` in place with the next `buf.len()` keystream bytes and
    /// advances the position past them.
    pub fn transform(&mut self, buf: &mut Vec<u8>)
        requires
            old(self).wf(),
            old(self).spec_position() + old(buf)@.len() <= u64::MAX,
        ensures
            final(self).wf(),
            final(self).spec_strength() == old(self).spec_strength(),
            final(self).spec_key() == old(self).spec_key(),
            final(self).spec_nonce() == old(self).spec_nonce(),
            final(self).spec_position() == old(self).spec_position() + old(buf)@.len(),
            final(buf)@ == xor_keystream(
                old(self).spec_strength(),
                old(self).spec_key(),
                old(self).spec_nonce(),
                old(self).spec_position() as int,
                old(buf)@,
            ),
    {
        let ghost before = buf@;
        match self.strength {
            CipherStrength::Strength128 => {
                aes128_ctr_apply(self.key.as_slice(), self.nonce.as_slice(), self.position, buf)
            },
            CipherStrength::Strength192 => {
                aes192_ctr_apply(self.key.as_slice(), self.nonce.as_slice(), self.position, buf)
            },
            CipherStrength::Strength256 => {
                aes256_ctr_apply(self.key.as_slice(), self.nonce.as_slice(), self.position, buf)
            },
        }
        assert(buf@ =~= xor_keystream(
            self.strength,
            self.key@,
            self.nonce@,
            self.position as int,
            before,
        ));
        self.position = self.position + buf.len() as u64;
    }
}

/// Transforming twice from the same keystream position gives back the
/// original bytes.
pub proof fn lemma_transform_involution(
    s: CipherStrength,
    key: Seq<u8>,
    iv: Seq<u8>,
    start: int,
    data: Seq<u8>,
)
    ensures
        xor_keystream(s, key, iv, start, xor_keystream(s, key, iv, start, data)) == data,
{
    let once = xor_keystream(s, key, iv, start, data);
    let twice = xor_keystream(s, key, iv, start, once);
    assert forall|i: int| 0 <= i < data.len() implies twice[i] == data[i] by {
        let a = data[i];
        let k = keystream_byte(s, key, iv, start + i);
        assert((a ^ k) ^ k == a) by (bit_vector);
    }
    assert(twice =~= data);
}

/// Transforming `a` and then `b` from where `a` ended equals transforming
/// `a + b` in one call.
pub proof fn lemma_keystream_continuity(
    s: CipherStrength,
    key: Seq<u8>,
    iv: Seq<u8>,
    start: int,
    a: Seq<u8>,
    b: Seq<u8>,
)
    ensures
        xor_keystream(s, key, iv, start, a + b) == xor_keystream(s, key, iv, start, a)
            + xor_keystream(s, key, iv, start + a.len(), b),
{
    assert(xor_keystream(s, key, iv, start, a + b) =~= xor_keystream(s, key, iv, start, a)
        + xor_keystream(s, key, iv, start + a.len(), b));
}

} // verus!
