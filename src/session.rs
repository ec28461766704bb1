//! The two handshake roles. The listener chooses the strength and speaks
//! first; the originator answers with its public point and the nonce.
//! Lines are read and written by the caller.

use vstd::prelude::*;
use crate::cipher::{lemma_transform_involution, xor_keystream, SessionCipher};
use crate::keys::{
    base_point, derive_session_key, generate_secret, public_key, session_key_of, shared_secret,
    x25519_of,
};
use crate::nonce::{generate_nonce, le_bytes};
use crate::strength::CipherStrength;
use crate::text::decimal_below;
use crate::wire::{
    field_line, field_text, hello_line, hello_spec, hello_text, hex_field, parse_hello,
    parse_nonce_line, parse_point_line, strength_token, lemma_field_round_trip, lemma_hello_round_trip,
    ProtocolError, NONCE_LEN, POINT_LEN,
};
use crate::text::trim;

verus! {

/// A strength given at startup that is not 128, 192 or 256.
#[derive(Clone, Copy, Debug, PartialEq, Eq, Structural)]
pub enum ConfigurationError {
    InvalidStrength,
}

/// Reads the listener's configured strength from its decimal text.
pub fn strength_from_arg(arg: &[u8]) -> (r: Result<CipherStrength, ConfigurationError>)
    ensures
        match strength_token(arg@) {
            Some(s) => r == Ok::<CipherStrength, ConfigurationError>(s),
            None => r == Err::<CipherStrength, _>(ConfigurationError::InvalidStrength),
        },
{
    match decimal_below(arg, 1000) {
        None => Err(ConfigurationError::InvalidStrength),
        Some(v) => match CipherStrength::from_bits(v) {
            None => Err(ConfigurationError::InvalidStrength),
            Some(s) => Ok(s),
        },
    }
}

/// The listener's first line for a private scalar.
pub fn listener_hello(strength: CipherStrength, secret: &[u8; POINT_LEN]) -> (r: Vec<u8>)
    ensures
        r@ == hello_text(strength, x25519_of(secret@, base_point())),
{
    let p = public_key(secret);
    hello_line(strength, &p)
}

/// The listener reads the originator's point line and derives the session
/// key.
pub fn accept_point(strength: CipherStrength, secret: &[u8; POINT_LEN], line: &[u8]) -> (r: Result<
    Vec<u8>,
    ProtocolError,
>)
    ensures
        match hex_field(trim(line@), POINT_LEN as nat) {
            Ok(peer) => r matches Ok(k) && k@ == session_key_of(x25519_of(secret@, peer), strength),
            Err(e) => r == Err::<Vec<u8>, _>(e),
        },
        r matches Ok(k) ==> k@.len() == strength.spec_key_len(),
{
    match parse_point_line(line) {
        Err(e) => Err(e),
        Ok(peer) => {
            let shared = shared_secret(secret, &peer);
            Ok(derive_session_key(shared.as_slice(), strength))
        },
    }
}

/// The listener reads the nonce line and sets up its cipher.
pub fn accept_nonce(strength: CipherStrength, key: Vec<u8>, line: &[u8]) -> (r: Result<
    SessionCipher,
    ProtocolError,
>)
    requires
        key@.len() == strength.spec_key_len(),
    ensures
        match hex_field(trim(line@), NONCE_LEN as nat) {
            Ok(n) => r matches Ok(c) && c.wf() && c.spec_strength() == strength && c.spec_key()
                == key@ && c.spec_nonce() == n && c.spec_position() == 0,
            Err(e) => r is Err && r->Err_0 == e,
        },
{
    match parse_nonce_line(line) {
        Err(e) => Err(e),
        Ok(n) => Ok(SessionCipher::new(strength, key, n)),
    }
}

/// What the originator sends, and its cipher.
pub struct Originated {
    /// Its public point, as a line.
    pub point_line: Vec<u8>,
    /// The nonce, as a line.
    pub nonce_line: Vec<u8>,
    pub cipher: SessionCipher,
}

/// The originator's side for a given private scalar and nonce: reads the
/// listener's line, and fails on it before any key is derived.
pub fn originate(hello: &[u8], secret: &[u8; POINT_LEN], nonce: &[u8; NONCE_LEN]) -> (r: Result<
    Originated,
    ProtocolError,
>)
    ensures
        match hello_spec(hello@) {
            Ok((s, peer)) => r matches Ok(o) && {
                &&& o.point_line@ == field_text(x25519_of(secret@, base_point()))
                &&& o.nonce_line@ == field_text(nonce@)
                &&& o.cipher.wf()
                &&& o.cipher.spec_strength() == s
                &&& o.cipher.spec_key() == session_key_of(x25519_of(secret@, peer), s)
                &&& o.cipher.spec_nonce() == nonce@
                &&& o.cipher.spec_position() == 0
            },
            Err(e) => r is Err && r->Err_0 == e,
        },
{
    match parse_hello(hello) {
        Err(e) => Err(e),
        Ok((s, peer)) => Ok(originate_with(s, &peer, secret, nonce)),
    }
}

/// The originator's answer once the listener's line has been read.
fn originate_with(
    s: CipherStrength,
    peer: &[u8; POINT_LEN],
    secret: &[u8; POINT_LEN],
    nonce: &[u8; NONCE_LEN],
) -> (o: Originated)
    ensures
        o.point_line@ == field_text(x25519_of(secret@, base_point())),
        o.nonce_line@ == field_text(nonce@),
        o.cipher.wf(),
        o.cipher.spec_strength() == s,
        o.cipher.spec_key() == session_key_of(x25519_of(secret@, peer@), s),
        o.cipher.spec_nonce() == nonce@,
        o.cipher.spec_position() == 0,
{
    let mine = public_key(secret);
    let point_line = field_line(mine.as_slice());
    let shared = shared_secret(secret, peer);
    let key = derive_session_key(shared.as_slice(), s);
    let nonce_line = field_line(nonce.as_slice());
    Originated { point_line, nonce_line, cipher: SessionCipher::new(s, key, *nonce) }
}

/// The originator's side with a fresh private scalar and a fresh nonce for a
/// session that starts at `timestamp` (Unix seconds). The listener's line is
/// read first: on a bad line nothing is drawn and no key is derived.
pub fn originate_fresh(hello: &[u8], timestamp: u64) -> (r: Result<Originated, ProtocolError>)
    ensures
        match hello_spec(hello@) {
            Ok((s, peer)) => r matches Ok(o) && {
                &&& o.cipher.wf()
                &&& o.cipher.spec_strength() == s
                &&& o.cipher.spec_nonce().len() == NONCE_LEN
                &&& o.cipher.spec_nonce().subrange(8, 16) == le_bytes(timestamp)
                &&& o.nonce_line@ == field_text(o.cipher.spec_nonce())
                &&& o.cipher.spec_position() == 0
                &&& exists|k: Seq<u8>|
                    k.len() == POINT_LEN && o.point_line@ == field_text(x25519_of(k, base_point()))
                        && o.cipher.spec_key() == session_key_of(x25519_of(k, peer), s)
            },
            Err(e) => r is Err && r->Err_0 == e,
        },
{
    match parse_hello(hello) {
        Err(e) => Err(e),
        Ok((s, peer)) => {
            let secret = generate_secret();
            let nonce = generate_nonce(timestamp);
            let o = originate_with(s, &peer, &secret, &nonce);
            assert(secret@.len() == POINT_LEN);
            assert(o.point_line@ == field_text(x25519_of(secret@, base_point())));
            assert(o.cipher.spec_key() == session_key_of(x25519_of(secret@, peer@), s));
            Ok(o)
        },
    }
}

/// One session between a listener with scalar `a` and an originator with
/// scalar `b`: each side reads back exactly what the other wrote, and where
/// X25519 gives both sides the same shared secret, both derive the same key,
/// so the listener's transform undoes the originator's on every stretch of
/// the stream.
pub proof fn lemma_session_agreement(
    s: CipherStrength,
    a: Seq<u8>,
    b: Seq<u8>,
    nonce: Seq<u8>,
    start: int,
    data: Seq<u8>,
)
    requires
        x25519_of(a, base_point()).len() == POINT_LEN,
        x25519_of(b, base_point()).len() == POINT_LEN,
        nonce.len() == NONCE_LEN,
        x25519_of(a, x25519_of(b, base_point())) == x25519_of(b, x25519_of(a, base_point())),
    ensures
        hello_spec(hello_text(s, x25519_of(a, base_point()))) == Ok::<_, ProtocolError>(
            (s, x25519_of(a, base_point())),
        ),
        hex_field(trim(field_text(x25519_of(b, base_point()))), POINT_LEN as nat) == Ok::<
            _,
            ProtocolError,
        >(x25519_of(b, base_point())),
        hex_field(trim(field_text(nonce)), NONCE_LEN as nat) == Ok::<_, ProtocolError>(nonce),
        session_key_of(x25519_of(a, x25519_of(b, base_point())), s) == session_key_of(
            x25519_of(b, x25519_of(a, base_point())),
            s,
        ),
        xor_keystream(
            s,
            session_key_of(x25519_of(a, x25519_of(b, base_point())), s),
            nonce,
            start,
            xor_keystream(s, session_key_of(x25519_of(b, x25519_of(a, base_point())), s), nonce, start, data),
        ) == data,
{
    lemma_hello_round_trip(s, x25519_of(a, base_point()));
    lemma_field_round_trip(x25519_of(b, base_point()));
    lemma_field_round_trip(nonce);
    lemma_transform_involution(s, session_key_of(x25519_of(b, x25519_of(a, base_point())), s), nonce, start, data);
}

} // verus!
