//! A confidential point-to-point byte tunnel: X25519 key agreement,
//! HKDF-SHA256 key derivation, and AES in 128-bit big-endian counter mode
//! applied to an unbounded byte stream, with a restart-forever supervisor.
//!
//! There is no handshake authentication and no integrity tag: a mismatched
//! key exchange is not detected, it only yields undecryptable output.

pub mod hexcodec;
pub mod strength;
pub mod text;
pub mod wire;
pub mod keys;
pub mod nonce;
pub mod cipher;
pub mod relay;
pub mod supervisor;
pub mod session;
