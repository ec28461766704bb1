use std::collections::HashSet;

use stream_tunnel::cipher::SessionCipher;
use stream_tunnel::keys::{derive_session_key, generate_secret, public_key, shared_secret};
use stream_tunnel::nonce::{generate_nonce, nonce_from_parts};
use stream_tunnel::strength::CipherStrength;

fn arr32(h: &str) -> [u8; 32] {
    let v = hex::decode(h).unwrap();
    let mut a = [0u8; 32];
    a.copy_from_slice(&v);
    a
}

fn iv() -> [u8; 16] {
    core::array::from_fn(|i| i as u8)
}

#[test]
fn public_key_matches_known_vector() {
    let a = arr32("77076d0a7318a57d3c16c17251b26645df4c2f87ebc0992ab177fba51db92c2a");
    assert_eq!(
        hex::encode(public_key(&a)),
        "8520f0098930a754748b7ddcb43ef75a0dbf3a0d26381af4eba4a98eaa9b4e6a"
    );
}

#[test]
fn key_agreement_matches_known_vector() {
    let a = arr32("77076d0a7318a57d3c16c17251b26645df4c2f87ebc0992ab177fba51db92c2a");
    let b = arr32("5dab087e624a8a4b79e17f8b83800ee66f3bb1292618b6fd1c2f8b27ff88e0eb");
    let ab = shared_secret(&a, &public_key(&b));
    let ba = shared_secret(&b, &public_key(&a));
    assert_eq!(ab, ba);
    assert_eq!(hex::encode(ab), "4a5d9d5ba4ce2de1728e3bf480350f25e07e21c947d19e3376f09b3c1e161742");
}

#[test]
fn key_agreement_holds_for_fresh_pairs() {
    for _ in 0..20 {
        let a = generate_secret();
        let b = generate_secret();
        let ab = shared_secret(&a, &public_key(&b));
        let ba = shared_secret(&b, &public_key(&a));
        assert_eq!(ab, ba);
        for s in [CipherStrength::Strength128, CipherStrength::Strength192, CipherStrength::Strength256] {
            assert_eq!(derive_session_key(&ab, s), derive_session_key(&ba, s));
        }
    }
}

#[test]
fn fresh_secrets_differ() {
    assert_ne!(generate_secret(), generate_secret());
}

#[test]
fn derivation_matches_fixed_vector() {
    let secret: Vec<u8> = (0..32u8).collect();
    let full = "d33932dc0577a1ad437124c76fe4bf2b6159191434b6913b44cc9681a5667c74";
    assert_eq!(hex::encode(derive_session_key(&secret, CipherStrength::Strength128)), &full[..32]);
    assert_eq!(hex::encode(derive_session_key(&secret, CipherStrength::Strength192)), &full[..48]);
    assert_eq!(hex::encode(derive_session_key(&secret, CipherStrength::Strength256)), full);
    assert_eq!(
        derive_session_key(&secret, CipherStrength::Strength256),
        derive_session_key(&secret, CipherStrength::Strength256)
    );
}

#[test]
fn nonce_layout() {
    let n = nonce_from_parts(&[1, 2, 3, 4, 5, 6, 7, 8], 0x1122_3344_5566_7788);
    assert_eq!(n, [1, 2, 3, 4, 5, 6, 7, 8, 0x88, 0x77, 0x66, 0x55, 0x44, 0x33, 0x22, 0x11]);
    let g = generate_nonce(1_700_000_000);
    assert_eq!(&g[8..], &1_700_000_000u64.to_le_bytes());
}

#[test]
fn ten_thousand_nonces_are_distinct() {
    let mut seen = HashSet::new();
    for _ in 0..10_000 {
        assert!(seen.insert(generate_nonce(1_700_000_000)));
    }
    assert_eq!(seen.len(), 10_000);
}

#[test]
fn transform_matches_known_keystreams() {
    let cases = [
        (CipherStrength::Strength128, 16, "a46994f3d77432255082eba2"),
        (CipherStrength::Strength192, 24, "8abf459eff93e0f2178fa0d3"),
        (CipherStrength::Strength256, 32, "45a919bd6aed1c91506d872d"),
    ];
    for (s, n, expected) in cases {
        let mut c = SessionCipher::new(s, vec![7u8; n], iv());
        let mut data = b"HELLO-STREAM".to_vec();
        c.transform(&mut data);
        assert_eq!(hex::encode(&data), expected);
        assert_eq!(c.position(), 12);
    }
}

#[test]
fn counter_wraps_past_all_ones() {
    let mut c = SessionCipher::new(CipherStrength::Strength128, vec![0u8; 16], [0xff; 16]);
    let mut data = vec![0u8; 40];
    c.transform(&mut data);
    assert_eq!(
        hex::encode(&data),
        "3f5b8cc9ea855a0afa7347d23e8d664e66e94bd4ef8a2c3b884cfa59ca342b2e58e2fccefa7e3061"
    );
}

#[test]
fn transform_twice_restores_buffer() {
    for len in [0usize, 1, 4095, 4096, 4097] {
        let original: Vec<u8> = (0..len).map(|i| (i * 31 % 251) as u8).collect();
        let mut enc = SessionCipher::new(CipherStrength::Strength192, vec![9u8; 24], iv());
        let mut dec = SessionCipher::new(CipherStrength::Strength192, vec![9u8; 24], iv());
        let mut data = original.clone();
        enc.transform(&mut data);
        if len > 0 {
            assert_ne!(data, original);
        }
        dec.transform(&mut data);
        assert_eq!(data, original, "length {}", len);
    }
}

#[test]
fn one_call_equals_two_calls() {
    let original: Vec<u8> = (0..8192usize).map(|i| (i % 256) as u8).collect();
    let mut whole = original.clone();
    let mut c1 = SessionCipher::new(CipherStrength::Strength256, vec![5u8; 32], iv());
    c1.transform(&mut whole);
    let mut c2 = SessionCipher::new(CipherStrength::Strength256, vec![5u8; 32], iv());
    let mut first = original[..4096].to_vec();
    let mut second = original[4096..].to_vec();
    c2.transform(&mut first);
    c2.transform(&mut second);
    first.extend_from_slice(&second);
    assert_eq!(first, whole);
    assert_eq!(c2.position(), 8192);
}

#[test]
fn unaligned_calls_keep_the_keystream() {
    let original: Vec<u8> = (0..100usize).map(|i| (i * 7) as u8).collect();
    let mut whole = original.clone();
    let mut c1 = SessionCipher::new(CipherStrength::Strength128, vec![1u8; 16], iv());
    c1.transform(&mut whole);
    let mut c2 = SessionCipher::new(CipherStrength::Strength128, vec![1u8; 16], iv());
    let mut out = Vec::new();
    for part in [&original[..5], &original[5..21], &original[21..22], &original[22..]] {
        let mut p = part.to_vec();
        c2.transform(&mut p);
        out.extend_from_slice(&p);
    }
    assert_eq!(out, whole);
}
