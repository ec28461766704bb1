use stream_tunnel::session::{
    accept_nonce, accept_point, listener_hello, originate, originate_fresh, strength_from_arg,
    ConfigurationError,
};
use stream_tunnel::strength::CipherStrength;
use stream_tunnel::text::decimal_below;
use stream_tunnel::wire::{
    field_line, hello_line, parse_hello, parse_nonce_line, parse_point_line, ProtocolError,
};

const ALICE_SECRET: &str = "77076d0a7318a57d3c16c17251b26645df4c2f87ebc0992ab177fba51db92c2a";
const ALICE_PUBLIC: &str = "8520f0098930a754748b7ddcb43ef75a0dbf3a0d26381af4eba4a98eaa9b4e6a";
const BOB_SECRET: &str = "5dab087e624a8a4b79e17f8b83800ee66f3bb1292618b6fd1c2f8b27ff88e0eb";
const BOB_PUBLIC: &str = "de9edb7d7b7dc1b4d35b61c2ece435373f8343c85b78674dadfc7e146f882b4f";

fn arr32(h: &str) -> [u8; 32] {
    let v = hex::decode(h).unwrap();
    let mut a = [0u8; 32];
    a.copy_from_slice(&v);
    a
}

#[test]
fn hello_line_has_strength_point_and_newline() {
    let line = hello_line(CipherStrength::Strength192, &arr32(ALICE_PUBLIC));
    assert_eq!(line, format!("192 {}\n", ALICE_PUBLIC).into_bytes());
}

#[test]
fn listener_hello_carries_the_public_point() {
    let line = listener_hello(CipherStrength::Strength256, &arr32(ALICE_SECRET));
    assert_eq!(line, format!("256 {}\n", ALICE_PUBLIC).into_bytes());
}

#[test]
fn parse_hello_reads_strength_and_point() {
    let line = format!("128 {}\n", BOB_PUBLIC);
    assert_eq!(
        parse_hello(line.as_bytes()),
        Ok((CipherStrength::Strength128, arr32(BOB_PUBLIC)))
    );
}

#[test]
fn parse_hello_accepts_upper_case_and_extra_blanks() {
    let line = format!("  256 \t {}\r\n", BOB_PUBLIC.to_uppercase());
    assert_eq!(
        parse_hello(line.as_bytes()),
        Ok((CipherStrength::Strength256, arr32(BOB_PUBLIC)))
    );
}

#[test]
fn parse_hello_round_trips_each_strength() {
    for s in [CipherStrength::Strength128, CipherStrength::Strength192, CipherStrength::Strength256] {
        let line = hello_line(s, &arr32(ALICE_PUBLIC));
        assert_eq!(parse_hello(&line), Ok((s, arr32(ALICE_PUBLIC))));
    }
}

#[test]
fn strength_64_is_rejected_before_the_key() {
    let good = format!("64 {}\n", BOB_PUBLIC);
    assert_eq!(parse_hello(good.as_bytes()), Err(ProtocolError::UnsupportedStrength));
    // The point field is not even looked at.
    assert_eq!(parse_hello(b"64 not-hex\n"), Err(ProtocolError::UnsupportedStrength));
    let r = originate(b"64 zz\n", &arr32(BOB_SECRET), &[0u8; 16]);
    assert!(matches!(r, Err(ProtocolError::UnsupportedStrength)));
}

#[test]
fn parse_hello_rejects_other_strengths() {
    for s in ["0", "127", "129", "512", "12a", "99999999999999999999999"] {
        let line = format!("{} {}\n", s, BOB_PUBLIC);
        assert_eq!(parse_hello(line.as_bytes()), Err(ProtocolError::UnsupportedStrength), "{}", s);
    }
}

#[test]
fn parse_hello_reports_missing_fields() {
    assert_eq!(parse_hello(b""), Err(ProtocolError::MissingField));
    assert_eq!(parse_hello(b"  \n"), Err(ProtocolError::MissingField));
    assert_eq!(parse_hello(b"128\n"), Err(ProtocolError::MissingField));
    assert_eq!(parse_hello(b"128   \n"), Err(ProtocolError::MissingField));
}

#[test]
fn parse_hello_reports_bad_hex_and_length() {
    assert_eq!(parse_hello(b"128 abc\n"), Err(ProtocolError::MalformedHex));
    assert_eq!(parse_hello(b"128 zz\n"), Err(ProtocolError::MalformedHex));
    assert_eq!(parse_hello(b"128 abcd\n"), Err(ProtocolError::WrongLength));
    assert_eq!(parse_hello(b"128 zz trailing\n"), Err(ProtocolError::MalformedHex));
}

#[test]
fn parse_hello_ignores_tokens_after_the_point() {
    let extra = format!("128 {} x\n", BOB_PUBLIC);
    assert_eq!(
        parse_hello(extra.as_bytes()),
        Ok((CipherStrength::Strength128, arr32(BOB_PUBLIC)))
    );
    let two = format!("192 {} {}\n", BOB_PUBLIC, ALICE_PUBLIC);
    assert_eq!(
        parse_hello(two.as_bytes()),
        Ok((CipherStrength::Strength192, arr32(BOB_PUBLIC)))
    );
    let o = originate_fresh(extra.as_bytes(), 1_700_000_000).unwrap();
    assert_eq!(o.cipher.strength(), CipherStrength::Strength128);
    assert_eq!(o.nonce_line.len(), 33);
    assert_eq!(o.point_line.len(), 65);
}

#[test]
fn point_and_nonce_lines_parse() {
    let line = field_line(&arr32(BOB_PUBLIC));
    assert_eq!(line, format!("{}\n", BOB_PUBLIC).into_bytes());
    assert_eq!(parse_point_line(&line), Ok(arr32(BOB_PUBLIC)));
    let nonce: [u8; 16] = core::array::from_fn(|i| i as u8);
    let nl = field_line(&nonce);
    assert_eq!(nl, b"000102030405060708090a0b0c0d0e0f\n".to_vec());
    assert_eq!(parse_nonce_line(&nl), Ok(nonce));
    assert_eq!(parse_nonce_line(&line), Err(ProtocolError::WrongLength));
    assert_eq!(parse_nonce_line(b"0g\n"), Err(ProtocolError::MalformedHex));
    assert_eq!(parse_point_line(b"\n"), Err(ProtocolError::MissingField));
}

#[test]
fn decimal_tokens() {
    assert_eq!(decimal_below(b"0192", 1000), Some(192));
    assert_eq!(decimal_below(b"1000", 1000), None);
    assert_eq!(decimal_below(b"", 1000), None);
    assert_eq!(decimal_below(b"+5", 1000), None);
}

#[test]
fn configured_strength() {
    assert_eq!(strength_from_arg(b"192"), Ok(CipherStrength::Strength192));
    assert_eq!(strength_from_arg(b"64"), Err(ConfigurationError::InvalidStrength));
    assert_eq!(strength_from_arg(b"abc"), Err(ConfigurationError::InvalidStrength));
}

#[test]
fn strength_sizes() {
    assert_eq!(CipherStrength::from_bits(192), Some(CipherStrength::Strength192));
    assert_eq!(CipherStrength::from_bits(64), None);
    assert_eq!(CipherStrength::Strength128.key_len(), 16);
    assert_eq!(CipherStrength::Strength192.key_len(), 24);
    assert_eq!(CipherStrength::Strength256.key_len(), 32);
    assert_eq!(CipherStrength::Strength256.bits(), 256);
}

#[test]
fn end_to_end_hello_stream() {
    // The listener advertises strength 128 and its public point.
    let a = arr32(ALICE_SECRET);
    let hello = listener_hello(CipherStrength::Strength128, &a);
    // The originator answers with its own point.
    let b = arr32(BOB_SECRET);
    let nonce: [u8; 16] = core::array::from_fn(|i| (3 * i + 1) as u8);
    let mut o = match originate(&hello, &b, &nonce) {
        Ok(o) => o,
        Err(e) => panic!("handshake failed: {:?}", e),
    };
    assert_eq!(o.point_line, format!("{}\n", BOB_PUBLIC).into_bytes());
    let key = accept_point(CipherStrength::Strength128, &a, &o.point_line).unwrap();
    assert_eq!(hex::encode(&key), "657da09fc3c755b4ee1488fb73666a73");
    let mut l = accept_nonce(CipherStrength::Strength128, key, &o.nonce_line).unwrap();
    let mut data = b"HELLO-STREAM".to_vec();
    o.cipher.transform(&mut data);
    assert_ne!(data, b"HELLO-STREAM".to_vec());
    l.transform(&mut data);
    assert_eq!(data, b"HELLO-STREAM".to_vec());
}

#[test]
fn fresh_originator_completes_with_each_strength() {
    for s in [CipherStrength::Strength128, CipherStrength::Strength192, CipherStrength::Strength256] {
        let a = stream_tunnel::keys::generate_secret();
        let hello = listener_hello(s, &a);
        let mut o = originate_fresh(&hello, 1_700_000_000).unwrap();
        assert_eq!(o.cipher.strength(), s);
        let key = accept_point(s, &a, &o.point_line).unwrap();
        assert_eq!(key.len(), s.key_len());
        let mut l = accept_nonce(s, key, &o.nonce_line).unwrap();
        let mut data: Vec<u8> = (0..100u8).collect();
        o.cipher.transform(&mut data);
        l.transform(&mut data);
        assert_eq!(data, (0..100u8).collect::<Vec<u8>>());
    }
}

#[test]
fn originator_errors_come_from_the_hello_line() {
    let b = arr32(BOB_SECRET);
    assert!(matches!(originate(b"", &b, &[0u8; 16]), Err(ProtocolError::MissingField)));
    assert!(matches!(originate(b"128 12\n", &b, &[0u8; 16]), Err(ProtocolError::WrongLength)));
    assert!(matches!(originate_fresh(b"128 xyz\n", 5), Err(ProtocolError::MalformedHex)));
    assert!(matches!(accept_point(CipherStrength::Strength128, &b, b"12\n"), Err(ProtocolError::WrongLength)));
    assert!(matches!(accept_nonce(CipherStrength::Strength128, vec![0u8; 16], b"12\n"), Err(ProtocolError::WrongLength)));
}
