//! The handshake's line formats.
//!
//! Listener to originator: `"<strength> <hex public point>\n"`; originator to
//! listener: `"<hex public point>\n"`, then `"<hex nonce>\n"`. Lines are read
//! with surrounding whitespace ignored; hex digits may be of either case; on
//! the listener's line, tokens after the public point are ignored.

use vstd::prelude::*;
use crate::hexcodec::{decode_hex, encode_hex, hex_decoding, hex_encoding, is_hex_text};
use crate::strength::CipherStrength;
use crate::text::{
    decimal_below, decimal_value, is_decimal, is_space, run_end, run_len, trailing_space_len, trim,
    trim_bounds,
};
use crate::hexcodec::{hex_char_value, hex_digit, is_hex_char};

verus! {

/// Length of a public point, a private scalar and a shared secret.
pub const POINT_LEN: usize = 32;

/// Length of a nonce.
pub const NONCE_LEN: usize = 16;

#[derive(Clone, Copy, Debug, PartialEq, Eq, Structural)]
pub enum ProtocolError {
    /// The line lacks a field.
    MissingField,
    /// The strength field is not 128, 192 or 256.
    UnsupportedStrength,
    /// A hex field has an odd length or a byte that is no hex digit.
    MalformedHex,
    /// A hex field decodes to the wrong number of bytes.
    WrongLength,
}

/// The strength that a decimal token names, if any.
pub open spec fn strength_token(tok: Seq<u8>) -> Option<CipherStrength> {
    if is_decimal(tok) {
        CipherStrength::spec_from_bits(decimal_value(tok) as int)
    } else {
        None
    }
}

/// A hex field that must decode to `n` bytes.
pub open spec fn hex_field(text: Seq<u8>, n: nat) -> Result<Seq<u8>, ProtocolError> {
    if text.len() == 0 {
        Err(ProtocolError::MissingField)
    } else if !is_hex_text(text) {
        Err(ProtocolError::MalformedHex)
    } else if hex_decoding(text).len() != n {
        Err(ProtocolError::WrongLength)
    } else {
        Ok(hex_decoding(text))
    }
}

/// The listener's line split into its first two whitespace-separated tokens;
/// anything after the second is ignored.
pub open spec fn hello_fields(line: Seq<u8>) -> (Seq<u8>, Seq<u8>) {
    let t = trim(line);
    let k = run_len(t, false) as int;
    let after = t.subrange(k, t.len() as int);
    let rest = after.subrange(run_len(after, true) as int, after.len() as int);
    (t.subrange(0, k), rest.subrange(0, run_len(rest, false) as int))
}

/// What the originator reads from the listener's line. The strength is
/// checked before the point is looked at.
pub open spec fn hello_spec(line: Seq<u8>) -> Result<(CipherStrength, Seq<u8>), ProtocolError> {
    let (head, rest) = hello_fields(line);
    if head.len() == 0 {
        Err(ProtocolError::MissingField)
    } else if strength_token(head) is None {
        Err(ProtocolError::UnsupportedStrength)
    } else {
        match hex_field(rest, POINT_LEN as nat) {
            Ok(p) => Ok((strength_token(head)->Some_0, p)),
            Err(e) => Err(e),
        }
    }
}

pub fn to_array<const N: usize>(v: &[u8]) -> (r: [u8; N])
    requires
        v@.len() == N,
    ensures
        r@ == v@,
{
    let mut a = [0u8; N];
    let mut i: usize = 0;
    while i < N
        invariant
            i <= N,
            v@.len() == N,
            a@.len() == N,
            forall|k: int| 0 <= k < i ==> a@[k] == v@[k],
        decreases N - i,
    {
        a[i] = v[i];
        i = i + 1;
    }
    assert(a@ =~= v@);
    a
}

/// Decodes a hex field of `n` bytes.
pub fn read_hex_field(text: &[u8], n: usize) -> (r: Result<Vec<u8>, ProtocolError>)
    ensures
        match r {
            Ok(v) => hex_field(text@, n as nat) == Ok::<Seq<u8>, ProtocolError>(v@),
            Err(e) => hex_field(text@, n as nat) == Err::<Seq<u8>, ProtocolError>(e),
        },
{
    if text.len() == 0 {
        return Err(ProtocolError::MissingField);
    }
    match decode_hex(text) {
        Err(_) => Err(ProtocolError::MalformedHex),
        Ok(v) => {
            if v.len() != n {
                Err(ProtocolError::WrongLength)
            } else {
                Ok(v)
            }
        },
    }
}

/// Reads the listener's line: its strength and public point.
pub fn parse_hello(line: &[u8]) -> (r: Result<(CipherStrength, [u8; POINT_LEN]), ProtocolError>)
    ensures
        match r {
            Ok((s, p)) => hello_spec(line@) == Ok::<_, ProtocolError>((s, p@)),
            Err(e) => hello_spec(line@) == Err::<(CipherStrength, Seq<u8>), _>(e),
        },
        hello_fields(line@).0.len() > 0 && strength_token(hello_fields(line@).0) is None
            ==> r == Err::<(CipherStrength, [u8; POINT_LEN]), _>(ProtocolError::UnsupportedStrength),
{
    let (a, b) = trim_bounds(line);
    let t = vstd::slice::slice_subrange(line, a, b);
    let k = run_end(t, 0, t.len(), false);
    let m = run_end(t, k, t.len(), true);
    let e = run_end(t, m, t.len(), false);
    proof {
        assert(t@.subrange(0, t@.len() as int) =~= t@);
        let after = t@.subrange(k as int, t@.len() as int);
        let rest = t@.subrange(m as int, t@.len() as int);
        assert(after.subrange((m - k) as int, after.len() as int) =~= rest);
        assert(rest.subrange(0, (e - m) as int) =~= t@.subrange(m as int, e as int));
    }
    if k == 0 {
        return Err(ProtocolError::MissingField);
    }
    let head = vstd::slice::slice_subrange(t, 0, k);
    let strength = match decimal_below(head, 1000) {
        None => {
            return Err(ProtocolError::UnsupportedStrength);
        },
        Some(v) => match CipherStrength::from_bits(v) {
            None => {
                return Err(ProtocolError::UnsupportedStrength);
            },
            Some(s) => s,
        },
    };
    let point = vstd::slice::slice_subrange(t, m, e);
    match read_hex_field(point, POINT_LEN) {
        Ok(v) => Ok((strength, to_array(v.as_slice()))),
        Err(e) => Err(e),
    }
}

/// Reads a line that holds one hex field of `n` bytes.
pub fn parse_field_line(line: &[u8], n: usize) -> (r: Result<Vec<u8>, ProtocolError>)
    ensures
        match r {
            Ok(v) => hex_field(trim(line@), n as nat) == Ok::<Seq<u8>, ProtocolError>(v@),
            Err(e) => hex_field(trim(line@), n as nat) == Err::<Seq<u8>, ProtocolError>(e),
        },
{
    let (a, b) = trim_bounds(line);
    read_hex_field(vstd::slice::slice_subrange(line, a, b), n)
}

/// Reads the originator's public-point line.
pub fn parse_point_line(line: &[u8]) -> (r: Result<[u8; POINT_LEN], ProtocolError>)
    ensures
        match r {
            Ok(p) => hex_field(trim(line@), POINT_LEN as nat) == Ok::<Seq<u8>, ProtocolError>(p@),
            Err(e) => hex_field(trim(line@), POINT_LEN as nat) == Err::<Seq<u8>, ProtocolError>(e),
        },
{
    match parse_field_line(line, POINT_LEN) {
        Ok(v) => Ok(to_array(v.as_slice())),
        Err(e) => Err(e),
    }
}

/// Reads the originator's nonce line.
pub fn parse_nonce_line(line: &[u8]) -> (r: Result<[u8; NONCE_LEN], ProtocolError>)
    ensures
        match r {
            Ok(p) => hex_field(trim(line@), NONCE_LEN as nat) == Ok::<Seq<u8>, ProtocolError>(p@),
            Err(e) => hex_field(trim(line@), NONCE_LEN as nat) == Err::<Seq<u8>, ProtocolError>(e),
        },
{
    match parse_field_line(line, NONCE_LEN) {
        Ok(v) => Ok(to_array(v.as_slice())),
        Err(e) => Err(e),
    }
}

/// The decimal digits of a strength.
pub open spec fn strength_text(s: CipherStrength) -> Seq<u8> {
    match s {
        CipherStrength::Strength128 => seq![49u8, 50u8, 56u8],
        CipherStrength::Strength192 => seq![49u8, 57u8, 50u8],
        CipherStrength::Strength256 => seq![50u8, 53u8, 54u8],
    }
}

/// The listener's line.
pub open spec fn hello_text(s: CipherStrength, point: Seq<u8>) -> Seq<u8> {
    strength_text(s) + seq![32u8] + hex_encoding(point) + seq![10u8]
}

/// A line of one hex field.
pub open spec fn field_text(b: Seq<u8>) -> Seq<u8> {
    hex_encoding(b) + seq![10u8]
}

/// Writes a line of one hex field.
pub fn field_line(b: &[u8]) -> (r: Vec<u8>)
    ensures
        r@ == field_text(b@),
{
    let mut out = encode_hex(b);
    out.push(10u8);
    out
}

/// Writes the listener's line.
pub fn hello_line(s: CipherStrength, point: &[u8; POINT_LEN]) -> (r: Vec<u8>)
    ensures
        r@ == hello_text(s, point@),
{
    let mut out: Vec<u8> = Vec::new();
    match s {
        CipherStrength::Strength128 => {
            out.push(49u8);
            out.push(50u8);
            out.push(56u8);
        },
        CipherStrength::Strength192 => {
            out.push(49u8);
            out.push(57u8);
            out.push(50u8);
        },
        CipherStrength::Strength256 => {
            out.push(50u8);
            out.push(53u8);
            out.push(54u8);
        },
    }
    out.push(32u8);
    let mut h = encode_hex(point.as_slice());
    out.append(&mut h);
    out.push(10u8);
    assert(out@ =~= hello_text(s, point@));
    out
}

/// A leading run of `ws`-bytes ended by a byte of the other kind, or by the
/// end, has the run's length.
pub proof fn lemma_run_len_of(a: Seq<u8>, b: Seq<u8>, ws: bool)
    requires
        forall|i: int| 0 <= i < a.len() ==> is_space(#[trigger] a[i]) == ws,
        b.len() == 0 || is_space(b[0]) != ws,
    ensures
        run_len(a + b, ws) == a.len(),
    decreases a.len(),
{
    if a.len() > 0 {
        let s = a + b;
        let t = a.subrange(1, a.len() as int);
        assert(s.subrange(1, s.len() as int) =~= t + b);
        lemma_run_len_of(t, b, ws);
    } else {
        assert(a + b =~= b);
    }
}

proof fn lemma_hex_digit_round_trip(n: u8)
    requires
        n < 16,
    ensures
        is_hex_char(hex_digit(n)),
        hex_char_value(hex_digit(n)) == n,
        !is_space(hex_digit(n)),
{
}

/// Decoding the encoding of bytes gives them back.
pub proof fn lemma_hex_round_trip(b: Seq<u8>)
    ensures
        is_hex_text(hex_encoding(b)),
        hex_decoding(hex_encoding(b)) == b,
        forall|i: int| 0 <= i < hex_encoding(b).len() ==> !is_space(#[trigger] hex_encoding(b)[i]),
{
    let h = hex_encoding(b);
    assert forall|i: int| 0 <= i < h.len() implies is_hex_char(#[trigger] h[i]) && !is_space(h[i]) by {
        lemma_hex_digit_round_trip(b[i / 2] / 16);
        lemma_hex_digit_round_trip(b[i / 2] % 16);
    }
    assert forall|i: int| 0 <= i < b.len() implies #[trigger] hex_decoding(h)[i] == b[i] by {
        assert((2 * i) / 2 == i);
        assert((2 * i + 1) / 2 == i);
        assert((2 * i) % 2 == 0);
        assert((2 * i + 1) % 2 == 1);
        lemma_hex_digit_round_trip(b[i] / 16);
        lemma_hex_digit_round_trip(b[i] % 16);
    }
    assert(hex_decoding(h) =~= b);
}

/// Trimming a line of non-blank text and a line feed gives the text.
proof fn lemma_trim_line(t: Seq<u8>)
    requires
        t.len() > 0,
        !is_space(t[0]),
        !is_space(t.last()),
    ensures
        trim(t + seq![10u8]) == t,
{
    let s = t + seq![10u8];
    lemma_run_len_of(Seq::empty(), s, true);
    assert(Seq::<u8>::empty() + s =~= s);
    assert(s.subrange(0, s.len() as int) =~= s);
    assert(s.drop_last() =~= t);
    assert(trailing_space_len(t) == 0);
    assert(trailing_space_len(s) == 1);
    assert(s.subrange(0, s.len() - 1) =~= t);
}

/// A line written for a hex field reads back as the same bytes.
pub proof fn lemma_field_round_trip(b: Seq<u8>)
    requires
        b.len() > 0,
    ensures
        hex_field(trim(field_text(b)), b.len()) == Ok::<Seq<u8>, ProtocolError>(b),
{
    lemma_hex_round_trip(b);
    let h = hex_encoding(b);
    assert(!is_space(h[0]));
    assert(!is_space(h[h.len() - 1]));
    lemma_trim_line(h);
}

proof fn lemma_strength_text(s: CipherStrength)
    ensures
        strength_text(s).len() == 3,
        is_decimal(strength_text(s)),
        strength_token(strength_text(s)) == Some(s),
        forall|i: int| 0 <= i < 3 ==> !is_space(#[trigger] strength_text(s)[i]),
{
    let d = strength_text(s);
    assert(d.drop_last().drop_last().drop_last() =~= Seq::<u8>::empty());
    assert(d.drop_last().drop_last() =~= seq![d[0]]);
    assert(d.drop_last() =~= seq![d[0], d[1]]);
    reveal_with_fuel(decimal_value, 4);
}

proof fn lemma_hello_fields(d: Seq<u8>, h: Seq<u8>)
    requires
        d.len() > 0,
        h.len() > 0,
        forall|i: int| 0 <= i < d.len() ==> !is_space(#[trigger] d[i]),
        forall|i: int| 0 <= i < h.len() ==> !is_space(#[trigger] h[i]),
    ensures
        hello_fields(d + seq![32u8] + h + seq![10u8]) == (d, h),
{
    let t = d + seq![32u8] + h;
    assert(t.last() == h[h.len() - 1]);
    lemma_trim_line(t);
    lemma_run_len_of(d, seq![32u8] + h, false);
    assert(t =~= d + (seq![32u8] + h));
    let k = d.len() as int;
    let after = t.subrange(k, t.len() as int);
    assert(after =~= seq![32u8] + h);
    lemma_run_len_of(seq![32u8], h, true);
    assert(after.subrange(1, after.len() as int) =~= h);
    lemma_run_len_of(h, Seq::empty(), false);
    assert(h + Seq::<u8>::empty() =~= h);
    assert(h.subrange(0, h.len() as int) =~= h);
    assert(t.subrange(0, k) =~= d);
}

/// The listener's line, read by the originator, gives back the strength and
/// the point.
pub proof fn lemma_hello_round_trip(s: CipherStrength, point: Seq<u8>)
    requires
        point.len() == POINT_LEN,
    ensures
        hello_spec(hello_text(s, point)) == Ok::<_, ProtocolError>((s, point)),
{
    lemma_hex_round_trip(point);
    lemma_strength_text(s);
    lemma_hello_fields(strength_text(s), hex_encoding(point));
}

} // verus!
