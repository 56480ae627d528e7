//! Reading and writing the primitive fields of a packet body: single bytes,
//! big-endian 16-bit integers, and byte strings and UTF-8 strings with a
//! two-byte length prefix.
use vstd::prelude::*;
use vstd::utf8::{decode_utf8, encode_utf8, valid_utf8};

use crate::error::ProtoError;

verus! {

broadcast use vstd::utf8::encode_utf8_valid_utf8, vstd::utf8::encode_utf8_decode_utf8;

/// What remains of `s` from position `p` on.
pub open spec fn tail(s: Seq<u8>, p: int) -> Seq<u8> {
    s.subrange(p, s.len() as int)
}

/// The two bytes of `v`, most significant first.
pub open spec fn be16(v: u16) -> Seq<u8> {
    seq![(v / 256) as u8, (v % 256) as u8]
}

/// Reads one byte from the front of `s`; the rest follows.
pub open spec fn parse_u8(s: Seq<u8>) -> Result<(u8, Seq<u8>), ProtoError> {
    if s.len() >= 1 {
        Ok((s[0], s.drop_first()))
    } else {
        Err(ProtoError::NotKnow)
    }
}

/// Reads a big-endian 16-bit integer from the front of `s`; the rest follows.
pub open spec fn parse_u16(s: Seq<u8>) -> Result<(u16, Seq<u8>), ProtoError> {
    if s.len() >= 2 {
        Ok(((s[0] * 256 + s[1]) as u16, s.subrange(2, s.len() as int)))
    } else {
        Err(ProtoError::NotKnow)
    }
}

/// A byte string with its two-byte length prefix.
pub open spec fn mqtt_bytes(b: Seq<u8>) -> Seq<u8> {
    be16(b.len() as u16) + b
}

/// A UTF-8 string with its two-byte length prefix.
pub open spec fn mqtt_string(c: Seq<char>) -> Seq<u8> {
    mqtt_bytes(encode_utf8(c))
}

/// Whether a text fits a length-prefixed field.
pub open spec fn fits_string(c: Seq<char>) -> bool {
    encode_utf8(c).len() <= 65535
}

/// Reads a length-prefixed byte string from the front of `s`; a prefix that
/// promises more bytes than there are is an error.
pub open spec fn parse_mqtt_bytes(s: Seq<u8>) -> Result<(Seq<u8>, Seq<u8>), ProtoError> {
    match parse_u16(s) {
        Ok((n, r)) => if n <= r.len() {
            Ok((r.subrange(0, n as int), r.subrange(n as int, r.len() as int)))
        } else {
            Err(ProtoError::NotKnow)
        },
        Err(e) => Err(e),
    }
}

/// Reads a length-prefixed UTF-8 string from the front of `s`; bytes that
/// are not UTF-8 are an error.
pub open spec fn parse_mqtt_string(s: Seq<u8>) -> Result<(Seq<char>, Seq<u8>), ProtoError> {
    match parse_mqtt_bytes(s) {
        Ok((b, r)) => if valid_utf8(b) {
            Ok((decode_utf8(b), r))
        } else {
            Err(ProtoError::NotKnow)
        },
        Err(e) => Err(e),
    }
}

pub proof fn lemma_u8_round_trip(v: u8, rest: Seq<u8>)
    ensures
        parse_u8(seq![v] + rest) == Ok::<(u8, Seq<u8>), ProtoError>((v, rest)),
{
    assert((seq![v] + rest).drop_first() =~= rest);
}

pub proof fn lemma_u16_round_trip(v: u16, rest: Seq<u8>)
    ensures
        parse_u16(be16(v) + rest) == Ok::<(u16, Seq<u8>), ProtoError>((v, rest)),
{
    let s = be16(v) + rest;
    assert(s.subrange(2, s.len() as int) =~= rest);
    assert(s[0] * 256 + s[1] == v);
}

pub proof fn lemma_bytes_round_trip(b: Seq<u8>, rest: Seq<u8>)
    requires
        b.len() <= 65535,
    ensures
        parse_mqtt_bytes(mqtt_bytes(b) + rest) == Ok::<(Seq<u8>, Seq<u8>), ProtoError>((b, rest)),
{
    let s = mqtt_bytes(b) + rest;
    assert(s =~= be16(b.len() as u16) + (b + rest));
    lemma_u16_round_trip(b.len() as u16, b + rest);
    assert((b + rest).subrange(0, b.len() as int) =~= b);
    assert((b + rest).subrange(b.len() as int, (b + rest).len() as int) =~= rest);
}

pub proof fn lemma_string_round_trip(c: Seq<char>, rest: Seq<u8>)
    requires
        fits_string(c),
    ensures
        parse_mqtt_string(mqtt_string(c) + rest) == Ok::<(Seq<char>, Seq<u8>), ProtoError>(
            (c, rest),
        ),
{
    lemma_bytes_round_trip(encode_utf8(c), rest);
}

/// A string that was read is one that fits its length prefix, and its wire
/// form is what was read.
pub proof fn lemma_parsed_string(s: Seq<u8>)
    ensures
        parse_mqtt_string(s) matches Ok((c, r)) ==> fits_string(c) && mqtt_string(c) + r == s,
{
    if let Ok((c, r)) = parse_mqtt_string(s) {
        let (b, r1) = parse_mqtt_bytes(s).unwrap();
        vstd::utf8::decode_utf8_encode_utf8(b);
        assert(mqtt_bytes(b) + r =~= s);
    }
}

/// Relies on `std::str::from_utf8`: it succeeds exactly on valid UTF-8, and
/// the text it gives is the one those bytes encode.
#[verifier::external_body]
fn utf8_to_string(b: &[u8]) -> (r: Option<String>)
    ensures
        r is Some <==> valid_utf8(b@),
        r matches Some(t) ==> t@ == decode_utf8(b@),
{
    match std::str::from_utf8(b) {
        Ok(s) => Some(s.to_string()),
        Err(_) => None,
    }
}

/// Reads one byte at `pos`; returns it and the position after it.
pub fn read_u8(stream: &[u8], pos: usize) -> (r: Result<(u8, usize), ProtoError>)
    requires
        pos <= stream@.len(),
    ensures
        match parse_u8(tail(stream@, pos as int)) {
            Ok((v, rest)) => r matches Ok((x, p)) && x == v && p <= stream@.len() && rest == tail(stream@, p as int),
            Err(e) => r == Err::<(u8, usize), ProtoError>(e),
        },
{
    if pos >= stream.len() {
        return Err(ProtoError::NotKnow);
    }
    assert(tail(stream@, pos as int).drop_first() =~= tail(stream@, pos + 1));
    Ok((stream[pos], pos + 1))
}

/// Reads a big-endian 16-bit integer at `pos`; returns it and the position
/// after it.
pub fn read_u16(stream: &[u8], pos: usize) -> (r: Result<(u16, usize), ProtoError>)
    requires
        pos <= stream@.len(),
    ensures
        match parse_u16(tail(stream@, pos as int)) {
            Ok((v, rest)) => r matches Ok((x, p)) && x == v && p <= stream@.len() && rest == tail(stream@, p as int),
            Err(e) => r == Err::<(u16, usize), ProtoError>(e),
        },
{
    if stream.len() - pos < 2 {
        return Err(ProtoError::NotKnow);
    }
    let ghost t = tail(stream@, pos as int);
    assert(t.subrange(2, t.len() as int) =~= tail(stream@, pos + 2));
    let v: u16 = (stream[pos] as u16) * 256 + (stream[pos + 1] as u16);
    Ok((v, pos + 2))
}

/// Reads a length-prefixed byte string at `pos`; returns it and the position
/// after it.
pub fn read_mqtt_bytes(stream: &[u8], pos: usize) -> (r: Result<(Vec<u8>, usize), ProtoError>)
    requires
        pos <= stream@.len(),
    ensures
        match parse_mqtt_bytes(tail(stream@, pos as int)) {
            Ok((v, rest)) => r matches Ok((x, p)) && x@ == v && p <= stream@.len() && rest == tail(stream@, p as int),
            Err(e) => r == Err::<(Vec<u8>, usize), ProtoError>(e),
        },
{
    let (n, p) = read_u16(stream, pos)?;
    let len = n as usize;
    if len > stream.len() - p {
        return Err(ProtoError::NotKnow);
    }
    let v = vstd::slice::slice_to_vec(vstd::slice::slice_subrange(stream, p, p + len));
    proof {
        let r = tail(stream@, p as int);
        assert(r.subrange(0, len as int) =~= stream@.subrange(p as int, p + len));
        assert(r.subrange(len as int, r.len() as int) =~= tail(stream@, p + len));
    }
    Ok((v, p + len))
}

/// Reads a length-prefixed UTF-8 string at `pos`; returns it and the
/// position after it.
pub fn read_mqtt_string(stream: &[u8], pos: usize) -> (r: Result<(String, usize), ProtoError>)
    requires
        pos <= stream@.len(),
    ensures
        match parse_mqtt_string(tail(stream@, pos as int)) {
            Ok((v, rest)) => r matches Ok((x, p)) && x@ == v && p <= stream@.len() && rest == tail(stream@, p as int),
            Err(e) => r == Err::<(String, usize), ProtoError>(e),
        },
{
    let (n, p) = read_u16(stream, pos)?;
    let len = n as usize;
    if len > stream.len() - p {
        return Err(ProtoError::NotKnow);
    }
    let b = vstd::slice::slice_subrange(stream, p, p + len);
    proof {
        let r = tail(stream@, p as int);
        assert(r.subrange(0, len as int) =~= b@);
        assert(r.subrange(len as int, r.len() as int) =~= tail(stream@, p + len));
    }
    match utf8_to_string(b) {
        Some(s) => Ok((s, p + len)),
        None => Err(ProtoError::NotKnow),
    }
}

/// Appends the bytes of `s` to `out`.
pub fn append_bytes(out: &mut Vec<u8>, s: &[u8])
    ensures
        final(out)@ == old(out)@ + s@,
{
    let mut i: usize = 0;
    while i < s.len()
        invariant
            i <= s@.len(),
            out@ == old(out)@ + s@.subrange(0, i as int),
        decreases s@.len() - i,
    {
        out.push(s[i]);
        i = i + 1;
        assert(out@ =~= old(out)@ + s@.subrange(0, i as int));
    }
    assert(s@.subrange(0, i as int) =~= s@);
}

/// Appends `v` as two bytes, most significant first.
pub fn write_u16(out: &mut Vec<u8>, v: u16)
    ensures
        final(out)@ == old(out)@ + be16(v),
{
    out.push((v / 256) as u8);
    out.push((v % 256) as u8);
    assert(out@ =~= old(out)@ + be16(v));
}

/// Appends `bytes` with its two-byte length prefix.
pub fn write_mqtt_bytes(stream: &mut Vec<u8>, bytes: &[u8])
    requires
        bytes@.len() <= 65535,
    ensures
        final(stream)@ == old(stream)@ + mqtt_bytes(bytes@),
{
    write_u16(stream, bytes.len() as u16);
    append_bytes(stream, bytes);
    assert(stream@ =~= old(stream)@ + mqtt_bytes(bytes@));
}

/// Appends the UTF-8 bytes of `string` with their two-byte length prefix.
pub fn write_mqtt_string(stream: &mut Vec<u8>, string: &str)
    requires
        fits_string(string@),
    ensures
        final(stream)@ == old(stream)@ + mqtt_string(string@),
{
    write_mqtt_bytes(stream, string.as_bytes());
}

/// A copy of the bytes of `v`.
pub fn copy_bytes(v: &Vec<u8>) -> (r: Vec<u8>)
    ensures
        r@ == v@,
{
    vstd::slice::slice_to_vec(v.as_slice())
}

} // verus!
