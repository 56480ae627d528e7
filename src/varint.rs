//! The variable-length "Remaining Length" integer: one to four bytes, seven
//! data bits each, least significant group first, with 0x80 marking that
//! another byte follows.
use bytes::BytesMut;
use vstd::prelude::*;

use crate::buffer::{buf_view, extend_from_slice};
use crate::error::ProtoError;

verus! {

/// The largest value a remaining length can hold (four groups of seven bits).
pub const MAX_REMAINING_LENGTH: usize = 268_435_455;

/// The wire form of `n`.
pub open spec fn varint(n: nat) -> Seq<u8>
    decreases n,
{
    if n < 128 {
        seq![n as u8]
    } else {
        seq![(n % 128 + 128) as u8] + varint(n / 128)
    }
}

/// The number of bytes that the wire form of `n` takes, for `n` in range.
pub open spec fn varint_len(n: nat) -> nat {
    if n <= 127 {
        1
    } else if n <= 16_383 {
        2
    } else if n <= 2_097_151 {
        3
    } else {
        4
    }
}

/// Reads a remaining length from the front of `s`, looking at most at `k`
/// bytes: the value and the number of bytes read.
pub open spec fn parse_varint_k(s: Seq<u8>, k: nat) -> Result<(nat, nat), ProtoError>
    decreases k,
{
    if k == 0 || s.len() == 0 {
        Err(ProtoError::NotKnow)
    } else if s[0] < 128 {
        Ok((s[0] as nat, 1))
    } else {
        match parse_varint_k(s.drop_first(), (k - 1) as nat) {
            Ok((v, c)) => Ok((((s[0] - 128) + 128 * v) as nat, c + 1)),
            Err(e) => Err(e),
        }
    }
}

/// Reads a remaining length from the front of `s`: a continuation chain
/// longer than four bytes, or one that runs off the end, is an error.
pub open spec fn parse_varint(s: Seq<u8>) -> Result<(nat, nat), ProtoError> {
    parse_varint_k(s, 4)
}

pub proof fn lemma_varint_len(n: nat)
    requires
        n <= MAX_REMAINING_LENGTH,
    ensures
        varint(n).len() == varint_len(n),
        1 <= varint_len(n) <= 4,
    decreases n,
{
    if n >= 128 {
        lemma_varint_len(n / 128);
    }
}

proof fn lemma_parse_varint_k(n: nat, k: nat, rest: Seq<u8>)
    requires
        varint(n).len() <= k,
    ensures
        parse_varint_k(varint(n) + rest, k) == Ok::<(nat, nat), ProtoError>((n, varint(n).len())),
    decreases n,
{
    let s = varint(n) + rest;
    if n >= 128 {
        lemma_parse_varint_k(n / 128, (k - 1) as nat, rest);
        assert(s.drop_first() =~= varint(n / 128) + rest);
        assert(n == n % 128 + 128 * (n / 128));
    }
}

pub proof fn lemma_parse_varint_k_len(s: Seq<u8>, k: nat)
    ensures
        parse_varint_k(s, k) matches Ok((v, c)) ==> 1 <= c <= k && c <= s.len() && (k <= 4 ==> v
            < pow128(c)),
    decreases k,
{
    if k > 0 && s.len() > 0 && s[0] >= 128 {
        lemma_parse_varint_k_len(s.drop_first(), (k - 1) as nat);
        if let Ok((v, c)) = parse_varint_k(s.drop_first(), (k - 1) as nat) {
            if k <= 4 {
                let d = s[0] - 128;
                assert(d < 128);
                assert(d + 128 * v < 128 * pow128(c)) by (nonlinear_arith)
                    requires d < 128, v < pow128(c), v >= 0;
                assert(128 * pow128(c) == pow128(c + 1));
            }
        }
    }
}

/// 128 to the power `c`, for `c` up to 4.
pub open spec fn pow128(c: nat) -> nat {
    if c <= 1 { 128 } else if c == 2 { 16384 } else if c == 3 { 2_097_152 } else { 268_435_456 }
}

/// What a successful read gives: an in-range value whose wire form is as
/// long as the bytes read.
pub proof fn lemma_parse_varint_len(s: Seq<u8>)
    ensures
        parse_varint(s) matches Ok((v, c)) ==> 1 <= c <= 4 && c <= s.len() && v
            <= MAX_REMAINING_LENGTH,
{
    lemma_parse_varint_k_len(s, 4);
}

/// Reading back the wire form of an in-range remaining length gives the
/// value and the length of its wire form, whatever follows it.
pub proof fn lemma_varint_round_trip(n: nat, rest: Seq<u8>)
    requires
        n <= MAX_REMAINING_LENGTH,
    ensures
        parse_varint(varint(n) + rest) == Ok::<(nat, nat), ProtoError>((n, varint_len(n))),
{
    lemma_varint_len(n);
    lemma_parse_varint_k(n, 4, rest);
}

proof fn lemma_mul_shift(acc: int, mult: int, d: int, v: int)
    ensures
        acc + mult * (d + 128 * v) == (acc + mult * d) + (mult * 128) * v,
{
    assert(acc + mult * (d + 128 * v) == (acc + mult * d) + (mult * 128) * v) by (nonlinear_arith);
}

/// The wire form of an in-range remaining length.
pub fn varint_bytes(remaining_len: usize) -> (r: Vec<u8>)
    requires
        remaining_len <= MAX_REMAINING_LENGTH,
    ensures
        r@ == varint(remaining_len as nat),
        r@.len() == varint_len(remaining_len as nat),
{
    proof {
        lemma_varint_len(remaining_len as nat);
    }
    let mut out: Vec<u8> = Vec::new();
    let mut x: usize = remaining_len;
    while x >= 128
        invariant
            x <= remaining_len,
            out@ + varint(x as nat) == varint(remaining_len as nat),
        decreases x,
    {
        let byte: u8 = (x % 128 + 128) as u8;
        proof {
            assert(varint(x as nat) =~= seq![byte] + varint((x / 128) as nat));
            assert(out@ + varint(x as nat) =~= out@.push(byte) + varint((x / 128) as nat));
        }
        out.push(byte);
        x = x / 128;
    }
    proof {
        assert(varint(x as nat) =~= seq![x as u8]);
        assert(out@.push(x as u8) =~= out@ + varint(x as nat));
    }
    out.push(x as u8);
    out
}

/// Writes the wire form of `remaining_len` to `buffer` and returns how many
/// bytes it took; a value above the maximum is rejected and nothing is written.
pub fn encode_remaining_len(remaining_len: usize, buffer: &mut BytesMut) -> (r: Result<
    usize,
    ProtoError,
>)
    ensures
        remaining_len > MAX_REMAINING_LENGTH ==> r == Err::<usize, ProtoError>(
            ProtoError::OutOfMaxRemainingLength(remaining_len),
        ) && buf_view(*final(buffer)) == buf_view(*old(buffer)),
        remaining_len <= MAX_REMAINING_LENGTH ==> r == Ok::<usize, ProtoError>(
            varint_len(remaining_len as nat) as usize,
        ) && buf_view(*final(buffer)) == buf_view(*old(buffer)) + varint(remaining_len as nat),
{
    if remaining_len > MAX_REMAINING_LENGTH {
        return Err(ProtoError::OutOfMaxRemainingLength(remaining_len));
    }
    let bytes = varint_bytes(remaining_len);
    extend_from_slice(buffer, bytes.as_slice());
    Ok(bytes.len())
}

/// The number of bytes the wire form of `remaining_length` takes; a value
/// above the maximum is rejected.
pub fn remaining_length_len(remaining_length: usize) -> (r: Result<usize, ProtoError>)
    ensures
        remaining_length > MAX_REMAINING_LENGTH ==> r == Err::<usize, ProtoError>(
            ProtoError::OutOfMaxRemainingLength(remaining_length),
        ),
        remaining_length <= MAX_REMAINING_LENGTH ==> r == Ok::<usize, ProtoError>(
            varint_len(remaining_length as nat) as usize,
        ),
{
    if remaining_length <= 127 {
        Ok(1)
    } else if remaining_length <= 16_383 {
        Ok(2)
    } else if remaining_length <= 2_097_151 {
        Ok(3)
    } else if remaining_length <= MAX_REMAINING_LENGTH {
        Ok(4)
    } else {
        Err(ProtoError::OutOfMaxRemainingLength(remaining_length))
    }
}

/// Reads a remaining length that starts at `pos` in `s`: the value and the
/// position just after it.
pub fn decode_remaining_length(s: &[u8], pos: usize) -> (r: Result<(usize, usize), ProtoError>)
    requires
        pos <= s@.len(),
    ensures
        match parse_varint(s@.subrange(pos as int, s@.len() as int)) {
            Ok((v, c)) => r == Ok::<(usize, usize), ProtoError>((v as usize, (pos + c) as usize))
                && v <= MAX_REMAINING_LENGTH && pos + c <= s@.len(),
            Err(e) => r == Err::<(usize, usize), ProtoError>(e),
        },
{
    let ghost whole = s@.subrange(pos as int, s@.len() as int);
    let mut i: usize = 0;
    let mut acc: usize = 0;
    let mut mult: usize = 1;
    while i < 4
        invariant
            pos <= s@.len(),
            i <= 4,
            mult == if i == 0 { 1nat } else if i == 1 { 128nat } else if i == 2 { 16384nat } else if i == 3 { 2_097_152nat } else { 268_435_456nat },
            acc < mult,
            pos + i <= s@.len(),
            whole == s@.subrange(pos as int, s@.len() as int),
            parse_varint(whole) == match parse_varint_k(s@.subrange(pos + i, s@.len() as int), (4 - i) as nat) {
                Ok((v, c)) => Ok::<(nat, nat), ProtoError>(((acc + mult * v) as nat, (i + c) as nat)),
                Err(e) => Err(e),
            },
        decreases 4 - i,
    {
        let ghost rest = s@.subrange(pos + i, s@.len() as int);
        if i >= s.len() - pos {
            return Err(ProtoError::NotKnow);
        }
        let b: u8 = s[pos + i];
        assert(rest[0] == b);
        if b < 128 {
            proof {
                assert(acc + mult * b <= 268_435_455) by (nonlinear_arith)
                    requires acc < mult, b < 128, mult <= 2_097_152;
            }
            return Ok((acc + mult * (b as usize), pos + i + 1));
        }
        proof {
            let rest2 = s@.subrange(pos + i + 1, s@.len() as int);
            assert(rest.drop_first() =~= rest2);
            match parse_varint_k(rest2, (3 - i) as nat) {
                Ok((v, c)) => {
                    lemma_mul_shift(acc as int, mult as int, (b - 128) as int, v as int);
                },
                Err(e) => {},
            }
            assert(acc + mult * (b - 128) < mult * 128) by (nonlinear_arith)
                requires acc < mult, b < 256, b >= 128;
        }
        acc = acc + mult * ((b - 128) as usize);
        mult = mult * 128;
        i = i + 1;
    }
    Err(ProtoError::NotKnow)
}

} // verus!
