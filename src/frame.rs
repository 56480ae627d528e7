//! A whole packet on the wire: the fixed header followed by exactly
//! `remaining_length` bytes of variable header and payload.
use bytes::BytesMut;
use vstd::prelude::*;

use crate::buffer::{buf_view, extend_from_slice};
use crate::error::ProtoError;
use crate::fixed_header::{
    canonical_flags, fixed_header_of, flags_ok, header_bytes, lemma_fixed_header_round_trip,
    parse_fixed_header, with_length, FixedHeader,
};
use crate::varint::{lemma_varint_len, MAX_REMAINING_LENGTH};

verus! {

/// The wire form of a packet with header `h` and body `body`; the remaining
/// length is the length of the body.
pub open spec fn frame_bytes(h: FixedHeader, body: Seq<u8>) -> Seq<u8> {
    header_bytes(h, body.len()) + body
}

/// Whether a packet with header `h` and body `body` can be written.
pub open spec fn frame_ok(h: FixedHeader, body: Seq<u8>) -> bool {
    flags_ok(h) && body.len() <= MAX_REMAINING_LENGTH
}

/// The error that writing such a packet gives, when it cannot be written.
pub open spec fn frame_error(h: FixedHeader, body: Seq<u8>) -> ProtoError {
    if body.len() > MAX_REMAINING_LENGTH {
        ProtoError::OutOfMaxRemainingLength(body.len() as usize)
    } else {
        ProtoError::NotKnow
    }
}

/// Reads the header of the first packet in `s` and cuts out its body; a body
/// that runs past the end of `s` is an error.
pub open spec fn parse_frame(s: Seq<u8>) -> Result<(FixedHeader, Seq<u8>), ProtoError> {
    match fixed_header_of(s) {
        Ok(h) => if h.len + h.remaining_length <= s.len() {
            Ok((h, s.subrange(h.len as int, h.len + h.remaining_length)))
        } else {
            Err(ProtoError::NotKnow)
        },
        Err(e) => Err(e),
    }
}

/// A packet is read back from its wire form, whatever follows it.
pub proof fn lemma_frame_round_trip(h: FixedHeader, body: Seq<u8>, rest: Seq<u8>)
    requires
        canonical_flags(h),
        body.len() <= MAX_REMAINING_LENGTH,
    ensures
        frame_ok(h, body),
        parse_frame(frame_bytes(h, body) + rest) == Ok::<(FixedHeader, Seq<u8>), ProtoError>(
            (with_length(h, body.len()), body),
        ),
{
    let hb = header_bytes(h, body.len());
    let s = frame_bytes(h, body) + rest;
    assert(s =~= hb + (body + rest));
    lemma_fixed_header_round_trip(h, body.len(), body + rest);
    assert(s.subrange(hb.len() as int, (hb.len() + body.len()) as int) =~= body);
}

/// Writes a packet with header `h` (its remaining length set from the body)
/// and body `body`; a packet that cannot be written leaves `buffer` as it
/// was.
pub fn encode_frame(h: &FixedHeader, body: &[u8], buffer: &mut BytesMut) -> (r: Result<
    usize,
    ProtoError,
>)
    ensures
        frame_ok(*h, body@) ==> r == Ok::<usize, ProtoError>(
            frame_bytes(*h, body@).len() as usize,
        ) && buf_view(*final(buffer)) == buf_view(*old(buffer)) + frame_bytes(*h, body@),
        !frame_ok(*h, body@) ==> r == Err::<usize, ProtoError>(frame_error(*h, body@)) && buf_view(
            *final(buffer),
        ) == buf_view(*old(buffer)),
{
    let mut header = *h;
    header.remaining_length = body.len();
    let n = header.encode(buffer)?;
    proof {
        lemma_varint_len(body@.len());
    }
    extend_from_slice(buffer, body);
    proof {
        assert(header_bytes(header, body@.len()) == header_bytes(*h, body@.len()));
        assert(buf_view(*buffer) =~= buf_view(*old(buffer)) + frame_bytes(*h, body@));
    }
    Ok(n + body.len())
}

/// Reads the header of the first packet in `stream`; returns it with the
/// position where its body starts and the position where it ends.
pub fn decode_frame(stream: &[u8]) -> (r: Result<(FixedHeader, usize, usize), ProtoError>)
    ensures
        match parse_frame(stream@) {
            Ok((h, body)) => r matches Ok((x, start, end)) && x == h && start <= end <= stream@.len()
                && body == stream@.subrange(start as int, end as int) && h.remaining_length
                <= MAX_REMAINING_LENGTH,
            Err(e) => r == Err::<(FixedHeader, usize, usize), ProtoError>(e),
        },
{
    let h = parse_fixed_header(stream)?;
    if h.remaining_length > stream.len() - h.len {
        return Err(ProtoError::NotKnow);
    }
    Ok((h, h.len, h.len + h.remaining_length))
}

} // verus!
