//! Packets with no body: PINGREQ, PINGRESP and DISCONNECT.
use bytes::BytesMut;
use vstd::prelude::*;

use crate::buffer::buf_view;
use crate::error::ProtoError;
use crate::fixed_header::{plain_header, with_length, FixedHeader};
use crate::frame::{decode_frame, encode_frame, frame_bytes, lemma_frame_round_trip, parse_frame};
use crate::MessageType;

verus! {

/// The header of a body-less packet of type `t`.
pub open spec fn empty_header(t: MessageType) -> FixedHeader {
    with_length(plain_header(t), 0)
}

/// The wire form of a body-less packet of type `t`.
pub open spec fn empty_packet_bytes(t: MessageType) -> Seq<u8> {
    frame_bytes(plain_header(t), Seq::empty())
}

/// Reads a body-less packet of type `t` from the front of `s`. Another
/// packet type, or a non-zero remaining length, is an error.
pub open spec fn parse_empty_packet(s: Seq<u8>, t: MessageType) -> Result<FixedHeader, ProtoError> {
    match parse_frame(s) {
        Ok((h, body)) => if h.message_type != t || body.len() != 0 {
            Err(ProtoError::NotKnow)
        } else {
            Ok(h)
        },
        Err(e) => Err(e),
    }
}

/// A body-less packet is read back from its wire form.
pub proof fn lemma_empty_packet_round_trip(t: MessageType, rest: Seq<u8>)
    requires
        t != MessageType::PUBLISH,
    ensures
        parse_empty_packet(empty_packet_bytes(t) + rest, t) == Ok::<FixedHeader, ProtoError>(
            empty_header(t),
        ),
{
    lemma_frame_round_trip(plain_header(t), Seq::empty(), rest);
}

fn empty_header_of(t: MessageType) -> (r: FixedHeader)
    ensures
        r == empty_header(t),
{
    FixedHeader {
        message_type: t,
        dup: Some(false),
        qos: None,
        retain: Some(false),
        remaining_length: 0,
        len: 2,
    }
}

fn encode_empty_packet(t: MessageType, buffer: &mut BytesMut) -> (r: Result<usize, ProtoError>)
    requires
        t != MessageType::PUBLISH,
    ensures
        r == Ok::<usize, ProtoError>(2),
        buf_view(*final(buffer)) == buf_view(*old(buffer)) + empty_packet_bytes(t),
{
    let body: Vec<u8> = Vec::new();
    let header = empty_header_of(t);
    proof {
        lemma_frame_round_trip(plain_header(t), body@, Seq::empty());
        assert(body@ =~= Seq::<u8>::empty());
        assert(crate::fixed_header::header_bytes(header, 0) == crate::fixed_header::header_bytes(
            plain_header(t),
            0,
        ));
        assert(crate::varint::varint(0) =~= seq![0u8]);
    }
    encode_frame(&header, body.as_slice(), buffer)
}

fn decode_empty_packet(stream: &[u8], t: MessageType) -> (r: Result<FixedHeader, ProtoError>)
    ensures
        r == parse_empty_packet(stream@, t),
{
    let (h, start, end) = decode_frame(stream)?;
    if h.message_type != t || end - start != 0 {
        return Err(ProtoError::NotKnow);
    }
    Ok(h)
}

/// A keep-alive request.
#[derive(Debug, Clone, Copy, PartialEq, Eq, Structural, Default)]
pub struct PingReq {
    pub fixed_header: FixedHeader,
}

/// The answer to a keep-alive request.
#[derive(Debug, Clone, Copy, PartialEq, Eq, Structural, Default)]
pub struct PingResp {
    pub fixed_header: FixedHeader,
}

/// A client's notice that it is disconnecting.
#[derive(Debug, Clone, Copy, PartialEq, Eq, Structural, Default)]
pub struct DisConnect {
    pub fixed_header: FixedHeader,
}

impl PingReq {
    pub fn new() -> (r: Self)
        ensures
            r.fixed_header == empty_header(MessageType::PINGREQ),
    {
        Self { fixed_header: empty_header_of(MessageType::PINGREQ) }
    }

    pub fn from_fixed_header(fixed_header: FixedHeader) -> (r: Self)
        ensures
            r.fixed_header == fixed_header,
    {
        Self { fixed_header }
    }

    /// Writes the packet: two bytes.
    pub fn encode(&self, buffer: &mut BytesMut) -> (r: Result<usize, ProtoError>)
        ensures
            r == Ok::<usize, ProtoError>(2),
            buf_view(*final(buffer)) == buf_view(*old(buffer)) + empty_packet_bytes(
                MessageType::PINGREQ,
            ),
    {
        encode_empty_packet(MessageType::PINGREQ, buffer)
    }

    /// Reads the packet at the front of `stream`.
    pub fn decode(stream: &[u8]) -> (r: Result<Self, ProtoError>)
        ensures
            match parse_empty_packet(stream@, MessageType::PINGREQ) {
                Ok(h) => r == Ok::<Self, ProtoError>(Self { fixed_header: h }),
                Err(e) => r == Err::<Self, ProtoError>(e),
            },
    {
        let h = decode_empty_packet(stream, MessageType::PINGREQ)?;
        Ok(Self { fixed_header: h })
    }
}

impl PingResp {
    pub fn new() -> (r: Self)
        ensures
            r.fixed_header == empty_header(MessageType::PINGRESP),
    {
        Self { fixed_header: empty_header_of(MessageType::PINGRESP) }
    }

    pub fn from_fixed_header(fixed_header: FixedHeader) -> (r: Self)
        ensures
            r.fixed_header == fixed_header,
    {
        Self { fixed_header }
    }

    /// Writes the packet: two bytes.
    pub fn encode(&self, buffer: &mut BytesMut) -> (r: Result<usize, ProtoError>)
        ensures
            r == Ok::<usize, ProtoError>(2),
            buf_view(*final(buffer)) == buf_view(*old(buffer)) + empty_packet_bytes(
                MessageType::PINGRESP,
            ),
    {
        encode_empty_packet(MessageType::PINGRESP, buffer)
    }

    /// Reads the packet at the front of `stream`.
    pub fn decode(stream: &[u8]) -> (r: Result<Self, ProtoError>)
        ensures
            match parse_empty_packet(stream@, MessageType::PINGRESP) {
                Ok(h) => r == Ok::<Self, ProtoError>(Self { fixed_header: h }),
                Err(e) => r == Err::<Self, ProtoError>(e),
            },
    {
        let h = decode_empty_packet(stream, MessageType::PINGRESP)?;
        Ok(Self { fixed_header: h })
    }
}

impl DisConnect {
    pub fn new(fixed_header: FixedHeader) -> (r: Self)
        ensures
            r.fixed_header == fixed_header,
    {
        Self { fixed_header }
    }

    /// Writes the packet: two bytes.
    pub fn encode(&self, buffer: &mut BytesMut) -> (r: Result<usize, ProtoError>)
        ensures
            r == Ok::<usize, ProtoError>(2),
            buf_view(*final(buffer)) == buf_view(*old(buffer)) + empty_packet_bytes(
                MessageType::DISCONNECT,
            ),
    {
        encode_empty_packet(MessageType::DISCONNECT, buffer)
    }

    /// Reads the packet at the front of `stream`.
    pub fn decode(stream: &[u8]) -> (r: Result<Self, ProtoError>)
        ensures
            match parse_empty_packet(stream@, MessageType::DISCONNECT) {
                Ok(h) => r == Ok::<Self, ProtoError>(Self { fixed_header: h }),
                Err(e) => r == Err::<Self, ProtoError>(e),
            },
    {
        let h = decode_empty_packet(stream, MessageType::DISCONNECT)?;
        Ok(Self { fixed_header: h })
    }
}

} // verus!
