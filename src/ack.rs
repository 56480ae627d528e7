//! Packets whose whole body is a packet identifier: PUBACK, PUBREC, PUBREL,
//! PUBCOMP and UNSUBACK.
use bytes::BytesMut;
use vstd::prelude::*;

use crate::buffer::buf_view;
use crate::coder::{be16, lemma_u16_round_trip, write_u16};
use crate::error::ProtoError;
use crate::fixed_header::{plain_header, with_length, FixedHeader};
use crate::frame::{decode_frame, encode_frame, frame_bytes, lemma_frame_round_trip, parse_frame};
use crate::MessageType;

verus! {

/// A variable header that holds only a packet identifier.
#[derive(Debug, Clone, Copy, PartialEq, Eq, Structural)]
pub struct GeneralVariableHeader {
    pub message_id: usize,
}

impl GeneralVariableHeader {
    pub fn new(message_id: usize) -> (r: Self)
        ensures
            r.message_id == message_id,
    {
        Self { message_id }
    }

    pub fn message_id(&self) -> (r: usize)
        ensures
            r == self.message_id,
    {
        self.message_id
    }

    /// The number of bytes the header takes on the wire.
    pub fn len(&self) -> (r: usize)
        ensures
            r == 2,
    {
        2
    }
}

/// The header of an identifier-only packet of type `t`.
pub open spec fn id_header(t: MessageType) -> FixedHeader {
    with_length(plain_header(t), 2)
}

/// The wire form of an identifier-only packet of type `t`.
pub open spec fn id_packet_bytes(t: MessageType, message_id: usize) -> Seq<u8> {
    frame_bytes(plain_header(t), be16(message_id as u16))
}

/// Reads an identifier-only packet of type `t` from the front of `s`: the
/// header and the identifier. Another packet type, or a body that is not
/// exactly two bytes, is an error.
pub open spec fn parse_id_packet(s: Seq<u8>, t: MessageType) -> Result<
    (FixedHeader, usize),
    ProtoError,
> {
    match parse_frame(s) {
        Ok((h, body)) => if h.message_type != t {
            Err(ProtoError::NotKnow)
        } else if body.len() != 2 {
            Err(ProtoError::DecodeGeneralVariableHeaderError)
        } else {
            Ok((h, (body[0] * 256 + body[1]) as usize))
        },
        Err(e) => Err(e),
    }
}

/// An identifier-only packet is read back from its wire form with the
/// identifier it was written with.
pub proof fn lemma_id_packet_round_trip(t: MessageType, message_id: usize, rest: Seq<u8>)
    requires
        t != MessageType::PUBLISH,
        message_id <= 65535,
    ensures
        parse_id_packet(id_packet_bytes(t, message_id) + rest, t) == Ok::<
            (FixedHeader, usize),
            ProtoError,
        >((id_header(t), message_id)),
{
    let body = be16(message_id as u16);
    lemma_frame_round_trip(plain_header(t), body, rest);
    lemma_u16_round_trip(message_id as u16, Seq::empty());
    assert(body + Seq::<u8>::empty() =~= body);
}

fn encode_id_packet(t: MessageType, message_id: usize, buffer: &mut BytesMut) -> (r: Result<
    usize,
    ProtoError,
>)
    requires
        t != MessageType::PUBLISH,
    ensures
        message_id > 65535 ==> r == Err::<usize, ProtoError>(ProtoError::EncodeVariableHeaderError)
            && buf_view(*final(buffer)) == buf_view(*old(buffer)),
        message_id <= 65535 ==> r == Ok::<usize, ProtoError>(4) && buf_view(*final(buffer))
            == buf_view(*old(buffer)) + id_packet_bytes(t, message_id),
{
    if message_id > 65535 {
        return Err(ProtoError::EncodeVariableHeaderError);
    }
    let mut body: Vec<u8> = Vec::new();
    write_u16(&mut body, message_id as u16);
    let header = FixedHeader {
        message_type: t,
        dup: Some(false),
        qos: None,
        retain: Some(false),
        remaining_length: 2,
        len: 2,
    };
    proof {
        assert(body@ =~= be16(message_id as u16));
        lemma_frame_round_trip(plain_header(t), body@, Seq::empty());
        assert(crate::fixed_header::header_bytes(header, 2) == crate::fixed_header::header_bytes(
            plain_header(t),
            2,
        ));
        assert(crate::varint::varint(2) =~= seq![2u8]);
    }
    encode_frame(&header, body.as_slice(), buffer)
}

fn decode_id_packet(stream: &[u8], t: MessageType) -> (r: Result<(FixedHeader, usize), ProtoError>)
    ensures
        r == parse_id_packet(stream@, t),
{
    let (h, start, end) = decode_frame(stream)?;
    if h.message_type != t {
        return Err(ProtoError::NotKnow);
    }
    if end - start != 2 {
        return Err(ProtoError::DecodeGeneralVariableHeaderError);
    }
    let id: usize = (stream[start] as usize) * 256 + (stream[start + 1] as usize);
    Ok((h, id))
}

fn id_header_of(t: MessageType) -> (r: FixedHeader)
    ensures
        r == id_header(t),
{
    proof {
        crate::varint::lemma_varint_len(2);
    }
    FixedHeader {
        message_type: t,
        dup: Some(false),
        qos: None,
        retain: Some(false),
        remaining_length: 2,
        len: 2,
    }
}

/// Acknowledges a PUBLISH at QoS 1.
#[derive(Debug, Clone, Copy, PartialEq, Eq, Structural)]
pub struct PubAck {
    pub fixed_header: FixedHeader,
    pub variable_header: GeneralVariableHeader,
}

/// First answer to a PUBLISH at QoS 2.
#[derive(Debug, Clone, Copy, PartialEq, Eq, Structural)]
pub struct PubRec {
    pub fixed_header: FixedHeader,
    pub variable_header: GeneralVariableHeader,
}

/// Second step of a QoS 2 exchange.
#[derive(Debug, Clone, Copy, PartialEq, Eq, Structural)]
pub struct PubRel {
    pub fixed_header: FixedHeader,
    pub variable_header: GeneralVariableHeader,
}

/// Last step of a QoS 2 exchange.
#[derive(Debug, Clone, Copy, PartialEq, Eq, Structural)]
pub struct PubComp {
    pub fixed_header: FixedHeader,
    pub variable_header: GeneralVariableHeader,
}

/// Acknowledges an UNSUBSCRIBE.
#[derive(Debug, Clone, Copy, PartialEq, Eq, Structural)]
pub struct UnSubAck {
    pub fixed_header: FixedHeader,
    pub variable_header: GeneralVariableHeader,
}

impl PubAck {
    /// A packet with the given identifier and its usual header.
    pub fn new(message_id: usize) -> (r: Self)
        ensures
            r.fixed_header == id_header(MessageType::PUBACK),
            r.variable_header.message_id == message_id,
    {
        Self {
            fixed_header: id_header_of(MessageType::PUBACK),
            variable_header: GeneralVariableHeader::new(message_id),
        }
    }

    pub fn message_id(&self) -> (r: usize)
        ensures
            r == self.variable_header.message_id,
    {
        self.variable_header.message_id
    }

    /// Writes the packet; an identifier that does not fit two bytes is
    /// rejected with nothing written.
    pub fn encode(&self, buffer: &mut BytesMut) -> (r: Result<usize, ProtoError>)
        ensures
            self.variable_header.message_id > 65535 ==> r == Err::<usize, ProtoError>(
                ProtoError::EncodeVariableHeaderError,
            ) && buf_view(*final(buffer)) == buf_view(*old(buffer)),
            self.variable_header.message_id <= 65535 ==> r == Ok::<usize, ProtoError>(4) && buf_view(
                *final(buffer),
            ) == buf_view(*old(buffer)) + id_packet_bytes(
                MessageType::PUBACK,
                self.variable_header.message_id,
            ),
    {
        encode_id_packet(MessageType::PUBACK, self.variable_header.message_id, buffer)
    }

    /// Reads the packet at the front of `stream`.
    pub fn decode(stream: &[u8]) -> (r: Result<Self, ProtoError>)
        ensures
            match parse_id_packet(stream@, MessageType::PUBACK) {
                Ok((h, id)) => r == Ok::<Self, ProtoError>(
                    Self { fixed_header: h, variable_header: GeneralVariableHeader { message_id: id } },
                ),
                Err(e) => r == Err::<Self, ProtoError>(e),
            },
    {
        let (h, id) = decode_id_packet(stream, MessageType::PUBACK)?;
        Ok(Self { fixed_header: h, variable_header: GeneralVariableHeader::new(id) })
    }
}

impl PubRec {
    /// A packet with the given identifier and its usual header.
    pub fn new(message_id: usize) -> (r: Self)
        ensures
            r.fixed_header == id_header(MessageType::PUBREC),
            r.variable_header.message_id == message_id,
    {
        Self {
            fixed_header: id_header_of(MessageType::PUBREC),
            variable_header: GeneralVariableHeader::new(message_id),
        }
    }

    pub fn message_id(&self) -> (r: usize)
        ensures
            r == self.variable_header.message_id,
    {
        self.variable_header.message_id
    }

    /// Writes the packet; an identifier that does not fit two bytes is
    /// rejected with nothing written.
    pub fn encode(&self, buffer: &mut BytesMut) -> (r: Result<usize, ProtoError>)
        ensures
            self.variable_header.message_id > 65535 ==> r == Err::<usize, ProtoError>(
                ProtoError::EncodeVariableHeaderError,
            ) && buf_view(*final(buffer)) == buf_view(*old(buffer)),
            self.variable_header.message_id <= 65535 ==> r == Ok::<usize, ProtoError>(4) && buf_view(
                *final(buffer),
            ) == buf_view(*old(buffer)) + id_packet_bytes(
                MessageType::PUBREC,
                self.variable_header.message_id,
            ),
    {
        encode_id_packet(MessageType::PUBREC, self.variable_header.message_id, buffer)
    }

    /// Reads the packet at the front of `stream`.
    pub fn decode(stream: &[u8]) -> (r: Result<Self, ProtoError>)
        ensures
            match parse_id_packet(stream@, MessageType::PUBREC) {
                Ok((h, id)) => r == Ok::<Self, ProtoError>(
                    Self { fixed_header: h, variable_header: GeneralVariableHeader { message_id: id } },
                ),
                Err(e) => r == Err::<Self, ProtoError>(e),
            },
    {
        let (h, id) = decode_id_packet(stream, MessageType::PUBREC)?;
        Ok(Self { fixed_header: h, variable_header: GeneralVariableHeader::new(id) })
    }
}

impl PubRel {
    /// A packet with the given identifier and its usual header.
    pub fn new(message_id: usize) -> (r: Self)
        ensures
            r.fixed_header == id_header(MessageType::PUBREL),
            r.variable_header.message_id == message_id,
    {
        Self {
            fixed_header: id_header_of(MessageType::PUBREL),
            variable_header: GeneralVariableHeader::new(message_id),
        }
    }

    pub fn message_id(&self) -> (r: usize)
        ensures
            r == self.variable_header.message_id,
    {
        self.variable_header.message_id
    }

    /// Writes the packet; an identifier that does not fit two bytes is
    /// rejected with nothing written.
    pub fn encode(&self, buffer: &mut BytesMut) -> (r: Result<usize, ProtoError>)
        ensures
            self.variable_header.message_id > 65535 ==> r == Err::<usize, ProtoError>(
                ProtoError::EncodeVariableHeaderError,
            ) && buf_view(*final(buffer)) == buf_view(*old(buffer)),
            self.variable_header.message_id <= 65535 ==> r == Ok::<usize, ProtoError>(4) && buf_view(
                *final(buffer),
            ) == buf_view(*old(buffer)) + id_packet_bytes(
                MessageType::PUBREL,
                self.variable_header.message_id,
            ),
    {
        encode_id_packet(MessageType::PUBREL, self.variable_header.message_id, buffer)
    }

    /// Reads the packet at the front of `stream`.
    pub fn decode(stream: &[u8]) -> (r: Result<Self, ProtoError>)
        ensures
            match parse_id_packet(stream@, MessageType::PUBREL) {
                Ok((h, id)) => r == Ok::<Self, ProtoError>(
                    Self { fixed_header: h, variable_header: GeneralVariableHeader { message_id: id } },
                ),
                Err(e) => r == Err::<Self, ProtoError>(e),
            },
    {
        let (h, id) = decode_id_packet(stream, MessageType::PUBREL)?;
        Ok(Self { fixed_header: h, variable_header: GeneralVariableHeader::new(id) })
    }
}

impl PubComp {
    /// A packet with the given identifier and its usual header.
    pub fn new(message_id: usize) -> (r: Self)
        ensures
            r.fixed_header == id_header(MessageType::PUBCOMP),
            r.variable_header.message_id == message_id,
    {
        Self {
            fixed_header: id_header_of(MessageType::PUBCOMP),
            variable_header: GeneralVariableHeader::new(message_id),
        }
    }

    pub fn message_id(&self) -> (r: usize)
        ensures
            r == self.variable_header.message_id,
    {
        self.variable_header.message_id
    }

    /// Writes the packet; an identifier that does not fit two bytes is
    /// rejected with nothing written.
    pub fn encode(&self, buffer: &mut BytesMut) -> (r: Result<usize, ProtoError>)
        ensures
            self.variable_header.message_id > 65535 ==> r == Err::<usize, ProtoError>(
                ProtoError::EncodeVariableHeaderError,
            ) && buf_view(*final(buffer)) == buf_view(*old(buffer)),
            self.variable_header.message_id <= 65535 ==> r == Ok::<usize, ProtoError>(4) && buf_view(
                *final(buffer),
            ) == buf_view(*old(buffer)) + id_packet_bytes(
                MessageType::PUBCOMP,
                self.variable_header.message_id,
            ),
    {
        encode_id_packet(MessageType::PUBCOMP, self.variable_header.message_id, buffer)
    }

    /// Reads the packet at the front of `stream`.
    pub fn decode(stream: &[u8]) -> (r: Result<Self, ProtoError>)
        ensures
            match parse_id_packet(stream@, MessageType::PUBCOMP) {
                Ok((h, id)) => r == Ok::<Self, ProtoError>(
                    Self { fixed_header: h, variable_header: GeneralVariableHeader { message_id: id } },
                ),
                Err(e) => r == Err::<Self, ProtoError>(e),
            },
    {
        let (h, id) = decode_id_packet(stream, MessageType::PUBCOMP)?;
        Ok(Self { fixed_header: h, variable_header: GeneralVariableHeader::new(id) })
    }
}

impl UnSubAck {
    pub fn new(fixed_header: FixedHeader, variable_header: GeneralVariableHeader) -> (r: Self)
        ensures
            r == (UnSubAck { fixed_header, variable_header }),
    {
        Self { fixed_header, variable_header }
    }

    pub fn message_id(&self) -> (r: usize)
        ensures
            r == self.variable_header.message_id,
    {
        self.variable_header.message_id
    }

    /// Writes the packet; an identifier that does not fit two bytes is
    /// rejected with nothing written.
    pub fn encode(&self, buffer: &mut BytesMut) -> (r: Result<usize, ProtoError>)
        ensures
            self.variable_header.message_id > 65535 ==> r == Err::<usize, ProtoError>(
                ProtoError::EncodeVariableHeaderError,
            ) && buf_view(*final(buffer)) == buf_view(*old(buffer)),
            self.variable_header.message_id <= 65535 ==> r == Ok::<usize, ProtoError>(4) && buf_view(
                *final(buffer),
            ) == buf_view(*old(buffer)) + id_packet_bytes(
                MessageType::UNSUBACK,
                self.variable_header.message_id,
            ),
    {
        encode_id_packet(MessageType::UNSUBACK, self.variable_header.message_id, buffer)
    }

    /// Reads the packet at the front of `stream`.
    pub fn decode(stream: &[u8]) -> (r: Result<Self, ProtoError>)
        ensures
            match parse_id_packet(stream@, MessageType::UNSUBACK) {
                Ok((h, id)) => r == Ok::<Self, ProtoError>(
                    Self { fixed_header: h, variable_header: GeneralVariableHeader { message_id: id } },
                ),
                Err(e) => r == Err::<Self, ProtoError>(e),
            },
    {
        let (h, id) = decode_id_packet(stream, MessageType::UNSUBACK)?;
        Ok(Self { fixed_header: h, variable_header: GeneralVariableHeader::new(id) })
    }
}

} // verus!
