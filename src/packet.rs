//! Any one of the fourteen packets, told apart by the type in its first byte.
use bytes::BytesMut;
use vstd::prelude::*;

use crate::ack::{
    id_header, id_packet_bytes, lemma_id_packet_round_trip, parse_id_packet, GeneralVariableHeader,
    PubAck, PubComp, PubRec, PubRel, UnSubAck,
};
use crate::buffer::{buf_view, buffer_bytes};
use crate::conn_ack::{conn_ack_bytes, lemma_conn_ack_round_trip, parse_conn_ack, ConnAck};
use crate::connect::{
    connect_bytes, connect_encode_error, connect_wf, lemma_connect_round_trip, parse_connect,
    Connect, ConnectView,
};
use crate::error::ProtoError;
use crate::fixed_header::{plain_header, with_length, FixedHeader};
use crate::frame::{decode_frame, parse_frame};
use crate::ping::{
    empty_header, empty_packet_bytes, lemma_empty_packet_round_trip, parse_empty_packet, DisConnect,
    PingReq, PingResp,
};
use crate::publish::{
    lemma_publish_round_trip, parse_publish, publish_bytes, publish_encode_error, publish_wf,
    Publish, PublishView,
};
use crate::subscribe::{
    lemma_sub_ack_round_trip, lemma_subscribe_round_trip, lemma_unsubscribe_round_trip,
    parse_sub_ack, parse_subscribe, parse_unsubscribe, sub_ack_bytes, sub_ack_encode_error,
    sub_ack_wf, subscribe_bytes, subscribe_encode_error, subscribe_wf, unsubscribe_bytes,
    unsubscribe_encode_error, unsubscribe_wf, SubAck, SubAckView, Subscribe, SubscribeView,
    UnSubscribe, UnSubscribeView,
};
use crate::MessageType;

verus! {

/// An MQTT 3.1.1 packet of any type.
#[derive(Debug, Clone, PartialEq, Eq)]
pub enum Packet {
    Connect(Connect),
    ConnAck(ConnAck),
    Publish(Publish),
    PubAck(PubAck),
    PubRel(PubRel),
    PubRec(PubRec),
    PubComp(PubComp),
    PingReq(PingReq),
    PingResp(PingResp),
    Subscribe(Subscribe),
    SubAck(SubAck),
    UnSubscribe(UnSubscribe),
    UnSubAck(UnSubAck),
    DisConnect(DisConnect),
}

/// The value of a packet that the contracts speak of.
pub enum PacketView {
    Connect(ConnectView),
    ConnAck(ConnAck),
    Publish(PublishView),
    PubAck(PubAck),
    PubRel(PubRel),
    PubRec(PubRec),
    PubComp(PubComp),
    PingReq(PingReq),
    PingResp(PingResp),
    Subscribe(SubscribeView),
    SubAck(SubAckView),
    UnSubscribe(UnSubscribeView),
    UnSubAck(UnSubAck),
    DisConnect(DisConnect),
}

impl View for Packet {
    type V = PacketView;

    open spec fn view(&self) -> PacketView {
        match self {
            Packet::Connect(p) => PacketView::Connect(p@),
            Packet::ConnAck(p) => PacketView::ConnAck(*p),
            Packet::Publish(p) => PacketView::Publish(p@),
            Packet::PubAck(p) => PacketView::PubAck(*p),
            Packet::PubRel(p) => PacketView::PubRel(*p),
            Packet::PubRec(p) => PacketView::PubRec(*p),
            Packet::PubComp(p) => PacketView::PubComp(*p),
            Packet::PingReq(p) => PacketView::PingReq(*p),
            Packet::PingResp(p) => PacketView::PingResp(*p),
            Packet::Subscribe(p) => PacketView::Subscribe(p@),
            Packet::SubAck(p) => PacketView::SubAck(p@),
            Packet::UnSubscribe(p) => PacketView::UnSubscribe(p@),
            Packet::UnSubAck(p) => PacketView::UnSubAck(*p),
            Packet::DisConnect(p) => PacketView::DisConnect(*p),
        }
    }
}

/// Why an identifier-only packet cannot be written, if it cannot.
pub open spec fn id_encode_error(v: GeneralVariableHeader) -> Option<ProtoError> {
    if v.message_id > 65535 {
        Some(ProtoError::EncodeVariableHeaderError)
    } else {
        None
    }
}

/// Why a packet cannot be written, if it cannot.
pub open spec fn packet_encode_error(p: PacketView) -> Option<ProtoError> {
    match p {
        PacketView::Connect(m) => connect_encode_error(m),
        PacketView::Publish(m) => publish_encode_error(m),
        PacketView::PubAck(m) => id_encode_error(m.variable_header),
        PacketView::PubRel(m) => id_encode_error(m.variable_header),
        PacketView::PubRec(m) => id_encode_error(m.variable_header),
        PacketView::PubComp(m) => id_encode_error(m.variable_header),
        PacketView::Subscribe(m) => subscribe_encode_error(m),
        PacketView::SubAck(m) => sub_ack_encode_error(m),
        PacketView::UnSubscribe(m) => unsubscribe_encode_error(m),
        PacketView::UnSubAck(m) => id_encode_error(m.variable_header),
        _ => None,
    }
}

/// The wire form of a packet.
pub open spec fn packet_bytes(p: PacketView) -> Seq<u8> {
    match p {
        PacketView::Connect(m) => connect_bytes(m),
        PacketView::ConnAck(m) => conn_ack_bytes(m.variable_header),
        PacketView::Publish(m) => publish_bytes(m),
        PacketView::PubAck(m) => id_packet_bytes(MessageType::PUBACK, m.variable_header.message_id),
        PacketView::PubRel(m) => id_packet_bytes(MessageType::PUBREL, m.variable_header.message_id),
        PacketView::PubRec(m) => id_packet_bytes(MessageType::PUBREC, m.variable_header.message_id),
        PacketView::PubComp(m) => id_packet_bytes(MessageType::PUBCOMP, m.variable_header.message_id),
        PacketView::PingReq(_) => empty_packet_bytes(MessageType::PINGREQ),
        PacketView::PingResp(_) => empty_packet_bytes(MessageType::PINGRESP),
        PacketView::Subscribe(m) => subscribe_bytes(m),
        PacketView::SubAck(m) => sub_ack_bytes(m),
        PacketView::UnSubscribe(m) => unsubscribe_bytes(m),
        PacketView::UnSubAck(m) => id_packet_bytes(MessageType::UNSUBACK, m.variable_header.message_id),
        PacketView::DisConnect(_) => empty_packet_bytes(MessageType::DISCONNECT),
    }
}

/// The identifier-only packet read as `(h, id)`.
pub open spec fn id_parts(r: Result<(FixedHeader, usize), ProtoError>) -> Result<(FixedHeader, GeneralVariableHeader), ProtoError> {
    match r {
        Ok((h, id)) => Ok((h, GeneralVariableHeader { message_id: id })),
        Err(e) => Err(e),
    }
}

/// Reads the first packet of `s`, of whichever type its first byte names.
pub open spec fn parse_packet(s: Seq<u8>) -> Result<PacketView, ProtoError> {
    match parse_frame(s) {
        Err(e) => Err(e),
        Ok((h, _)) => match h.message_type {
            MessageType::CONNECT => match parse_connect(s) {
                Ok(m) => Ok(PacketView::Connect(m)),
                Err(e) => Err(e),
            },
            MessageType::CONNACK => match parse_conn_ack(s) {
                Ok(m) => Ok(PacketView::ConnAck(m)),
                Err(e) => Err(e),
            },
            MessageType::PUBLISH => match parse_publish(s) {
                Ok(m) => Ok(PacketView::Publish(m)),
                Err(e) => Err(e),
            },
            MessageType::PUBACK => match id_parts(parse_id_packet(s, MessageType::PUBACK)) {
                Ok((h, v)) => Ok(PacketView::PubAck(PubAck { fixed_header: h, variable_header: v })),
                Err(e) => Err(e),
            },
            MessageType::PUBREL => match id_parts(parse_id_packet(s, MessageType::PUBREL)) {
                Ok((h, v)) => Ok(PacketView::PubRel(PubRel { fixed_header: h, variable_header: v })),
                Err(e) => Err(e),
            },
            MessageType::PUBREC => match id_parts(parse_id_packet(s, MessageType::PUBREC)) {
                Ok((h, v)) => Ok(PacketView::PubRec(PubRec { fixed_header: h, variable_header: v })),
                Err(e) => Err(e),
            },
            MessageType::PUBCOMP => match id_parts(parse_id_packet(s, MessageType::PUBCOMP)) {
                Ok((h, v)) => Ok(PacketView::PubComp(PubComp { fixed_header: h, variable_header: v })),
                Err(e) => Err(e),
            },
            MessageType::PINGREQ => match parse_empty_packet(s, MessageType::PINGREQ) {
                Ok(h) => Ok(PacketView::PingReq(PingReq { fixed_header: h })),
                Err(e) => Err(e),
            },
            MessageType::PINGRESP => match parse_empty_packet(s, MessageType::PINGRESP) {
                Ok(h) => Ok(PacketView::PingResp(PingResp { fixed_header: h })),
                Err(e) => Err(e),
            },
            MessageType::SUBSCRIBE => match parse_subscribe(s) {
                Ok(m) => Ok(PacketView::Subscribe(m)),
                Err(e) => Err(e),
            },
            MessageType::SUBACK => match parse_sub_ack(s) {
                Ok(m) => Ok(PacketView::SubAck(m)),
                Err(e) => Err(e),
            },
            MessageType::UNSUBSCRIBE => match parse_unsubscribe(s) {
                Ok(m) => Ok(PacketView::UnSubscribe(m)),
                Err(e) => Err(e),
            },
            MessageType::UNSUBACK => match id_parts(parse_id_packet(s, MessageType::UNSUBACK)) {
                Ok((h, v)) => Ok(PacketView::UnSubAck(UnSubAck { fixed_header: h, variable_header: v })),
                Err(e) => Err(e),
            },
            MessageType::DISCONNECT => match parse_empty_packet(s, MessageType::DISCONNECT) {
                Ok(h) => Ok(PacketView::DisConnect(DisConnect { fixed_header: h })),
                Err(e) => Err(e),
            },
        },
    }
}

/// Whether a packet is one that decoding gives back: written without error,
/// with the header a decoder produces for it.
pub open spec fn packet_wf(p: PacketView) -> bool {
    match p {
        PacketView::Connect(m) => connect_wf(m),
        PacketView::ConnAck(m) => m.fixed_header == with_length(plain_header(MessageType::CONNACK), 2),
        PacketView::Publish(m) => publish_wf(m),
        PacketView::PubAck(m) => m.fixed_header == id_header(MessageType::PUBACK) && m.variable_header.message_id <= 65535,
        PacketView::PubRel(m) => m.fixed_header == id_header(MessageType::PUBREL) && m.variable_header.message_id <= 65535,
        PacketView::PubRec(m) => m.fixed_header == id_header(MessageType::PUBREC) && m.variable_header.message_id <= 65535,
        PacketView::PubComp(m) => m.fixed_header == id_header(MessageType::PUBCOMP) && m.variable_header.message_id <= 65535,
        PacketView::PingReq(m) => m.fixed_header == empty_header(MessageType::PINGREQ),
        PacketView::PingResp(m) => m.fixed_header == empty_header(MessageType::PINGRESP),
        PacketView::Subscribe(m) => subscribe_wf(m),
        PacketView::SubAck(m) => sub_ack_wf(m),
        PacketView::UnSubscribe(m) => unsubscribe_wf(m),
        PacketView::UnSubAck(m) => m.fixed_header == id_header(MessageType::UNSUBACK) && m.variable_header.message_id <= 65535,
        PacketView::DisConnect(m) => m.fixed_header == empty_header(MessageType::DISCONNECT),
    }
}

/// Decoding what encoding wrote gives back the packet, field for field, for
/// every packet type, whatever bytes follow it.
#[verifier::rlimit(100)]
#[verifier::spinoff_prover]
pub proof fn lemma_packet_round_trip(p: PacketView, rest: Seq<u8>)
    requires
        packet_wf(p),
    ensures
        packet_encode_error(p) is None,
        parse_packet(packet_bytes(p) + rest) == Ok::<PacketView, ProtoError>(p),
{
    let s = packet_bytes(p) + rest;
    match p {
        PacketView::Connect(m) => {
            lemma_connect_round_trip(m, rest);
            crate::frame::lemma_frame_round_trip(plain_header(MessageType::CONNECT), crate::connect::connect_body(m), rest);
        },
        PacketView::ConnAck(m) => {
            lemma_conn_ack_round_trip(m.variable_header, rest);
            crate::frame::lemma_frame_round_trip(plain_header(MessageType::CONNACK), crate::conn_ack::conn_ack_body(m.variable_header), rest);
        },
        PacketView::Publish(m) => {
            lemma_publish_round_trip(m, rest);
            crate::frame::lemma_frame_round_trip(crate::publish::publish_header(m), crate::publish::publish_body(m), rest);
        },
        PacketView::PubAck(m) => {
            lemma_id_packet_round_trip(MessageType::PUBACK, m.variable_header.message_id, rest);
        },
        PacketView::PubRel(m) => {
            lemma_id_packet_round_trip(MessageType::PUBREL, m.variable_header.message_id, rest);
        },
        PacketView::PubRec(m) => {
            lemma_id_packet_round_trip(MessageType::PUBREC, m.variable_header.message_id, rest);
        },
        PacketView::PubComp(m) => {
            lemma_id_packet_round_trip(MessageType::PUBCOMP, m.variable_header.message_id, rest);
        },
        PacketView::PingReq(m) => {
            lemma_empty_packet_round_trip(MessageType::PINGREQ, rest);
        },
        PacketView::PingResp(m) => {
            lemma_empty_packet_round_trip(MessageType::PINGRESP, rest);
        },
        PacketView::Subscribe(m) => {
            lemma_subscribe_round_trip(m, rest);
            crate::frame::lemma_frame_round_trip(plain_header(MessageType::SUBSCRIBE), crate::subscribe::subscribe_body(m), rest);
        },
        PacketView::SubAck(m) => {
            lemma_sub_ack_round_trip(m, rest);
            crate::frame::lemma_frame_round_trip(plain_header(MessageType::SUBACK), crate::subscribe::sub_ack_body(m), rest);
        },
        PacketView::UnSubscribe(m) => {
            lemma_unsubscribe_round_trip(m, rest);
            crate::frame::lemma_frame_round_trip(plain_header(MessageType::UNSUBSCRIBE), crate::subscribe::unsubscribe_body(m), rest);
        },
        PacketView::UnSubAck(m) => {
            lemma_id_packet_round_trip(MessageType::UNSUBACK, m.variable_header.message_id, rest);
        },
        PacketView::DisConnect(m) => {
            lemma_empty_packet_round_trip(MessageType::DISCONNECT, rest);
        },
    }
}

impl Packet {
    /// Writes the packet. A packet that cannot be written leaves `buffer` as
    /// it was.
    #[verifier::rlimit(100)]
    #[verifier::spinoff_prover]
    pub fn encode(&self, buffer: &mut BytesMut) -> (r: Result<usize, ProtoError>)
        ensures
            match packet_encode_error(self@) {
                Some(e) => r == Err::<usize, ProtoError>(e) && buf_view(*final(buffer)) == buf_view(
                    *old(buffer),
                ),
                None => r == Ok::<usize, ProtoError>(packet_bytes(self@).len() as usize) && buf_view(
                    *final(buffer),
                ) == buf_view(*old(buffer)) + packet_bytes(self@),
            },
    {
        proof {
            crate::varint::lemma_varint_len(0);
            crate::varint::lemma_varint_len(2);
        }
        match self {
            Packet::Connect(p) => p.encode(buffer),
            Packet::ConnAck(p) => p.encode(buffer),
            Packet::Publish(p) => p.encode(buffer),
            Packet::PubAck(p) => p.encode(buffer),
            Packet::PubRel(p) => p.encode(buffer),
            Packet::PubRec(p) => p.encode(buffer),
            Packet::PubComp(p) => p.encode(buffer),
            Packet::PingReq(p) => p.encode(buffer),
            Packet::PingResp(p) => p.encode(buffer),
            Packet::Subscribe(p) => p.encode(buffer),
            Packet::SubAck(p) => p.encode(buffer),
            Packet::UnSubscribe(p) => p.encode(buffer),
            Packet::UnSubAck(p) => p.encode(buffer),
            Packet::DisConnect(p) => p.encode(buffer),
        }
    }

    /// Reads the first packet in `stream`, of whichever type its first byte
    /// names.
    #[verifier::rlimit(100)]
    #[verifier::spinoff_prover]
    pub fn decode(stream: &[u8]) -> (r: Result<Packet, ProtoError>)
        ensures
            match parse_packet(stream@) {
                Ok(m) => r matches Ok(p) && p@ == m,
                Err(e) => r matches Err(x) && x == e,
            },
    {
        let (h, _, _) = decode_frame(stream)?;
        match h.message_type {
            MessageType::CONNECT => Ok(Packet::Connect(Connect::decode(stream)?)),
            MessageType::CONNACK => Ok(Packet::ConnAck(ConnAck::decode(stream)?)),
            MessageType::PUBLISH => Ok(Packet::Publish(Publish::decode(stream)?)),
            MessageType::PUBACK => Ok(Packet::PubAck(PubAck::decode(stream)?)),
            MessageType::PUBREL => Ok(Packet::PubRel(PubRel::decode(stream)?)),
            MessageType::PUBREC => Ok(Packet::PubRec(PubRec::decode(stream)?)),
            MessageType::PUBCOMP => Ok(Packet::PubComp(PubComp::decode(stream)?)),
            MessageType::PINGREQ => Ok(Packet::PingReq(PingReq::decode(stream)?)),
            MessageType::PINGRESP => Ok(Packet::PingResp(PingResp::decode(stream)?)),
            MessageType::SUBSCRIBE => Ok(Packet::Subscribe(Subscribe::decode(stream)?)),
            MessageType::SUBACK => Ok(Packet::SubAck(SubAck::decode(stream)?)),
            MessageType::UNSUBSCRIBE => Ok(Packet::UnSubscribe(UnSubscribe::decode(stream)?)),
            MessageType::UNSUBACK => Ok(Packet::UnSubAck(UnSubAck::decode(stream)?)),
            MessageType::DISCONNECT => Ok(Packet::DisConnect(DisConnect::decode(stream)?)),
        }
    }

    /// Reads the first packet in what `buffer` holds, so that what an
    /// encoder wrote can be read back.
    pub fn decode_buffer(buffer: &BytesMut) -> (r: Result<Packet, ProtoError>)
        ensures
            match parse_packet(buf_view(*buffer)) {
                Ok(m) => r matches Ok(p) && p@ == m,
                Err(e) => r matches Err(x) && x == e,
            },
    {
        Packet::decode(buffer_bytes(buffer))
    }
}

/// Writing a well-formed packet to an empty buffer and reading the buffer
/// back gives the packet, field for field.
pub proof fn lemma_buffer_round_trip(p: PacketView, before: Seq<u8>, after: Seq<u8>)
    requires
        packet_wf(p),
        before.len() == 0,
        after == before + packet_bytes(p),
    ensures
        parse_packet(after) == Ok::<PacketView, ProtoError>(p),
{
    lemma_packet_round_trip(p, Seq::empty());
    assert(after =~= packet_bytes(p) + Seq::<u8>::empty());
}

} // verus!
