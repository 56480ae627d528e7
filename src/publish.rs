//! PUBLISH: a topic, a packet identifier when the QoS is above 0, and an
//! opaque payload that fills the rest of the packet.
use bytes::BytesMut;
use vstd::prelude::*;
use vstd::utf8::encode_utf8;

use crate::buffer::buf_view;
use crate::coder::{
    be16, copy_bytes, fits_string, lemma_string_round_trip, lemma_u16_round_trip, mqtt_string,
    parse_mqtt_string, parse_u16, read_mqtt_string, read_u16, tail, write_mqtt_bytes, write_u16,
    lemma_parsed_string,
    append_bytes,
};
use crate::error::ProtoError;
use crate::fixed_header::{canonical_flags, with_length, FixedHeader};
use crate::frame::{
    decode_frame, encode_frame, frame_bytes, frame_error, frame_ok, lemma_frame_round_trip,
    parse_frame,
};
use crate::{MessageType, QoS};

verus! {

/// Whether a header's QoS calls for a packet identifier.
pub open spec fn needs_id(qos: Option<QoS>) -> bool {
    qos is Some && qos != Some(QoS::AtMostOnce)
}

/// The length of a PUBLISH variable header: the length-prefixed topic, and
/// the two-byte identifier when the QoS is above 0.
pub open spec fn variable_len_of(topic: Seq<char>, qos: Option<QoS>) -> nat {
    encode_utf8(topic).len() + if needs_id(qos) {
        4nat
    } else {
        2nat
    }
}

/// The variable header of a PUBLISH.
#[derive(Debug, Clone, PartialEq, Eq)]
pub struct PublishVariableHeader {
    pub variable_header_len: usize,
    pub topic: String,
    pub message_id: Option<usize>,
}

/// A PUBLISH packet.
#[derive(Debug, Clone, PartialEq, Eq)]
pub struct Publish {
    pub fixed_header: FixedHeader,
    pub variable_header: PublishVariableHeader,
    pub payload: Vec<u8>,
}

/// The value of a PUBLISH that the contracts speak of.
pub struct PublishView {
    pub fixed_header: FixedHeader,
    pub variable_header_len: usize,
    pub topic: Seq<char>,
    pub message_id: Option<usize>,
    pub payload: Seq<u8>,
}

impl View for Publish {
    type V = PublishView;

    open spec fn view(&self) -> PublishView {
        PublishView {
            fixed_header: self.fixed_header,
            variable_header_len: self.variable_header.variable_header_len,
            topic: self.variable_header.topic@,
            message_id: self.variable_header.message_id,
            payload: self.payload@,
        }
    }
}

/// The header a PUBLISH is written with: its own flags, the PUBLISH type.
pub open spec fn publish_header(m: PublishView) -> FixedHeader {
    FixedHeader { message_type: MessageType::PUBLISH, ..m.fixed_header }
}

/// The body of a PUBLISH: topic, identifier if the QoS calls for one, payload.
pub open spec fn publish_body(m: PublishView) -> Seq<u8> {
    mqtt_string(m.topic) + (if needs_id(m.fixed_header.qos) {
        be16(m.message_id.unwrap() as u16)
    } else {
        Seq::empty()
    }) + m.payload
}

/// The wire form of a PUBLISH.
pub open spec fn publish_bytes(m: PublishView) -> Seq<u8> {
    frame_bytes(publish_header(m), publish_body(m))
}

/// Why a PUBLISH cannot be written, if it cannot: no QoS in the header; a
/// topic too long for its length prefix, or a missing or too large
/// identifier where the QoS calls for one; a packet too long.
pub open spec fn publish_encode_error(m: PublishView) -> Option<ProtoError> {
    if m.fixed_header.qos is None {
        Some(ProtoError::NotKnow)
    } else if !fits_string(m.topic) || (needs_id(m.fixed_header.qos) && (m.message_id is None
        || m.message_id.unwrap() > 65535)) {
        Some(ProtoError::EncodeVariableHeaderError)
    } else if !frame_ok(publish_header(m), publish_body(m)) {
        Some(frame_error(publish_header(m), publish_body(m)))
    } else {
        None
    }
}

/// Reads the body of a PUBLISH whose header is `h`.
pub open spec fn parse_publish_body(h: FixedHeader, body: Seq<u8>) -> Result<PublishView, ProtoError> {
    match parse_mqtt_string(body) {
        Ok((topic, r1)) => if needs_id(h.qos) {
            match parse_u16(r1) {
                Ok((id, r2)) => Ok(
                    PublishView {
                        fixed_header: h,
                        variable_header_len: variable_len_of(topic, h.qos) as usize,
                        topic,
                        message_id: Some(id as usize),
                        payload: r2,
                    },
                ),
                Err(e) => Err(e),
            }
        } else {
            Ok(
                PublishView {
                    fixed_header: h,
                    variable_header_len: variable_len_of(topic, h.qos) as usize,
                    topic,
                    message_id: None,
                    payload: r1,
                },
            )
        },
        Err(e) => Err(e),
    }
}

/// Reads a PUBLISH from the front of `s`; another packet type is an error.
pub open spec fn parse_publish(s: Seq<u8>) -> Result<PublishView, ProtoError> {
    match parse_frame(s) {
        Ok((h, body)) => if h.message_type != MessageType::PUBLISH {
            Err(ProtoError::NotKnow)
        } else {
            parse_publish_body(h, body)
        },
        Err(e) => Err(e),
    }
}

/// Whether a PUBLISH is one that decoding gives back: a PUBLISH header with
/// all flag fields set and lengths that match the body, an identifier exactly
/// when the QoS calls for one, and a variable header length that matches.
pub open spec fn publish_wf(m: PublishView) -> bool {
    &&& m.fixed_header.message_type == MessageType::PUBLISH
    &&& canonical_flags(m.fixed_header)
    &&& publish_encode_error(m) is None
    &&& m.fixed_header == with_length(m.fixed_header, publish_body(m).len())
    &&& (m.message_id is Some <==> needs_id(m.fixed_header.qos))
    &&& m.variable_header_len == variable_len_of(m.topic, m.fixed_header.qos)
}

/// A well-formed PUBLISH is read back from its wire form, whatever follows.
pub proof fn lemma_publish_round_trip(m: PublishView, rest: Seq<u8>)
    requires
        publish_wf(m),
    ensures
        parse_publish(publish_bytes(m) + rest) == Ok::<PublishView, ProtoError>(m),
{
    let body = publish_body(m);
    lemma_frame_round_trip(publish_header(m), body, rest);
    let idb = if needs_id(m.fixed_header.qos) {
        be16(m.message_id.unwrap() as u16)
    } else {
        Seq::empty()
    };
    assert(body =~= mqtt_string(m.topic) + (idb + m.payload));
    lemma_string_round_trip(m.topic, idb + m.payload);
    if needs_id(m.fixed_header.qos) {
        lemma_u16_round_trip(m.message_id.unwrap() as u16, m.payload);
    } else {
        assert(idb + m.payload =~= m.payload);
    }
}

/// The identifier field of a PUBLISH is there exactly when the QoS is above
/// 0, and the variable header is two bytes longer with it.
pub proof fn lemma_publish_identifier_presence(m: PublishView)
    requires
        m.fixed_header.qos is Some,
    ensures
        m.fixed_header.qos == Some(QoS::AtMostOnce) ==> publish_body(m) == mqtt_string(m.topic)
            + m.payload && variable_len_of(m.topic, m.fixed_header.qos) == encode_utf8(m.topic).len()
            + 2,
        m.fixed_header.qos == Some(QoS::AtLeastOnce) ==> publish_body(m) == mqtt_string(m.topic)
            + be16(m.message_id.unwrap() as u16) + m.payload && variable_len_of(
            m.topic,
            m.fixed_header.qos,
        ) == encode_utf8(m.topic).len() + 4,
{
    if m.fixed_header.qos == Some(QoS::AtMostOnce) {
        assert(mqtt_string(m.topic) + Seq::<u8>::empty() =~= mqtt_string(m.topic));
    }
}

impl PublishVariableHeader {
    /// A variable header whose length is computed from the topic and QoS.
    pub fn new(topic: String, message_id: Option<usize>, qos: Option<QoS>) -> (r: Self)
        requires
            encode_utf8(topic@).len() + 4 <= usize::MAX,
        ensures
            r.topic@ == topic@,
            r.message_id == message_id,
            r.variable_header_len == variable_len_of(topic@, qos),
    {
        let len = Self::variable_len(topic.as_str(), qos);
        Self { variable_header_len: len, topic, message_id }
    }

    /// The length of the variable header for this topic and QoS: the topic
    /// with its two-byte prefix, and two more bytes of identifier when the QoS
    /// is above 0.
    pub fn variable_len(topic: &str, qos: Option<QoS>) -> (r: usize)
        requires
            encode_utf8(topic@).len() + 4 <= usize::MAX,
        ensures
            r == variable_len_of(topic@, qos),
            qos == Some(QoS::AtMostOnce) || qos is None ==> r == encode_utf8(topic@).len() + 2,
            qos == Some(QoS::AtLeastOnce) || qos == Some(QoS::ExactlyOnce) ==> r == encode_utf8(topic@).len() + 4,
    {
        match qos {
            Some(QoS::AtMostOnce) | None => topic.len() + 2,
            Some(_) => topic.len() + 4,
        }
    }

    pub fn variable_header_len(&self) -> (r: usize)
        ensures
            r == self.variable_header_len,
    {
        self.variable_header_len
    }

    pub fn topic(&self) -> (r: String)
        ensures
            r@ == self.topic@,
    {
        self.topic.clone()
    }

    pub fn message_id(&self) -> (r: Option<usize>)
        ensures
            r == self.message_id,
    {
        self.message_id
    }

    pub fn update_message_id(self, message_id: usize) -> (r: Self)
        ensures
            r.topic@ == self.topic@,
            r.variable_header_len == self.variable_header_len,
            r.message_id == Some(message_id),
    {
        let mut v = self;
        v.message_id = Some(message_id);
        v
    }

    fn copy(&self) -> (r: Self)
        ensures
            r.topic@ == self.topic@,
            r.variable_header_len == self.variable_header_len,
            r.message_id == self.message_id,
    {
        Self {
            variable_header_len: self.variable_header_len,
            topic: self.topic.clone(),
            message_id: self.message_id,
        }
    }
}

impl Publish {
    pub fn new(fixed_header: FixedHeader, variable_header: PublishVariableHeader, payload: Vec<u8>) -> (r: Self)
        ensures
            r.fixed_header == fixed_header,
            r.variable_header == variable_header,
            r.payload == payload,
    {
        Self { fixed_header, variable_header, payload }
    }

    pub fn fixed_header(&self) -> (r: FixedHeader)
        ensures
            r == self.fixed_header,
    {
        self.fixed_header
    }

    pub fn variable_header(&self) -> (r: PublishVariableHeader)
        ensures
            r.topic@ == self.variable_header.topic@,
            r.variable_header_len == self.variable_header.variable_header_len,
            r.message_id == self.variable_header.message_id,
    {
        self.variable_header.copy()
    }

    pub fn payload(&self) -> (r: Vec<u8>)
        ensures
            r@ == self.payload@,
    {
        copy_bytes(&self.payload)
    }

    /// The same packet with the given packet identifier.
    pub fn update(self, message_id: usize) -> (r: Self)
        ensures
            r@ == (PublishView { message_id: Some(message_id), ..self@ }),
    {
        let Publish { fixed_header, variable_header, payload } = self;
        Self { fixed_header, variable_header: variable_header.update_message_id(message_id), payload }
    }

    /// Writes the packet, its remaining length computed from its body. A
    /// packet that cannot be written leaves `buffer` as it was.
    pub fn encode(&self, buffer: &mut BytesMut) -> (r: Result<usize, ProtoError>)
        ensures
            match publish_encode_error(self@) {
                Some(e) => r == Err::<usize, ProtoError>(e) && buf_view(*final(buffer)) == buf_view(
                    *old(buffer),
                ),
                None => r == Ok::<usize, ProtoError>(publish_bytes(self@).len() as usize) && buf_view(
                    *final(buffer),
                ) == buf_view(*old(buffer)) + publish_bytes(self@),
            },
    {
        let qos = match self.fixed_header.qos {
            Some(q) => q,
            None => return Err(ProtoError::NotKnow),
        };
        let topic = self.variable_header.topic.as_str().as_bytes();
        if topic.len() > 65535 {
            return Err(ProtoError::EncodeVariableHeaderError);
        }
        let with_id = qos != QoS::AtMostOnce;
        let mut body: Vec<u8> = Vec::new();
        write_mqtt_bytes(&mut body, topic);
        if with_id {
            match self.variable_header.message_id {
                Some(id) => {
                    if id > 65535 {
                        return Err(ProtoError::EncodeVariableHeaderError);
                    }
                    write_u16(&mut body, id as u16);
                },
                None => return Err(ProtoError::EncodeVariableHeaderError),
            }
        }
        append_bytes(&mut body, self.payload.as_slice());
        let header = FixedHeader { message_type: MessageType::PUBLISH, ..self.fixed_header };
        proof {
            assert(body@ =~= publish_body(self@));
        }
        encode_frame(&header, body.as_slice(), buffer)
    }

    /// Reads the PUBLISH at the front of `stream`.
    pub fn decode(stream: &[u8]) -> (r: Result<Self, ProtoError>)
        ensures
            match parse_publish(stream@) {
                Ok(m) => r matches Ok(p) && p@ == m,
                Err(e) => r matches Err(x) && x == e,
            },
    {
        let (h, start, end) = decode_frame(stream)?;
        if h.message_type != MessageType::PUBLISH {
            return Err(ProtoError::NotKnow);
        }
        let body = vstd::slice::slice_subrange(stream, start, end);
        proof {
            assert(tail(body@, 0) =~= body@);
        }
        let (topic, p1) = read_mqtt_string(body, 0)?;
        let with_id = match h.qos {
            Some(QoS::AtMostOnce) | None => false,
            Some(_) => true,
        };
        let (message_id, p2) = if with_id {
            let (id, p2) = read_u16(body, p1)?;
            (Some(id as usize), p2)
        } else {
            (None, p1)
        };
        let payload = vstd::slice::slice_to_vec(vstd::slice::slice_subrange(body, p2, body.len()));
        proof {
            lemma_parsed_string(body@);
        }
        let variable_header = PublishVariableHeader::new(topic, message_id, h.qos);
        Ok(Publish { fixed_header: h, variable_header, payload })
    }
}

} // verus!
