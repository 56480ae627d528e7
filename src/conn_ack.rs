//! CONNACK: the session-present bit and the connect return code.
use bytes::BytesMut;
use vstd::prelude::*;

use crate::buffer::buf_view;
use crate::error::ProtoError;
use crate::fixed_header::{plain_header, with_length, FixedHeader};
use crate::frame::{decode_frame, encode_frame, frame_bytes, lemma_frame_round_trip, parse_frame};
use crate::MessageType;

verus! {

/// The connect return codes.
#[derive(Debug, Clone, Copy, PartialEq, Eq, Structural)]
pub enum ConnAckType {
    Success,
    ProtoVersionError,
    IdentifierRejected,
    ServiceUnavailable,
    BadUsernameOrPassword,
    NotAuthentication,
}

/// The wire value of a return code.
pub open spec fn ack_code(t: ConnAckType) -> u8 {
    match t {
        ConnAckType::Success => 0,
        ConnAckType::ProtoVersionError => 1,
        ConnAckType::IdentifierRejected => 2,
        ConnAckType::ServiceUnavailable => 3,
        ConnAckType::BadUsernameOrPassword => 4,
        ConnAckType::NotAuthentication => 5,
    }
}

/// The return code with wire value `n`, if any.
pub open spec fn ack_type_of(n: u8) -> Option<ConnAckType> {
    if n == 0 {
        Some(ConnAckType::Success)
    } else if n == 1 {
        Some(ConnAckType::ProtoVersionError)
    } else if n == 2 {
        Some(ConnAckType::IdentifierRejected)
    } else if n == 3 {
        Some(ConnAckType::ServiceUnavailable)
    } else if n == 4 {
        Some(ConnAckType::BadUsernameOrPassword)
    } else if n == 5 {
        Some(ConnAckType::NotAuthentication)
    } else {
        None
    }
}

/// The variable header of a CONNACK.
#[derive(Debug, Clone, Copy, PartialEq, Eq, Structural)]
pub struct ConnAckVariableHeader {
    pub session_present: bool,
    pub conn_ack_type: ConnAckType,
}

/// A CONNACK packet.
#[derive(Debug, Clone, Copy, PartialEq, Eq, Structural)]
pub struct ConnAck {
    pub fixed_header: FixedHeader,
    pub variable_header: ConnAckVariableHeader,
}

/// The two bytes of a CONNACK variable header.
pub open spec fn conn_ack_body(v: ConnAckVariableHeader) -> Seq<u8> {
    seq![if v.session_present { 1u8 } else { 0u8 }, ack_code(v.conn_ack_type)]
}

/// The wire form of a CONNACK.
pub open spec fn conn_ack_bytes(v: ConnAckVariableHeader) -> Seq<u8> {
    frame_bytes(plain_header(MessageType::CONNACK), conn_ack_body(v))
}

/// Reads a CONNACK from the front of `s`: the body must be two bytes, the
/// first 0 or 1 and the second a known return code.
pub open spec fn parse_conn_ack(s: Seq<u8>) -> Result<ConnAck, ProtoError> {
    match parse_frame(s) {
        Ok((h, body)) => if h.message_type != MessageType::CONNACK || body.len() != 2 || body[0] > 1 {
            Err(ProtoError::NotKnow)
        } else {
            match ack_type_of(body[1]) {
                Some(t) => Ok(
                    ConnAck {
                        fixed_header: h,
                        variable_header: ConnAckVariableHeader {
                            session_present: body[0] == 1,
                            conn_ack_type: t,
                        },
                    },
                ),
                None => Err(ProtoError::NotKnow),
            }
        },
        Err(e) => Err(e),
    }
}

/// A CONNACK with its usual header is read back from its wire form.
pub proof fn lemma_conn_ack_round_trip(v: ConnAckVariableHeader, rest: Seq<u8>)
    ensures
        parse_conn_ack(conn_ack_bytes(v) + rest) == Ok::<ConnAck, ProtoError>(
            ConnAck {
                fixed_header: with_length(plain_header(MessageType::CONNACK), 2),
                variable_header: v,
            },
        ),
{
    let body = conn_ack_body(v);
    lemma_frame_round_trip(plain_header(MessageType::CONNACK), body, rest);
    lemma_ack_code_round_trip(v.conn_ack_type);
    let h = with_length(plain_header(MessageType::CONNACK), 2);
    assert(parse_frame(conn_ack_bytes(v) + rest) == Ok::<(FixedHeader, Seq<u8>), ProtoError>((h, body)));
    assert(body.len() == 2);
    assert(body[0] <= 1 && (body[0] == 1) == v.session_present);
    assert(ack_type_of(body[1]) == Some(v.conn_ack_type));
}

proof fn lemma_ack_code_round_trip(t: ConnAckType)
    ensures
        ack_type_of(ack_code(t)) == Some(t),
{
}

impl ConnAckVariableHeader {
    /// A variable header with no session present.
    pub fn new(conn_ack_type: ConnAckType) -> (r: Self)
        ensures
            r == (ConnAckVariableHeader { session_present: false, conn_ack_type }),
    {
        Self { session_present: false, conn_ack_type }
    }

    /// Appends the two bytes of the variable header.
    pub fn encode(&self, buffer: &mut Vec<u8>) -> (r: Result<usize, ProtoError>)
        ensures
            r == Ok::<usize, ProtoError>(2),
            final(buffer)@ == old(buffer)@ + conn_ack_body(*self),
    {
        let code: u8 = match self.conn_ack_type {
            ConnAckType::Success => 0,
            ConnAckType::ProtoVersionError => 1,
            ConnAckType::IdentifierRejected => 2,
            ConnAckType::ServiceUnavailable => 3,
            ConnAckType::BadUsernameOrPassword => 4,
            ConnAckType::NotAuthentication => 5,
        };
        buffer.push(if self.session_present { 1 } else { 0 });
        buffer.push(code);
        assert(buffer@ =~= old(buffer)@ + conn_ack_body(*self));
        Ok(2)
    }
}

impl ConnAck {
    /// A CONNACK with the given return code, no session present, and its
    /// usual header.
    pub fn new(conn_ack_type: ConnAckType) -> (r: Result<ConnAck, ProtoError>)
        ensures
            r == Ok::<ConnAck, ProtoError>(
                ConnAck {
                    fixed_header: with_length(plain_header(MessageType::CONNACK), 2),
                    variable_header: ConnAckVariableHeader { session_present: false, conn_ack_type },
                },
            ),
    {
        proof {
            crate::varint::lemma_varint_len(2);
        }
        Ok(
            Self {
                fixed_header: FixedHeader {
                    message_type: MessageType::CONNACK,
                    dup: Some(false),
                    qos: None,
                    retain: Some(false),
                    remaining_length: 2,
                    len: 2,
                },
                variable_header: ConnAckVariableHeader::new(conn_ack_type),
            },
        )
    }

    /// Writes the packet: four bytes.
    pub fn encode(&self, buffer: &mut BytesMut) -> (r: Result<usize, ProtoError>)
        ensures
            r == Ok::<usize, ProtoError>(4),
            buf_view(*final(buffer)) == buf_view(*old(buffer)) + conn_ack_bytes(self.variable_header),
    {
        let mut body: Vec<u8> = Vec::new();
        let _ = self.variable_header.encode(&mut body);
        let header = FixedHeader {
            message_type: MessageType::CONNACK,
            dup: Some(false),
            qos: None,
            retain: Some(false),
            remaining_length: 2,
            len: 2,
        };
        proof {
            lemma_frame_round_trip(plain_header(MessageType::CONNACK), body@, Seq::empty());
            assert(body@ =~= conn_ack_body(self.variable_header));
            assert(crate::fixed_header::header_bytes(header, 2) == crate::fixed_header::header_bytes(
                plain_header(MessageType::CONNACK),
                2,
            ));
            assert(crate::varint::varint(2) =~= seq![2u8]);
        }
        encode_frame(&header, body.as_slice(), buffer)
    }

    /// Reads the CONNACK at the front of `stream`.
    pub fn decode(stream: &[u8]) -> (r: Result<Self, ProtoError>)
        ensures
            r == parse_conn_ack(stream@),
    {
        let (h, start, end) = decode_frame(stream)?;
        if h.message_type != MessageType::CONNACK || end - start != 2 || stream[start] > 1 {
            return Err(ProtoError::NotKnow);
        }
        let conn_ack_type = match stream[start + 1] {
            0 => ConnAckType::Success,
            1 => ConnAckType::ProtoVersionError,
            2 => ConnAckType::IdentifierRejected,
            3 => ConnAckType::ServiceUnavailable,
            4 => ConnAckType::BadUsernameOrPassword,
            5 => ConnAckType::NotAuthentication,
            _ => return Err(ProtoError::NotKnow),
        };
        Ok(
            ConnAck {
                fixed_header: h,
                variable_header: ConnAckVariableHeader {
                    session_present: stream[start] == 1,
                    conn_ack_type,
                },
            },
        )
    }
}

} // verus!
