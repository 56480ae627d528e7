//! The fixed header: the first byte (packet type and flags) followed by the
//! remaining length.
use bytes::BytesMut;
use vstd::prelude::*;

use crate::buffer::{buf_view, put_u8};
use crate::error::{BuildError, ProtoError};
use crate::varint::{
    decode_remaining_length, encode_remaining_len, lemma_varint_len, lemma_varint_round_trip,
    parse_varint, remaining_length_len, varint, varint_len, MAX_REMAINING_LENGTH,
};
use crate::{qos_code, qos_of_code, type_code, type_of_code, MessageType, QoS};

verus! {

/// The fixed header of a packet. `len` is the number of bytes the header
/// itself takes on the wire.
#[derive(Debug, Clone, Copy, PartialEq, Eq, Structural, Default)]
pub struct FixedHeader {
    pub message_type: MessageType,
    pub dup: Option<bool>,
    pub qos: Option<QoS>,
    pub retain: Option<bool>,
    pub remaining_length: usize,
    pub len: usize,
}

/// Whether the packet type is one whose flags are fixed at `0b0010`.
pub open spec fn has_fixed_0010(t: MessageType) -> bool {
    t == MessageType::PUBREL || t == MessageType::SUBSCRIBE || t == MessageType::UNSUBSCRIBE
}

/// Whether the requested flags can be written for this packet type without
/// dropping bits: PUBLISH needs a QoS; the types with fixed flags take no dup
/// or retain bit and no QoS other than the one their fixed bits spell.
pub open spec fn flags_ok(h: FixedHeader) -> bool {
    if h.message_type == MessageType::PUBLISH {
        h.qos is Some
    } else {
        h.dup != Some(true) && h.retain != Some(true) && (h.qos is None || h.qos == Some(
            if has_fixed_0010(h.message_type) {
                QoS::AtLeastOnce
            } else {
                QoS::AtMostOnce
            },
        ))
    }
}

/// The low nibble of the first byte.
pub open spec fn flags_of(h: FixedHeader) -> u8 {
    if h.message_type == MessageType::PUBLISH {
        ((if h.dup == Some(true) { 8u8 } else { 0u8 }) + 2 * qos_code(h.qos.unwrap()) + (if h.retain
            == Some(true) {
            1u8
        } else {
            0u8
        })) as u8
    } else if has_fixed_0010(h.message_type) {
        2
    } else {
        0
    }
}

/// The first byte of the header.
pub open spec fn first_byte(h: FixedHeader) -> u8 {
    (type_code(h.message_type) * 16 + flags_of(h)) as u8
}

/// The wire form of the header with remaining length `rl`.
pub open spec fn header_bytes(h: FixedHeader, rl: nat) -> Seq<u8> {
    seq![first_byte(h)] + varint(rl)
}

/// The header that a decoder gives for a packet type with fixed flags and an
/// empty body.
pub open spec fn plain_header(t: MessageType) -> FixedHeader {
    FixedHeader {
        message_type: t,
        dup: Some(false),
        qos: None,
        retain: Some(false),
        remaining_length: 0,
        len: 2,
    }
}

/// Whether the flag fields are the ones a decoder produces: all three set
/// for PUBLISH, and for the other types no QoS and both bits clear.
pub open spec fn canonical_flags(h: FixedHeader) -> bool {
    if h.message_type == MessageType::PUBLISH {
        h.dup is Some && h.qos is Some && h.retain is Some
    } else {
        h.dup == Some(false) && h.qos is None && h.retain == Some(false)
    }
}

/// `h` with its remaining length set to `rl` and its own length to match.
pub open spec fn with_length(h: FixedHeader, rl: nat) -> FixedHeader {
    FixedHeader { remaining_length: rl as usize, len: (1 + varint_len(rl)) as usize, ..h }
}

/// The packet type in the top nibble of the first byte; 0 and 15 are no type.
pub open spec fn parse_type(byte1: u8) -> Result<MessageType, ProtoError> {
    match type_of_code(byte1 / 16) {
        Some(t) => Ok(t),
        None => Err(ProtoError::MessageTypeError(BuildError::MessageTypeError((byte1 / 16) as usize))),
    }
}

/// The flag fields of a header of type `t` given its first byte, with a
/// remaining length of zero and the header length of 2 that goes with it.
pub open spec fn parse_options(byte1: u8, t: MessageType) -> Result<FixedHeader, ProtoError> {
    let low = byte1 % 16;
    if t == MessageType::PUBLISH {
        match qos_of_code((low / 2) % 4) {
            Ok(q) => Ok(
                FixedHeader {
                    message_type: t,
                    dup: Some(low / 8 == 1),
                    qos: Some(q),
                    retain: Some(low % 2 == 1),
                    remaining_length: 0,
                    len: 2,
                },
            ),
            Err(e) => Err(e),
        }
    } else if has_fixed_0010(t) {
        if low == 2 {
            Ok(plain_header(t))
        } else {
            Err(ProtoError::NotKnow)
        }
    } else {
        if low == 0 {
            Ok(plain_header(t))
        } else {
            Err(ProtoError::NotKnow)
        }
    }
}

/// Reads a fixed header from the front of `s`.
pub open spec fn fixed_header_of(s: Seq<u8>) -> Result<FixedHeader, ProtoError> {
    if s.len() < 1 {
        Err(ProtoError::NotKnow)
    } else {
        match parse_type(s[0]) {
            Ok(t) => match parse_options(s[0], t) {
                Ok(h) => match parse_varint(s.drop_first()) {
                    Ok((rl, c)) => Ok(FixedHeader { remaining_length: rl as usize, len: (1 + c) as usize, ..h }),
                    Err(e) => Err(e),
                },
                Err(e) => Err(e),
            },
            Err(e) => Err(e),
        }
    }
}

/// A header whose flags are the ones a decoder produces is read back from its
/// wire form, with its lengths set from the remaining length.
pub proof fn lemma_fixed_header_round_trip(h: FixedHeader, rl: nat, rest: Seq<u8>)
    requires
        canonical_flags(h),
        rl <= MAX_REMAINING_LENGTH,
    ensures
        flags_ok(h),
        fixed_header_of(header_bytes(h, rl) + rest) == Ok::<FixedHeader, ProtoError>(
            with_length(h, rl),
        ),
        header_bytes(h, rl).len() == 1 + varint_len(rl),
{
    let s = header_bytes(h, rl) + rest;
    lemma_varint_round_trip(rl, rest);
    lemma_varint_len(rl);
    assert(s.drop_first() =~= varint(rl) + rest);
    crate::lemma_type_code_round_trip(h.message_type);
    let b = first_byte(h);
    assert(b / 16 == type_code(h.message_type));
    assert(s[0] == b);
    assert(parse_type(b) == Ok::<MessageType, ProtoError>(h.message_type));
    assert(flags_of(h) < 16);
    assert(b == type_code(h.message_type) * 16 + flags_of(h));
    assert(b % 16 == flags_of(h));
    if h.message_type != MessageType::PUBLISH {
        assert(parse_options(b, h.message_type) == Ok::<FixedHeader, ProtoError>(plain_header(h.message_type)));
        assert(FixedHeader { remaining_length: rl as usize, len: (1 + varint_len(rl)) as usize, ..plain_header(h.message_type) } == with_length(h, rl));
    }
    if h.message_type == MessageType::PUBLISH {
        let low = b % 16;
        assert(low == flags_of(h));
        assert((low / 2) % 4 == qos_code(h.qos.unwrap()));
        assert(qos_of_code((low / 2) % 4) == Ok::<QoS, ProtoError>(h.qos.unwrap()));
        assert((low / 8 == 1) == (h.dup == Some(true)));
        assert((low % 2 == 1) == (h.retain == Some(true)));
        assert(h.dup == Some(low / 8 == 1));
        assert(h.retain == Some(low % 2 == 1));
        assert(h.qos == Some(h.qos.unwrap()));
        assert(parse_options(b, h.message_type) == Ok::<FixedHeader, ProtoError>(FixedHeader { remaining_length: 0, len: 2, ..h }));
    }
}

impl FixedHeader {
    pub fn new(
        message_type: MessageType,
        dup: Option<bool>,
        qos: Option<QoS>,
        retain: Option<bool>,
        remaining_length: usize,
        len: usize,
    ) -> (r: Self)
        ensures
            r == (FixedHeader { message_type, dup, qos, retain, remaining_length, len }),
    {
        Self { message_type, dup, qos, retain, remaining_length, len }
    }

    pub fn message_type(&self) -> (r: MessageType)
        ensures
            r == self.message_type,
    {
        self.message_type
    }

    pub fn dup(&self) -> (r: Option<bool>)
        ensures
            r == self.dup,
    {
        self.dup
    }

    pub fn qos(&self) -> (r: Option<QoS>)
        ensures
            r == self.qos,
    {
        self.qos
    }

    pub fn retain(&self) -> (r: Option<bool>)
        ensures
            r == self.retain,
    {
        self.retain
    }

    pub fn remaining_length(&self) -> (r: usize)
        ensures
            r == self.remaining_length,
    {
        self.remaining_length
    }

    pub fn set_remaining_length(&mut self, remaining_length: usize)
        ensures
            *final(self) == (FixedHeader { remaining_length, ..*old(self) }),
    {
        self.remaining_length = remaining_length;
    }

    /// The number of bytes the header itself takes.
    pub fn len(&self) -> (r: usize)
        ensures
            r == self.len,
    {
        self.len
    }

    pub fn set_len(&mut self, len: usize)
        ensures
            *final(self) == (FixedHeader { len, ..*old(self) }),
    {
        self.len = len;
    }

    /// The packet type named by a first header byte.
    pub fn check_with_u8(byte1: u8) -> (r: Result<MessageType, BuildError>)
        ensures
            match parse_type(byte1) {
                Ok(t) => r == Ok::<MessageType, BuildError>(t),
                Err(_) => r == Err::<MessageType, BuildError>(
                    BuildError::MessageTypeError((byte1 / 16) as usize),
                ),
            },
    {
        match check_fixed_header_type(&byte1) {
            Ok(t) => Ok(t),
            Err(_) => Err(BuildError::MessageTypeError((byte1 / 16) as usize)),
        }
    }

    /// The low nibble of the first byte for this header.
    fn flags(&self) -> (r: u8)
        requires
            flags_ok(*self),
        ensures
            r == flags_of(*self),
            r < 16,
    {
        match self.message_type {
            MessageType::PUBLISH => {
                let d: u8 = if self.dup == Some(true) { 8 } else { 0 };
                let q: u8 = match self.qos {
                    Some(q) => q.code(),
                    None => 0,
                };
                let r: u8 = if self.retain == Some(true) { 1 } else { 0 };
                d + 2 * q + r
            },
            MessageType::PUBREL | MessageType::SUBSCRIBE | MessageType::UNSUBSCRIBE => 2,
            _ => 0,
        }
    }

    /// Writes the header with its own remaining length. Flags that cannot be
    /// written for the packet type, and a remaining length out of range, are
    /// rejected with nothing written.
    pub fn encode(&self, buffer: &mut BytesMut) -> (r: Result<usize, ProtoError>)
        ensures
            self.remaining_length > MAX_REMAINING_LENGTH ==> r == Err::<usize, ProtoError>(
                ProtoError::OutOfMaxRemainingLength(self.remaining_length),
            ) && buf_view(*final(buffer)) == buf_view(*old(buffer)),
            self.remaining_length <= MAX_REMAINING_LENGTH && !flags_ok(*self) ==> r == Err::<
                usize,
                ProtoError,
            >(ProtoError::NotKnow) && buf_view(*final(buffer)) == buf_view(*old(buffer)),
            flags_ok(*self) && self.remaining_length <= MAX_REMAINING_LENGTH ==> r == Ok::<
                usize,
                ProtoError,
            >((1 + varint_len(self.remaining_length as nat)) as usize) && buf_view(*final(buffer))
                == buf_view(*old(buffer)) + header_bytes(*self, self.remaining_length as nat),
    {
        if self.remaining_length > MAX_REMAINING_LENGTH {
            return Err(ProtoError::OutOfMaxRemainingLength(self.remaining_length));
        }
        let ok = match self.message_type {
            MessageType::PUBLISH => self.qos.is_some(),
            MessageType::PUBREL | MessageType::SUBSCRIBE | MessageType::UNSUBSCRIBE => {
                self.dup != Some(true) && self.retain != Some(true) && (self.qos.is_none()
                    || self.qos == Some(QoS::AtLeastOnce))
            },
            _ => self.dup != Some(true) && self.retain != Some(true) && (self.qos.is_none()
                || self.qos == Some(QoS::AtMostOnce)),
        };
        if !ok {
            return Err(ProtoError::NotKnow);
        }
        let byte1: u8 = self.message_type.code() * 16 + self.flags();
        put_u8(buffer, byte1);
        let n = encode_remaining_len(self.remaining_length, buffer);
        proof {
            assert(buf_view(*buffer) =~= buf_view(*old(buffer)) + header_bytes(
                *self,
                self.remaining_length as nat,
            ));
            lemma_varint_len(self.remaining_length as nat);
        }
        match n {
            Ok(c) => Ok(1 + c),
            Err(e) => Err(e),
        }
    }
}

/// The packet type in the top nibble of a first header byte.
pub fn check_fixed_header_type(byte1: &u8) -> (r: Result<MessageType, ProtoError>)
    ensures
        r == parse_type(*byte1),
{
    match *byte1 / 16 {
        1 => Ok(MessageType::CONNECT),
        2 => Ok(MessageType::CONNACK),
        3 => Ok(MessageType::PUBLISH),
        4 => Ok(MessageType::PUBACK),
        5 => Ok(MessageType::PUBREC),
        6 => Ok(MessageType::PUBREL),
        7 => Ok(MessageType::PUBCOMP),
        8 => Ok(MessageType::SUBSCRIBE),
        9 => Ok(MessageType::SUBACK),
        10 => Ok(MessageType::UNSUBSCRIBE),
        11 => Ok(MessageType::UNSUBACK),
        12 => Ok(MessageType::PINGREQ),
        13 => Ok(MessageType::PINGRESP),
        14 => Ok(MessageType::DISCONNECT),
        n => Err(ProtoError::MessageTypeError(BuildError::MessageTypeError(n as usize))),
    }
}

/// The dup, QoS and retain fields of a header of type `message_type`, checked
/// against what that type allows; the remaining length is left at zero and
/// the header's own length is the 2 bytes that goes with it.
pub fn check_fixed_header_options(byte1: &u8, message_type: MessageType) -> (r: Result<
    FixedHeader,
    ProtoError,
>)
    ensures
        r == parse_options(*byte1, message_type),
        r matches Ok(h) ==> h.message_type == message_type && h.remaining_length == 0 && h.len == 2,
{
    let low: u8 = *byte1 % 16;
    match message_type {
        MessageType::PUBLISH => {
            let qos = QoS::try_from((low / 2) % 4)?;
            Ok(
                FixedHeader {
                    message_type,
                    dup: Some(low / 8 == 1),
                    qos: Some(qos),
                    retain: Some(low % 2 == 1),
                    remaining_length: 0,
                    len: 2,
                },
            )
        },
        MessageType::PUBREL | MessageType::SUBSCRIBE | MessageType::UNSUBSCRIBE => {
            if low == 2 {
                Ok(plain(message_type))
            } else {
                Err(ProtoError::NotKnow)
            }
        },
        _ => {
            if low == 0 {
                Ok(plain(message_type))
            } else {
                Err(ProtoError::NotKnow)
            }
        },
    }
}

fn plain(t: MessageType) -> (r: FixedHeader)
    ensures
        r == plain_header(t),
{
    FixedHeader {
        message_type: t,
        dup: Some(false),
        qos: None,
        retain: Some(false),
        remaining_length: 0,
        len: 2,
    }
}

/// Reads the remaining length that follows the first byte of `stream` and
/// sets it, and the header's own length, in `fixed_header`.
pub fn check_remain_length(stream: &[u8], fixed_header: FixedHeader) -> (r: Result<
    FixedHeader,
    ProtoError,
>)
    requires
        stream@.len() >= 1,
    ensures
        match parse_varint(stream@.drop_first()) {
            Ok((rl, c)) => r == Ok::<FixedHeader, ProtoError>(
                FixedHeader { remaining_length: rl as usize, len: (1 + c) as usize, ..fixed_header },
            ),
            Err(e) => r == Err::<FixedHeader, ProtoError>(e),
        },
{
    assert(stream@.subrange(1, stream@.len() as int) =~= stream@.drop_first());
    let (rl, end) = decode_remaining_length(stream, 1)?;
    let mut h = fixed_header;
    h.set_remaining_length(rl);
    h.set_len(end);
    Ok(h)
}

/// Reads a fixed header from the front of `stream`.
pub fn parse_fixed_header(stream: &[u8]) -> (r: Result<FixedHeader, ProtoError>)
    ensures
        r == fixed_header_of(stream@),
        r matches Ok(h) ==> h.remaining_length <= MAX_REMAINING_LENGTH && 2 <= h.len <= 5 && h.len
            <= stream@.len(),
{
    if stream.len() < 1 {
        return Err(ProtoError::NotKnow);
    }
    let byte1 = stream[0];
    let message_type = check_fixed_header_type(&byte1)?;
    let fixed_header = check_fixed_header_options(&byte1, message_type)?;
    let r = check_remain_length(stream, fixed_header);
    proof {
        if let Ok((rl, c)) = parse_varint(stream@.drop_first()) {
            crate::varint::lemma_parse_varint_len(stream@.drop_first());
        }
    }
    r
}

/// A builder for fixed headers.
pub struct FixedHeaderBuilder {
    pub message_type: MessageType,
    pub dup: Option<bool>,
    pub qos: Option<QoS>,
    pub retain: Option<bool>,
    pub remaining_length: usize,
}

impl FixedHeaderBuilder {
    /// A CONNECT header with both bits clear, no QoS and no remaining length.
    pub fn new() -> (r: Self)
        ensures
            r.message_type == MessageType::CONNECT,
            r.dup == Some(false),
            r.qos is None,
            r.retain == Some(false),
            r.remaining_length == 0,
    {
        Self {
            message_type: MessageType::CONNECT,
            dup: Some(false),
            qos: None,
            retain: Some(false),
            remaining_length: 0,
        }
    }

    /// A header of the given type with no flag fields set.
    pub fn from_message_type(message_type: MessageType) -> (r: Self)
        ensures
            r.message_type == message_type,
            r.dup is None,
            r.qos is None,
            r.retain is None,
            r.remaining_length == 0,
    {
        Self { message_type, dup: None, qos: None, retain: None, remaining_length: 0 }
    }

    fn with_type(self, message_type: MessageType) -> (r: Self)
        ensures
            r == (FixedHeaderBuilder { message_type, ..self }),
    {
        let mut b = self;
        b.message_type = message_type;
        b
    }

    pub fn connect(self) -> (r: Self)
        ensures
            r == (FixedHeaderBuilder { message_type: MessageType::CONNECT, ..self }),
    {
        self.with_type(MessageType::CONNECT)
    }

    /// A CONNACK header, whose remaining length is always 2.
    pub fn conn_ack(self) -> (r: Self)
        ensures
            r == (FixedHeaderBuilder {
                message_type: MessageType::CONNACK,
                remaining_length: 2,
                ..self
            }),
    {
        let mut b = self.with_type(MessageType::CONNACK);
        b.remaining_length = 2;
        b
    }

    pub fn dis_connect(self) -> (r: Self)
        ensures
            r == (FixedHeaderBuilder { message_type: MessageType::DISCONNECT, ..self }),
    {
        self.with_type(MessageType::DISCONNECT)
    }

    pub fn ping_req(self) -> (r: Self)
        ensures
            r == (FixedHeaderBuilder { message_type: MessageType::PINGREQ, ..self }),
    {
        self.with_type(MessageType::PINGREQ)
    }

    pub fn ping_resp(self) -> (r: Self)
        ensures
            r == (FixedHeaderBuilder { message_type: MessageType::PINGRESP, ..self }),
    {
        self.with_type(MessageType::PINGRESP)
    }

    pub fn publish(self) -> (r: Self)
        ensures
            r == (FixedHeaderBuilder { message_type: MessageType::PUBLISH, ..self }),
    {
        self.with_type(MessageType::PUBLISH)
    }

    pub fn pub_ack(self) -> (r: Self)
        ensures
            r == (FixedHeaderBuilder { message_type: MessageType::PUBACK, ..self }),
    {
        self.with_type(MessageType::PUBACK)
    }

    pub fn pub_rec(self) -> (r: Self)
        ensures
            r == (FixedHeaderBuilder { message_type: MessageType::PUBREC, ..self }),
    {
        self.with_type(MessageType::PUBREC)
    }

    pub fn pub_rel(self) -> (r: Self)
        ensures
            r == (FixedHeaderBuilder { message_type: MessageType::PUBREL, ..self }),
    {
        self.with_type(MessageType::PUBREL)
    }

    pub fn pub_comp(self) -> (r: Self)
        ensures
            r == (FixedHeaderBuilder { message_type: MessageType::PUBCOMP, ..self }),
    {
        self.with_type(MessageType::PUBCOMP)
    }

    pub fn subscribe(self) -> (r: Self)
        ensures
            r == (FixedHeaderBuilder { message_type: MessageType::SUBSCRIBE, ..self }),
    {
        self.with_type(MessageType::SUBSCRIBE)
    }

    pub fn sub_ack(self) -> (r: Self)
        ensures
            r == (FixedHeaderBuilder { message_type: MessageType::SUBACK, ..self }),
    {
        self.with_type(MessageType::SUBACK)
    }

    pub fn un_subscribe(self) -> (r: Self)
        ensures
            r == (FixedHeaderBuilder { message_type: MessageType::UNSUBSCRIBE, ..self }),
    {
        self.with_type(MessageType::UNSUBSCRIBE)
    }

    pub fn un_suback(self) -> (r: Self)
        ensures
            r == (FixedHeaderBuilder { message_type: MessageType::UNSUBACK, ..self }),
    {
        self.with_type(MessageType::UNSUBACK)
    }

    pub fn dup(self, dup: Option<bool>) -> (r: Self)
        ensures
            r == (FixedHeaderBuilder { dup, ..self }),
    {
        let mut b = self;
        b.dup = dup;
        b
    }

    pub fn qos(self, qos: Option<QoS>) -> (r: Self)
        ensures
            r == (FixedHeaderBuilder { qos, ..self }),
    {
        let mut b = self;
        b.qos = qos;
        b
    }

    pub fn retain(self, retain: Option<bool>) -> (r: Self)
        ensures
            r == (FixedHeaderBuilder { retain, ..self }),
    {
        let mut b = self;
        b.retain = retain;
        b
    }

    pub fn remaining_length(self, remaining_length: usize) -> (r: Self)
        ensures
            r == (FixedHeaderBuilder { remaining_length, ..self }),
    {
        let mut b = self;
        b.remaining_length = remaining_length;
        b
    }

    /// The header with these fields, its own length computed from the
    /// remaining length; a remaining length out of range is rejected.
    pub fn build(self) -> (r: Result<FixedHeader, ProtoError>)
        ensures
            self.remaining_length > MAX_REMAINING_LENGTH ==> r == Err::<FixedHeader, ProtoError>(
                ProtoError::OutOfMaxRemainingLength(self.remaining_length),
            ),
            self.remaining_length <= MAX_REMAINING_LENGTH ==> r == Ok::<FixedHeader, ProtoError>(
                FixedHeader {
                    message_type: self.message_type,
                    dup: self.dup,
                    qos: self.qos,
                    retain: self.retain,
                    remaining_length: self.remaining_length,
                    len: (1 + varint_len(self.remaining_length as nat)) as usize,
                },
            ),
    {
        let size = remaining_length_len(self.remaining_length)?;
        Ok(
            FixedHeader {
                message_type: self.message_type,
                dup: self.dup,
                qos: self.qos,
                retain: self.retain,
                remaining_length: self.remaining_length,
                len: size + 1,
            },
        )
    }
}

/// `h` with remaining length `rl` and, where `rl` is in range, its own
/// length to match.
pub fn with_lengths(h: FixedHeader, rl: usize) -> (r: FixedHeader)
    ensures
        rl <= MAX_REMAINING_LENGTH ==> r == with_length(h, rl as nat),
        r.remaining_length == rl,
        r.message_type == h.message_type,
{
    let len = match remaining_length_len(rl) {
        Ok(n) => n + 1,
        Err(_) => h.len,
    };
    FixedHeader { remaining_length: rl, len, ..h }
}

} // verus!
