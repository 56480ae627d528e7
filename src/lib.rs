//! A codec for MQTT packets (versions 3.1.1 and 5.0): typed packet values
//! become wire bytes and wire bytes become typed packet values.
use vstd::prelude::*;

pub mod ack;
pub mod buffer;
pub mod builder;
pub mod conn_ack;
pub mod connect;
pub mod coder;
pub mod error;
pub mod fixed_header;
pub mod frame;
pub mod packet;
pub mod ping;
pub mod subscribe;
pub mod publish;
pub mod topic;
pub mod v5;
pub mod v5_connect;
pub mod varint;

use crate::error::ProtoError;

verus! {

/// The protocol name carried by every CONNECT packet.
pub const PROTOCOL_NAME: &'static str = "MQTT";

/// The protocol versions this codec understands.
#[derive(Debug, Clone, Copy, PartialEq, Eq, Structural)]
pub enum MqttVersion {
    V4,
    V5,
}

/// The fourteen MQTT control packet types.
#[derive(Debug, Clone, Copy, PartialEq, Eq, Structural, Default)]
pub enum MessageType {
    #[default]
    CONNECT,
    CONNACK,
    PUBLISH,
    PUBACK,
    PUBREL,
    PUBREC,
    PUBCOMP,
    PINGREQ,
    PINGRESP,
    SUBSCRIBE,
    SUBACK,
    UNSUBSCRIBE,
    UNSUBACK,
    DISCONNECT,
}

/// Delivery guarantee of a message.
#[derive(Debug, Clone, Copy, PartialEq, Eq, Structural, Default)]
pub enum QoS {
    #[default]
    AtMostOnce,
    AtLeastOnce,
    ExactlyOnce,
}

/// The value of the packet type in the top nibble of the first header byte.
pub open spec fn type_code(t: MessageType) -> u8 {
    match t {
        MessageType::CONNECT => 1,
        MessageType::CONNACK => 2,
        MessageType::PUBLISH => 3,
        MessageType::PUBACK => 4,
        MessageType::PUBREC => 5,
        MessageType::PUBREL => 6,
        MessageType::PUBCOMP => 7,
        MessageType::SUBSCRIBE => 8,
        MessageType::SUBACK => 9,
        MessageType::UNSUBSCRIBE => 10,
        MessageType::UNSUBACK => 11,
        MessageType::PINGREQ => 12,
        MessageType::PINGRESP => 13,
        MessageType::DISCONNECT => 14,
    }
}

/// The packet type whose code is `n`, if any.
pub open spec fn type_of_code(n: u8) -> Option<MessageType> {
    if n == 1 {
        Some(MessageType::CONNECT)
    } else if n == 2 {
        Some(MessageType::CONNACK)
    } else if n == 3 {
        Some(MessageType::PUBLISH)
    } else if n == 4 {
        Some(MessageType::PUBACK)
    } else if n == 5 {
        Some(MessageType::PUBREC)
    } else if n == 6 {
        Some(MessageType::PUBREL)
    } else if n == 7 {
        Some(MessageType::PUBCOMP)
    } else if n == 8 {
        Some(MessageType::SUBSCRIBE)
    } else if n == 9 {
        Some(MessageType::SUBACK)
    } else if n == 10 {
        Some(MessageType::UNSUBSCRIBE)
    } else if n == 11 {
        Some(MessageType::UNSUBACK)
    } else if n == 12 {
        Some(MessageType::PINGREQ)
    } else if n == 13 {
        Some(MessageType::PINGRESP)
    } else if n == 14 {
        Some(MessageType::DISCONNECT)
    } else {
        None
    }
}

/// The two-bit wire value of a QoS level.
pub open spec fn qos_code(q: QoS) -> u8 {
    match q {
        QoS::AtMostOnce => 0,
        QoS::AtLeastOnce => 1,
        QoS::ExactlyOnce => 2,
    }
}

/// The QoS level with wire value `n`, or `QoSError(n)`.
pub open spec fn qos_of_code(n: u8) -> Result<QoS, ProtoError> {
    if n == 0 {
        Ok(QoS::AtMostOnce)
    } else if n == 1 {
        Ok(QoS::AtLeastOnce)
    } else if n == 2 {
        Ok(QoS::ExactlyOnce)
    } else {
        Err(ProtoError::QoSError(n))
    }
}

/// Each packet type is read back from its code, and codes run from 1 to 14.
pub proof fn lemma_type_code_round_trip(t: MessageType)
    ensures
        type_of_code(type_code(t)) == Some(t),
        1 <= type_code(t) <= 14,
{
}

/// Each QoS level is read back from its wire value.
pub proof fn lemma_qos_code_round_trip(q: QoS)
    ensures
        qos_of_code(qos_code(q)) == Ok::<QoS, ProtoError>(q),
        qos_code(q) <= 2,
{
}

impl MessageType {
    /// The packet type code of this type.
    pub fn code(&self) -> (r: u8)
        ensures
            r == type_code(*self),
    {
        match self {
            MessageType::CONNECT => 1,
            MessageType::CONNACK => 2,
            MessageType::PUBLISH => 3,
            MessageType::PUBACK => 4,
            MessageType::PUBREC => 5,
            MessageType::PUBREL => 6,
            MessageType::PUBCOMP => 7,
            MessageType::SUBSCRIBE => 8,
            MessageType::SUBACK => 9,
            MessageType::UNSUBSCRIBE => 10,
            MessageType::UNSUBACK => 11,
            MessageType::PINGREQ => 12,
            MessageType::PINGRESP => 13,
            MessageType::DISCONNECT => 14,
        }
    }
}

impl QoS {
    /// Reads a QoS level from its wire value; 3 and above are rejected.
    pub fn try_from(value: u8) -> (r: Result<QoS, ProtoError>)
        ensures
            r == qos_of_code(value),
    {
        match value {
            0 => Ok(QoS::AtMostOnce),
            1 => Ok(QoS::AtLeastOnce),
            2 => Ok(QoS::ExactlyOnce),
            n => Err(ProtoError::QoSError(n)),
        }
    }

    /// The wire value of this QoS level.
    pub fn code(&self) -> (r: u8)
        ensures
            r == qos_code(*self),
    {
        match self {
            QoS::AtMostOnce => 0,
            QoS::AtLeastOnce => 1,
            QoS::ExactlyOnce => 2,
        }
    }
}

impl From<QoS> for u8 {
    fn from(value: QoS) -> (r: u8) {
        value.code()
    }
}

impl vstd::std_specs::convert::FromSpecImpl<QoS> for u8 {
    open spec fn obeys_from_spec() -> bool {
        true
    }

    open spec fn from_spec(v: QoS) -> u8 {
        qos_code(v)
    }
}

} // verus!
