//! Builders that fill in the derived fields of a packet (flag bits, lengths)
//! from the fields a caller chooses.
use vstd::prelude::*;
use vstd::utf8::encode_utf8;

use crate::ack::{id_header, GeneralVariableHeader, PubAck, PubComp, PubRec, PubRel, UnSubAck};
use crate::coder::fits_string;
use crate::conn_ack::{ConnAck, ConnAckType};
use crate::connect::{
    connect_wf, protocol_name_string, Connect, ConnectFlags,
    ConnectVariableHeader, LastWill, LastWillView, Login, LoginView,
};
use crate::error::ProtoError;
use crate::fixed_header::{plain_header, with_length, FixedHeader, FixedHeaderBuilder};
use crate::ping::{empty_header, DisConnect};
use crate::publish::{variable_len_of, Publish, PublishVariableHeader};
use crate::subscribe::{SubAck, Subscribe, UnSubscribe};
use crate::topic::{topics_len_of, Topic};
use crate::varint::MAX_REMAINING_LENGTH;
use crate::{MessageType, MqttVersion, QoS};

verus! {

/// Entry points to the builder of each packet type.
pub struct MqttMessageBuilder {}

impl MqttMessageBuilder {
    pub fn connect() -> (r: ConnectBuilder)
        ensures
            r.protocol_level == MqttVersion::V4,
            r.keep_alive == 60,
            r.client_id@.len() == 0,
            !r.clean_session,
            r.username is None,
            r.password is None,
            r.will_qos == QoS::AtMostOnce,
            r.will_topic is None,
            !r.retain,
            r.will_message is None,
    {
        ConnectBuilder::new()
    }

    pub fn disconnect() -> (r: DisconnectBuilder) {
        DisconnectBuilder::new()
    }

    pub fn publish() -> (r: PublishBuilder)
        ensures
            r.topic@.len() == 0,
            r.message_id is None,
            r.qos == QoS::AtMostOnce,
            !r.retain,
            !r.dup,
            r.payload@.len() == 0,
    {
        PublishBuilder::new()
    }

    pub fn pub_rel() -> (r: PubRelBuilder)
        ensures
            r.message_id == 0,
    {
        PubRelBuilder::new()
    }

    pub fn pub_rec() -> (r: PubRecBuilder)
        ensures
            r.message_id == 0,
    {
        PubRecBuilder::new()
    }

    pub fn pub_comp() -> (r: PubCompBuilder)
        ensures
            r.message_id == 0,
    {
        PubCompBuilder::new()
    }

    pub fn pub_ack() -> (r: PubAckBuilder)
        ensures
            r.message_id == 0,
    {
        PubAckBuilder::new()
    }

    pub fn conn_ack() -> (r: ConnAckBuilder)
        ensures
            r.conn_ack_type == ConnAckType::Success,
    {
        ConnAckBuilder::new()
    }

    pub fn subscribe() -> (r: SubscribeBuilder)
        ensures
            r.topics@.len() == 0,
            r.message_id == 0,
    {
        SubscribeBuilder::new()
    }

    pub fn sub_ack() -> (r: SubAckBuilder)
        ensures
            r.acks@.len() == 0,
            r.message_id == 0,
    {
        SubAckBuilder::new()
    }

    pub fn unsubscriber() -> (r: UnsubscriberBuilder)
        ensures
            r.topices@.len() == 0,
            r.message_id == 0,
    {
        UnsubscriberBuilder::new()
    }

    pub fn unsub_ack() -> (r: UnsubAckBuilder)
        ensures
            r.message_id == 0,
    {
        UnsubAckBuilder::new()
    }
}

/// Builds a CONNECT. The login is there when both a user name and a
/// password were given; the will when both a will topic and a will message
/// were.
pub struct ConnectBuilder {
    pub protocol_level: MqttVersion,
    pub keep_alive: u16,
    pub client_id: String,
    pub clean_session: bool,
    pub username: Option<String>,
    pub password: Option<String>,
    pub will_qos: QoS,
    pub will_topic: Option<String>,
    pub retain: bool,
    pub will_message: Option<Vec<u8>>,
}

/// The will a CONNECT built from `b` carries.
pub open spec fn builder_will(b: ConnectBuilder) -> Option<LastWillView> {
    match (b.will_topic, b.will_message) {
        (Some(t), Some(m)) => Some(LastWillView { topic_name: t@, message: m@, qos: b.will_qos, retain: b.retain }),
        _ => None,
    }
}

/// The login a CONNECT built from `b` carries.
pub open spec fn builder_login(b: ConnectBuilder) -> Option<LoginView> {
    match (b.username, b.password) {
        (Some(u), Some(p)) => Some(LoginView { username: u@, password: p@ }),
        _ => None,
    }
}

/// Whether every field a CONNECT built from `b` carries fits its length
/// prefix.
pub open spec fn builder_fits(b: ConnectBuilder) -> bool {
    &&& fits_string(b.client_id@)
    &&& (builder_will(b) matches Some(w) ==> fits_string(w.topic_name) && w.message.len() <= 65535)
    &&& (builder_login(b) matches Some(l) ==> fits_string(l.username) && fits_string(l.password))
}

impl ConnectBuilder {
    /// Version 4, keep-alive 60, nothing else set.
    pub fn new() -> (r: Self)
        ensures
            r.protocol_level == MqttVersion::V4,
            r.keep_alive == 60,
            r.client_id@.len() == 0,
            !r.clean_session,
            r.username is None,
            r.password is None,
            r.will_qos == QoS::AtMostOnce,
            r.will_topic is None,
            !r.retain,
            r.will_message is None,
    {
        Self {
            protocol_level: MqttVersion::V4,
            keep_alive: 60,
            client_id: String::new(),
            clean_session: false,
            username: None,
            password: None,
            will_qos: QoS::AtMostOnce,
            will_topic: None,
            retain: false,
            will_message: None,
        }
    }

    pub fn protocol_level(self, protocol_level: MqttVersion) -> (r: Self)
        ensures
            r == (ConnectBuilder { protocol_level, ..self }),
    {
        let mut b = self;
        b.protocol_level = protocol_level;
        b
    }

    pub fn keep_alive(self, keep_alive: u16) -> (r: Self)
        ensures
            r == (ConnectBuilder { keep_alive, ..self }),
    {
        let mut b = self;
        b.keep_alive = keep_alive;
        b
    }

    pub fn client_id(self, client_id: &str) -> (r: Self)
        ensures
            r.client_id@ == client_id@,
            r == (ConnectBuilder { client_id: r.client_id, ..self }),
    {
        let mut b = self;
        b.client_id = client_id.to_owned();
        b
    }

    pub fn clean_session(self, clean_session: bool) -> (r: Self)
        ensures
            r == (ConnectBuilder { clean_session, ..self }),
    {
        let mut b = self;
        b.clean_session = clean_session;
        b
    }

    pub fn username(self, username: &str) -> (r: Self)
        ensures
            r.username matches Some(u) && u@ == username@,
            r == (ConnectBuilder { username: r.username, ..self }),
    {
        let mut b = self;
        b.username = Some(username.to_owned());
        b
    }

    pub fn password(self, password: &str) -> (r: Self)
        ensures
            r.password matches Some(p) && p@ == password@,
            r == (ConnectBuilder { password: r.password, ..self }),
    {
        let mut b = self;
        b.password = Some(password.to_owned());
        b
    }

    pub fn will_qos(self, will_qos: QoS) -> (r: Self)
        ensures
            r == (ConnectBuilder { will_qos, ..self }),
    {
        let mut b = self;
        b.will_qos = will_qos;
        b
    }

    pub fn will_topic(self, will_topic: &str) -> (r: Self)
        ensures
            r.will_topic matches Some(t) && t@ == will_topic@,
            r == (ConnectBuilder { will_topic: r.will_topic, ..self }),
    {
        let mut b = self;
        b.will_topic = Some(will_topic.to_owned());
        b
    }

    pub fn retain(self, retain: bool) -> (r: Self)
        ensures
            r == (ConnectBuilder { retain, ..self }),
    {
        let mut b = self;
        b.retain = retain;
        b
    }

    pub fn will_message(self, will_message: Vec<u8>) -> (r: Self)
        ensures
            r == (ConnectBuilder { will_message: Some(will_message), ..self }),
    {
        let mut b = self;
        b.will_message = Some(will_message);
        b
    }

    /// The CONNECT these fields describe, with its flag bits set from its
    /// will and login and its lengths from its body; it is one that decoding
    /// gives back. A field too long for its length prefix is rejected.
    pub fn build(self) -> (r: Result<Connect, ProtoError>)
        ensures
            !builder_fits(self) ==> r == Err::<Connect, ProtoError>(ProtoError::EncodeVariableHeaderError),
            builder_fits(self) ==> (r matches Ok(c) && {
                &&& c@.client_id == self.client_id@
                &&& c@.variable_header.protocol_level == self.protocol_level
                &&& c@.variable_header.keep_alive == self.keep_alive
                &&& c@.variable_header.connect_flags.clean_session == self.clean_session
                &&& c@.last_will == builder_will(self)
                &&& c@.login == builder_login(self)
                &&& connect_wf(c@)
            }),
    {
        let ConnectBuilder {
            protocol_level,
            keep_alive,
            client_id,
            clean_session,
            username,
            password,
            will_qos,
            will_topic,
            retain,
            will_message,
        } = self;
        let login = match (username, password) {
            (Some(u), Some(p)) => Some(Login::new(u, p)),
            _ => None,
        };
        let last_will = match (will_topic, will_message) {
            (Some(t), Some(m)) => Some(LastWill::new(t, m, will_qos, retain)),
            _ => None,
        };
        let mut fits = client_id.as_str().as_bytes().len() <= 65535;
        if let Some(w) = &last_will {
            fits = fits && w.topic_name.as_str().as_bytes().len() <= 65535 && w.message.len() <= 65535;
        }
        if let Some(l) = &login {
            fits = fits && l.username.as_str().as_bytes().len() <= 65535 && l.password.as_str().as_bytes().len() <= 65535;
        }
        if !fits {
            return Err(ProtoError::EncodeVariableHeaderError);
        }
        let connect_flags = ConnectFlags {
            username_flag: login.is_some(),
            password_flag: login.is_some(),
            will_retain: match &last_will {
                Some(w) => w.retain,
                None => false,
            },
            will_qos: match &last_will {
                Some(w) => w.qos,
                None => QoS::AtMostOnce,
            },
            will_flag: last_will.is_some(),
            clean_session,
        };
        let variable_header = ConnectVariableHeader::new(
            protocol_name_string(),
            protocol_level,
            connect_flags,
            keep_alive,
        );
        let empty = FixedHeaderBuilder::new().build()?;
        let mut connect = Connect::new(empty, variable_header, client_id, last_will, login);
        let len = connect.len();
        proof {
            crate::connect::lemma_connect_len(connect@);
        }
        let fixed_header = FixedHeaderBuilder::new().connect().remaining_length(len).build()?;
        connect.fixed_header = fixed_header;
        Ok(connect)
    }
}

/// Builds a CONNACK.
pub struct ConnAckBuilder {
    pub conn_ack_type: ConnAckType,
}

impl ConnAckBuilder {
    fn new() -> (r: Self)
        ensures
            r.conn_ack_type == ConnAckType::Success,
    {
        Self { conn_ack_type: ConnAckType::Success }
    }

    pub fn conn_ack_type(self, conn_ack_type: ConnAckType) -> (r: Self)
        ensures
            r.conn_ack_type == conn_ack_type,
    {
        Self { conn_ack_type }
    }

    /// A CONNACK with this return code and its usual header.
    pub fn build(&self) -> (r: ConnAck)
        ensures
            r.variable_header.conn_ack_type == self.conn_ack_type,
            !r.variable_header.session_present,
            r.fixed_header == with_length(plain_header(MessageType::CONNACK), 2),
    {
        proof {
            crate::varint::lemma_varint_len(2);
        }
        ConnAck {
            fixed_header: FixedHeader {
                message_type: MessageType::CONNACK,
                dup: Some(false),
                qos: None,
                retain: Some(false),
                remaining_length: 2,
                len: 2,
            },
            variable_header: crate::conn_ack::ConnAckVariableHeader::new(self.conn_ack_type),
        }
    }
}

/// Builds a PUBLISH. The packet identifier is kept only when the QoS is
/// above 0.
pub struct PublishBuilder {
    pub topic: String,
    pub message_id: Option<usize>,
    pub qos: QoS,
    pub retain: bool,
    pub dup: bool,
    pub payload: Vec<u8>,
}

impl PublishBuilder {
    fn new() -> (r: Self)
        ensures
            r.topic@.len() == 0,
            r.message_id is None,
            r.qos == QoS::AtMostOnce,
            !r.retain,
            !r.dup,
            r.payload@.len() == 0,
    {
        Self {
            topic: String::new(),
            message_id: None,
            qos: QoS::AtMostOnce,
            retain: false,
            dup: false,
            payload: Vec::new(),
        }
    }

    pub fn topic(self, topic: &str) -> (r: Self)
        ensures
            r.topic@ == topic@,
            r == (PublishBuilder { topic: r.topic, ..self }),
    {
        let mut b = self;
        b.topic = topic.to_owned();
        b
    }

    pub fn message_id(self, message_id: usize) -> (r: Self)
        ensures
            r == (PublishBuilder { message_id: Some(message_id), ..self }),
    {
        let mut b = self;
        b.message_id = Some(message_id);
        b
    }

    pub fn qos(self, qos: QoS) -> (r: Self)
        ensures
            r == (PublishBuilder { qos, ..self }),
    {
        let mut b = self;
        b.qos = qos;
        b
    }

    pub fn retain(self, retain: bool) -> (r: Self)
        ensures
            r == (PublishBuilder { retain, ..self }),
    {
        let mut b = self;
        b.retain = retain;
        b
    }

    pub fn dup(self, dup: bool) -> (r: Self)
        ensures
            r == (PublishBuilder { dup, ..self }),
    {
        let mut b = self;
        b.dup = dup;
        b
    }

    /// Sets the payload to the UTF-8 bytes of `payload`.
    pub fn payload_string(self, payload: String) -> (r: Self)
        ensures
            r.payload@ == encode_utf8(payload@),
            r == (PublishBuilder { payload: r.payload, ..self }),
    {
        let mut b = self;
        b.payload = vstd::slice::slice_to_vec(payload.as_str().as_bytes());
        b
    }

    /// Sets the payload to the UTF-8 bytes of `payload`.
    pub fn payload_str(self, payload: &str) -> (r: Self)
        ensures
            r.payload@ == encode_utf8(payload@),
            r == (PublishBuilder { payload: r.payload, ..self }),
    {
        let mut b = self;
        b.payload = vstd::slice::slice_to_vec(payload.as_bytes());
        b
    }

    pub fn payload(self, payload: Vec<u8>) -> (r: Self)
        ensures
            r == (PublishBuilder { payload, ..self }),
    {
        let mut b = self;
        b.payload = payload;
        b
    }

    /// The PUBLISH these fields describe, its remaining length the variable
    /// header length plus the payload length. A topic too long for its
    /// length prefix, or a packet too long, is rejected.
    pub fn build(self) -> (r: Result<Publish, ProtoError>)
        ensures
            !fits_string(self.topic@) ==> r == Err::<Publish, ProtoError>(ProtoError::EncodeVariableHeaderError),
            fits_string(self.topic@) && variable_len_of(self.topic@, Some(self.qos)) + self.payload@.len() > MAX_REMAINING_LENGTH
                ==> r is Err,
            fits_string(self.topic@) && variable_len_of(self.topic@, Some(self.qos)) + self.payload@.len() <= MAX_REMAINING_LENGTH
                ==> (r matches Ok(p) && {
                &&& p@.topic == self.topic@
                &&& p@.payload == self.payload@
                &&& p@.message_id == if self.qos == QoS::AtMostOnce { None } else { self.message_id }
                &&& p@.variable_header_len == variable_len_of(self.topic@, Some(self.qos))
                &&& p@.fixed_header == with_length(FixedHeader {
                        message_type: MessageType::PUBLISH,
                        dup: Some(self.dup),
                        qos: Some(self.qos),
                        retain: Some(self.retain),
                        remaining_length: 0,
                        len: 0,
                    }, variable_len_of(self.topic@, Some(self.qos)) + self.payload@.len())
            }),
    {
        if self.topic.as_str().as_bytes().len() > 65535 {
            return Err(ProtoError::EncodeVariableHeaderError);
        }
        if self.payload.len() > MAX_REMAINING_LENGTH {
            return Err(ProtoError::OutOfMaxRemainingLength(self.payload.len()));
        }
        let PublishBuilder { topic, message_id, qos, retain, dup, payload } = self;
        let message_id = if qos == QoS::AtMostOnce { None } else { message_id };
        let variable_header = PublishVariableHeader::new(topic, message_id, Some(qos));
        let remaining_length = variable_header.variable_header_len + payload.len();
        let fixed_header = FixedHeaderBuilder::new()
            .publish()
            .dup(Some(dup))
            .retain(Some(retain))
            .qos(Some(qos))
            .remaining_length(remaining_length)
            .build()?;
        Ok(Publish::new(fixed_header, variable_header, payload))
    }
}

/// Builds a PUBACK.
pub struct PubAckBuilder {
    pub message_id: usize,
}

impl PubAckBuilder {
    pub fn new() -> (r: Self)
        ensures
            r.message_id == 0,
    {
        Self { message_id: 0 }
    }

    pub fn message_id(self, message_id: usize) -> (r: Self)
        ensures
            r.message_id == message_id,
    {
        Self { message_id }
    }

    pub fn build(&self) -> (r: Result<PubAck, ProtoError>)
        ensures
            r matches Ok(p) && p.variable_header.message_id == self.message_id && p.fixed_header == id_header(MessageType::PUBACK),
    {
        Ok(PubAck::new(self.message_id))
    }
}

/// Builds a DISCONNECT.
pub struct DisconnectBuilder {}

impl DisconnectBuilder {
    pub fn new() -> (r: Self) {
        Self {}
    }

    pub fn build(&self) -> (r: Result<DisConnect, ProtoError>)
        ensures
            r matches Ok(p) && p.fixed_header == empty_header(MessageType::DISCONNECT),
    {
        let fixed_header = FixedHeaderBuilder::new().dis_connect().build()?;
        proof {
            crate::varint::lemma_varint_len(0);
        }
        Ok(DisConnect::new(fixed_header))
    }
}

/// Builds a PUBREL.
pub struct PubRelBuilder {
    pub message_id: usize,
}

impl PubRelBuilder {
    pub fn new() -> (r: Self)
        ensures
            r.message_id == 0,
    {
        Self { message_id: 0 }
    }

    pub fn message_id(self, message_id: usize) -> (r: Self)
        ensures
            r.message_id == message_id,
    {
        Self { message_id }
    }

    pub fn build(&self) -> (r: Result<PubRel, ProtoError>)
        ensures
            r matches Ok(p) && p.variable_header.message_id == self.message_id && p.fixed_header == id_header(MessageType::PUBREL),
    {
        Ok(PubRel::new(self.message_id))
    }
}

/// Builds a PUBREC.
pub struct PubRecBuilder {
    pub message_id: usize,
}

impl PubRecBuilder {
    pub fn new() -> (r: Self)
        ensures
            r.message_id == 0,
    {
        Self { message_id: 0 }
    }

    pub fn message_id(self, message_id: usize) -> (r: Self)
        ensures
            r.message_id == message_id,
    {
        Self { message_id }
    }

    pub fn build(&self) -> (r: Result<PubRec, ProtoError>)
        ensures
            r matches Ok(p) && p.variable_header.message_id == self.message_id && p.fixed_header == id_header(MessageType::PUBREC),
    {
        Ok(PubRec::new(self.message_id))
    }
}

/// Builds a PUBCOMP.
pub struct PubCompBuilder {
    pub message_id: usize,
}

impl PubCompBuilder {
    pub fn new() -> (r: Self)
        ensures
            r.message_id == 0,
    {
        Self { message_id: 0 }
    }

    pub fn message_id(self, message_id: usize) -> (r: Self)
        ensures
            r.message_id == message_id,
    {
        Self { message_id }
    }

    pub fn build(&self) -> (r: Result<PubComp, ProtoError>)
        ensures
            r matches Ok(p) && p.variable_header.message_id == self.message_id && p.fixed_header == id_header(MessageType::PUBCOMP),
    {
        Ok(PubComp::new(self.message_id))
    }
}

/// Builds a SUBSCRIBE.
pub struct SubscribeBuilder {
    pub topics: Vec<Topic>,
    pub message_id: usize,
}

impl SubscribeBuilder {
    pub fn new() -> (r: Self)
        ensures
            r.topics@.len() == 0,
            r.message_id == 0,
    {
        Self { topics: Vec::new(), message_id: 0 }
    }

    pub fn topics(self, topices: Vec<Topic>) -> (r: Self)
        ensures
            r.topics == topices,
            r.message_id == self.message_id,
    {
        Self { topics: topices, message_id: self.message_id }
    }

    pub fn message_id(self, message_id: usize) -> (r: Self)
        ensures
            r.topics == self.topics,
            r.message_id == message_id,
    {
        Self { topics: self.topics, message_id }
    }

    /// Adds one filter at the end.
    pub fn topic(self, topic: Topic) -> (r: Self)
        ensures
            r.topics@ == self.topics@.push(topic),
            r.message_id == self.message_id,
    {
        let mut b = self;
        b.topics.push(topic);
        b
    }

    /// The SUBSCRIBE with these filters and this identifier, its remaining
    /// length two plus each filter's name length plus three; a packet too
    /// long is rejected.
    pub fn build(self) -> (r: Result<Subscribe, ProtoError>)
        ensures
            topics_len_of(self.topics@.map_values(|t: Topic| t@)) + 2 <= MAX_REMAINING_LENGTH ==> (r matches Ok(s)
                && s.topices == self.topics && s.variable_header.message_id == self.message_id
                && s.fixed_header == with_length(plain_header(MessageType::SUBSCRIBE), topics_len_of(self.topics@.map_values(|t: Topic| t@)) + 2)),
            topics_len_of(self.topics@.map_values(|t: Topic| t@)) + 2 > MAX_REMAINING_LENGTH ==> r is Err,
    {
        let fixed_header = FixedHeaderBuilder::new().subscribe().build()?;
        let s = Subscribe::new(fixed_header, GeneralVariableHeader::new(self.message_id), self.topics);
        if s.fixed_header.remaining_length > MAX_REMAINING_LENGTH {
            return Err(ProtoError::OutOfMaxRemainingLength(s.fixed_header.remaining_length));
        }
        Ok(s)
    }
}

/// Builds a SUBACK.
pub struct SubAckBuilder {
    pub qos: QoS,
    pub message_id: usize,
    pub acks: Vec<u8>,
}

impl SubAckBuilder {
    pub fn new() -> (r: SubAckBuilder)
        ensures
            r.qos == QoS::AtMostOnce,
            r.acks@.len() == 0,
            r.message_id == 0,
    {
        SubAckBuilder { qos: QoS::AtMostOnce, message_id: 0, acks: Vec::new() }
    }

    pub fn message_id(self, message_id: usize) -> (r: Self)
        ensures
            r == (SubAckBuilder { message_id, ..self }),
    {
        let mut b = self;
        b.message_id = message_id;
        b
    }

    pub fn acks(self, acks: Vec<u8>) -> (r: Self)
        ensures
            r == (SubAckBuilder { acks, ..self }),
    {
        let mut b = self;
        b.acks = acks;
        b
    }

    /// The SUBACK with these return codes and this identifier, its remaining
    /// length two plus the number of codes; a packet too long is rejected.
    pub fn build(self) -> (r: Result<SubAck, ProtoError>)
        ensures
            self.acks@.len() + 2 <= MAX_REMAINING_LENGTH ==> (r matches Ok(s) && s.acks == self.acks
                && s.variable_header.message_id == self.message_id
                && s.fixed_header == with_length(plain_header(MessageType::SUBACK), self.acks@.len() + 2)),
            self.acks@.len() + 2 > MAX_REMAINING_LENGTH ==> r is Err,
    {
        if self.acks.len() > MAX_REMAINING_LENGTH - 2 {
            return Err(ProtoError::OutOfMaxRemainingLength(self.acks.len()));
        }
        let fixed_header = FixedHeaderBuilder::new().sub_ack().build()?;
        Ok(SubAck::new(fixed_header, GeneralVariableHeader::new(self.message_id), self.acks))
    }
}

/// The sum over the names of their length plus two.
pub open spec fn strings_len_of(ss: Seq<Seq<char>>) -> nat
    decreases ss.len(),
{
    if ss.len() == 0 {
        0
    } else {
        strings_len_of(ss.drop_last()) + encode_utf8(ss.last()).len() + 2
    }
}

proof fn lemma_strings_len_prefix(ss: Seq<Seq<char>>, n: int)
    requires
        0 <= n <= ss.len(),
    ensures
        strings_len_of(ss.take(n)) <= strings_len_of(ss),
    decreases ss.len() - n,
{
    if n < ss.len() {
        lemma_strings_len_prefix(ss, n + 1);
        assert(ss.take(n + 1).drop_last() =~= ss.take(n));
    } else {
        assert(ss.take(n) =~= ss);
    }
}

/// Builds an UNSUBSCRIBE.
pub struct UnsubscriberBuilder {
    pub message_id: usize,
    pub topices: Vec<String>,
}

impl UnsubscriberBuilder {
    pub fn new() -> (r: Self)
        ensures
            r.message_id == 0,
            r.topices@.len() == 0,
    {
        Self { message_id: 0, topices: Vec::new() }
    }

    pub fn message_id(self, message_id: usize) -> (r: Self)
        ensures
            r.message_id == message_id,
            r.topices == self.topices,
    {
        Self { message_id, topices: self.topices }
    }

    pub fn topices(self, topices: Vec<String>) -> (r: Self)
        ensures
            r.message_id == self.message_id,
            r.topices == topices,
    {
        Self { message_id: self.message_id, topices }
    }

    /// The length of the topic names with their prefixes, or one more than
    /// the largest remaining length if it is larger than that.
    pub fn remaining_length(&self) -> (r: usize)
        ensures
            strings_len_of(self.topices@.map_values(|s: String| s@)) <= MAX_REMAINING_LENGTH ==> r
                == strings_len_of(self.topices@.map_values(|s: String| s@)),
            strings_len_of(self.topices@.map_values(|s: String| s@)) > MAX_REMAINING_LENGTH ==> r
                == MAX_REMAINING_LENGTH + 1,
    {
        let ghost ss = self.topices@.map_values(|s: String| s@);
        let mut len: usize = 0;
        let mut i: usize = 0;
        while i < self.topices.len()
            invariant
                i <= self.topices@.len(),
                ss == self.topices@.map_values(|s: String| s@),
                ss.len() == self.topices@.len(),
                len == strings_len_of(ss.take(i as int)),
                len <= MAX_REMAINING_LENGTH,
            decreases self.topices@.len() - i,
        {
            proof {
                assert(ss.take(i + 1).drop_last() =~= ss.take(i as int));
                lemma_strings_len_prefix(ss, i + 1);
            }
            let n = self.topices[i].as_str().as_bytes().len();
            if n > MAX_REMAINING_LENGTH || len + n + 2 > MAX_REMAINING_LENGTH {
                return MAX_REMAINING_LENGTH + 1;
            }
            len = len + n + 2;
            i = i + 1;
        }
        assert(ss.take(i as int) =~= ss);
        len
    }

    /// The UNSUBSCRIBE with these topics and this identifier, its remaining
    /// length two plus the topic names with their prefixes; a packet too long
    /// is rejected.
    pub fn build(&self) -> (r: Result<UnSubscribe, ProtoError>)
        ensures
            strings_len_of(self.topices@.map_values(|s: String| s@)) + 2 <= MAX_REMAINING_LENGTH ==> (r matches Ok(u)
                && u@.topics == self.topices@.map_values(|s: String| s@)
                && u.variable_header.message_id == self.message_id
                && u.fixed_header == with_length(plain_header(MessageType::UNSUBSCRIBE), strings_len_of(self.topices@.map_values(|s: String| s@)) + 2)),
            strings_len_of(self.topices@.map_values(|s: String| s@)) + 2 > MAX_REMAINING_LENGTH ==> r is Err,
    {
        let len = self.remaining_length();
        if len > MAX_REMAINING_LENGTH - 2 {
            return Err(ProtoError::OutOfMaxRemainingLength(len));
        }
        let fixed_header = FixedHeaderBuilder::new().un_subscribe().remaining_length(len + 2).build()?;
        Ok(UnSubscribe::new(fixed_header, GeneralVariableHeader::new(self.message_id), self.topices_copy()))
    }

    fn topices_copy(&self) -> (r: Vec<String>)
        ensures
            r@.map_values(|s: String| s@) == self.topices@.map_values(|s: String| s@),
    {
        let mut out: Vec<String> = Vec::new();
        let mut i: usize = 0;
        while i < self.topices.len()
            invariant
                i <= self.topices@.len(),
                out@.map_values(|s: String| s@) == self.topices@.map_values(|s: String| s@).take(i as int),
            decreases self.topices@.len() - i,
        {
            let ghost before = out@.map_values(|s: String| s@);
            let c = self.topices[i].clone();
            let ghost cv = c@;
            out.push(c);
            assert(out@.map_values(|s: String| s@) =~= before.push(cv));
            assert(self.topices@.map_values(|s: String| s@).take(i + 1) =~= self.topices@.map_values(|s: String| s@).take(i as int).push(cv));
            i = i + 1;
        }
        assert(self.topices@.map_values(|s: String| s@).take(i as int) =~= self.topices@.map_values(|s: String| s@));
        out
    }
}

/// Builds an UNSUBACK.
pub struct UnsubAckBuilder {
    pub message_id: usize,
}

impl UnsubAckBuilder {
    pub fn new() -> (r: Self)
        ensures
            r.message_id == 0,
    {
        Self { message_id: 0 }
    }

    pub fn message_id(self, message_id: usize) -> (r: Self)
        ensures
            r.message_id == message_id,
    {
        Self { message_id }
    }

    /// The UNSUBACK with this identifier and its usual header.
    pub fn build(self) -> (r: Result<UnSubAck, ProtoError>)
        ensures
            r matches Ok(u) && u.variable_header.message_id == self.message_id && u.fixed_header == id_header(MessageType::UNSUBACK),
    {
        let fixed_header = FixedHeaderBuilder::new().un_suback().remaining_length(2).build()?;
        proof {
            crate::varint::lemma_varint_len(2);
        }
        Ok(UnSubAck::new(fixed_header, GeneralVariableHeader::new(self.message_id)))
    }
}

} // verus!
