//! CONNECT: protocol name and level, connect flags, keep-alive, client id,
//! then the will and the login, each present only if its flag bits say so.
use bytes::BytesMut;
use vstd::prelude::*;
use vstd::string::StringExecFns;
use vstd::utf8::encode_utf8;

use crate::buffer::buf_view;
use crate::coder::{
    be16, fits_string, lemma_bytes_round_trip, lemma_string_round_trip, lemma_u16_round_trip, lemma_u8_round_trip, mqtt_bytes, mqtt_string,
    parse_mqtt_bytes, parse_mqtt_string, parse_u16, parse_u8, read_mqtt_bytes, read_mqtt_string,
    read_u16, read_u8, tail, write_mqtt_bytes, write_u16,
};
use crate::error::ProtoError;
use crate::fixed_header::{plain_header, with_length, FixedHeader};
use crate::frame::{decode_frame, encode_frame, frame_bytes, lemma_frame_round_trip, parse_frame};
use crate::varint::MAX_REMAINING_LENGTH;
use crate::{qos_code, qos_of_code, MessageType, MqttVersion, QoS};

verus! {

/// The bits of the connect flags byte, read out.
#[derive(Debug, Clone, Copy, PartialEq, Eq, Structural)]
pub struct ConnectFlags {
    pub username_flag: bool,
    pub password_flag: bool,
    pub will_retain: bool,
    pub will_qos: QoS,
    pub will_flag: bool,
    pub clean_session: bool,
}

/// The variable header of a CONNECT.
#[derive(Debug, Clone, PartialEq, Eq)]
pub struct ConnectVariableHeader {
    pub protocol_name: String,
    pub protocol_level: MqttVersion,
    pub connect_flags: ConnectFlags,
    pub keep_alive: u16,
}

/// A client's user name and password.
#[derive(Debug, Clone, PartialEq, Eq)]
pub struct Login {
    pub username: String,
    pub password: String,
}

/// The message a broker publishes for a client that goes away without
/// disconnecting.
#[derive(Debug, Clone, PartialEq, Eq)]
pub struct LastWill {
    pub topic_name: String,
    pub message: Vec<u8>,
    pub qos: QoS,
    pub retain: bool,
}

/// A CONNECT packet.
#[derive(Debug, Clone, PartialEq, Eq)]
pub struct Connect {
    pub fixed_header: FixedHeader,
    pub variable_header: ConnectVariableHeader,
    pub client_id: String,
    pub last_will: Option<LastWill>,
    pub login: Option<Login>,
}

pub struct ConnectVariableHeaderView {
    pub protocol_name: Seq<char>,
    pub protocol_level: MqttVersion,
    pub connect_flags: ConnectFlags,
    pub keep_alive: u16,
}

pub struct LoginView {
    pub username: Seq<char>,
    pub password: Seq<char>,
}

pub struct LastWillView {
    pub topic_name: Seq<char>,
    pub message: Seq<u8>,
    pub qos: QoS,
    pub retain: bool,
}

/// The value of a CONNECT that the contracts speak of.
pub struct ConnectView {
    pub fixed_header: FixedHeader,
    pub variable_header: ConnectVariableHeaderView,
    pub client_id: Seq<char>,
    pub last_will: Option<LastWillView>,
    pub login: Option<LoginView>,
}

impl View for ConnectVariableHeader {
    type V = ConnectVariableHeaderView;

    open spec fn view(&self) -> ConnectVariableHeaderView {
        ConnectVariableHeaderView {
            protocol_name: self.protocol_name@,
            protocol_level: self.protocol_level,
            connect_flags: self.connect_flags,
            keep_alive: self.keep_alive,
        }
    }
}

impl View for Login {
    type V = LoginView;

    open spec fn view(&self) -> LoginView {
        LoginView { username: self.username@, password: self.password@ }
    }
}

impl View for LastWill {
    type V = LastWillView;

    open spec fn view(&self) -> LastWillView {
        LastWillView {
            topic_name: self.topic_name@,
            message: self.message@,
            qos: self.qos,
            retain: self.retain,
        }
    }
}

impl View for Connect {
    type V = ConnectView;

    open spec fn view(&self) -> ConnectView {
        ConnectView {
            fixed_header: self.fixed_header,
            variable_header: self.variable_header@,
            client_id: self.client_id@,
            last_will: match self.last_will {
                Some(w) => Some(w@),
                None => None,
            },
            login: match self.login {
                Some(l) => Some(l@),
                None => None,
            },
        }
    }
}

/// The bytes of the protocol name, "MQTT".
pub open spec fn protocol_name_bytes() -> Seq<u8> {
    seq![77u8, 81u8, 84u8, 84u8]
}

/// The protocol level byte of a version.
pub open spec fn level_code(v: MqttVersion) -> u8 {
    match v {
        MqttVersion::V4 => 4,
        MqttVersion::V5 => 5,
    }
}

/// The version with protocol level `n`; other levels are not supported.
pub open spec fn level_of_code(n: u8) -> Result<MqttVersion, ProtoError> {
    if n == 4 {
        Ok(MqttVersion::V4)
    } else if n == 5 {
        Ok(MqttVersion::V5)
    } else {
        Err(ProtoError::UnsupportedVersion(n))
    }
}

/// The connect flags byte for a packet with this clean-session bit, will and
/// login: the login sets both the user name and the password bit, the will
/// sets the will bit and carries its QoS and retain bits.
#[verifier::opaque]
pub open spec fn connect_flags_byte(clean: bool, will: Option<LastWillView>, login: Option<LoginView>) -> u8 {
    ((if login is Some { 192nat } else { 0nat }) + (match will {
        Some(w) => (4 + 8 * qos_code(w.qos) + if w.retain { 32nat } else { 0nat }) as nat,
        None => 0nat,
    }) + if clean { 2nat } else { 0nat }) as u8
}

/// The flags that the byte for this clean-session bit, will and login holds.
pub open spec fn flags_for(clean: bool, will: Option<LastWillView>, login: Option<LoginView>) -> ConnectFlags {
    ConnectFlags {
        username_flag: login is Some,
        password_flag: login is Some,
        will_retain: will matches Some(w) && w.retain,
        will_qos: match will {
            Some(w) => w.qos,
            None => QoS::AtMostOnce,
        },
        will_flag: will is Some,
        clean_session: clean,
    }
}

/// The flags in a connect flags byte; a will QoS of 3 is a `QoSError`, and
/// otherwise a set reserved bit is an error.
#[verifier::opaque]
pub open spec fn flags_of_byte(b: u8) -> Result<ConnectFlags, ProtoError> {
    match qos_of_code((b / 8) % 4) {
        Ok(q) => if b % 2 == 1 {
            Err(ProtoError::NotKnow)
        } else {
            Ok(
                ConnectFlags {
                    username_flag: b / 128 == 1,
                    password_flag: (b / 64) % 2 == 1,
                    will_retain: (b / 32) % 2 == 1,
                    will_qos: q,
                    will_flag: (b / 4) % 2 == 1,
                    clean_session: (b / 2) % 2 == 1,
                },
            )
        },
        Err(e) => Err(e),
    }
}

pub proof fn lemma_flags_byte(clean: bool, will: Option<LastWillView>, login: Option<LoginView>)
    ensures
        flags_of_byte(connect_flags_byte(clean, will, login)) == Ok::<ConnectFlags, ProtoError>(
            flags_for(clean, will, login),
        ),
{
    reveal(flags_of_byte);
    reveal(connect_flags_byte);
    if let Some(w) = will {
        crate::lemma_qos_code_round_trip(w.qos);
    }
}

/// The will fields on the wire: topic, then message, when there is a will.
pub open spec fn will_bytes(will: Option<LastWillView>) -> Seq<u8> {
    match will {
        Some(w) => mqtt_string(w.topic_name) + mqtt_bytes(w.message),
        None => Seq::empty(),
    }
}

/// The login fields on the wire: user name, then password, when there is a
/// login.
pub open spec fn login_bytes(login: Option<LoginView>) -> Seq<u8> {
    match login {
        Some(l) => mqtt_string(l.username) + mqtt_string(l.password),
        None => Seq::empty(),
    }
}

/// The body of a CONNECT.
pub open spec fn connect_body(m: ConnectView) -> Seq<u8> {
    mqtt_bytes(protocol_name_bytes()) + seq![
        level_code(m.variable_header.protocol_level),
        connect_flags_byte(m.variable_header.connect_flags.clean_session, m.last_will, m.login),
    ] + be16(m.variable_header.keep_alive) + mqtt_string(m.client_id) + will_bytes(m.last_will)
        + login_bytes(m.login)
}

/// The wire form of a CONNECT.
pub open spec fn connect_bytes(m: ConnectView) -> Seq<u8> {
    frame_bytes(plain_header(MessageType::CONNECT), connect_body(m))
}

/// Whether every length-prefixed field of a CONNECT fits its prefix.
pub open spec fn connect_fields_fit(m: ConnectView) -> bool {
    &&& fits_string(m.client_id)
    &&& (m.last_will matches Some(w) ==> fits_string(w.topic_name) && w.message.len() <= 65535)
    &&& (m.login matches Some(l) ==> fits_string(l.username) && fits_string(l.password))
}

/// Why a CONNECT cannot be written, if it cannot.
pub open spec fn connect_encode_error(m: ConnectView) -> Option<ProtoError> {
    if !connect_fields_fit(m) {
        Some(ProtoError::EncodeVariableHeaderError)
    } else if connect_body(m).len() > MAX_REMAINING_LENGTH {
        Some(ProtoError::OutOfMaxRemainingLength(connect_body(m).len() as usize))
    } else {
        None
    }
}

/// Reads a CONNECT variable header from the front of `s`: the name must be
/// "MQTT" and the level 4 or 5.
#[verifier::opaque]
pub open spec fn parse_connect_variable_header(s: Seq<u8>) -> Result<
    (ConnectVariableHeaderView, Seq<u8>),
    ProtoError,
> {
    match parse_mqtt_string(s) {
        Ok((name, r1)) => if encode_utf8(name) != protocol_name_bytes() {
            Err(ProtoError::NotKnow)
        } else {
            match parse_u8(r1) {
                Ok((lv, r2)) => match level_of_code(lv) {
                    Ok(level) => match parse_u8(r2) {
                        Ok((fb, r3)) => match flags_of_byte(fb) {
                            Ok(flags) => match parse_u16(r3) {
                                Ok((ka, r4)) => Ok(
                                    (
                                        ConnectVariableHeaderView {
                                            protocol_name: name,
                                            protocol_level: level,
                                            connect_flags: flags,
                                            keep_alive: ka,
                                        },
                                        r4,
                                    ),
                                ),
                                Err(e) => Err(e),
                            },
                            Err(e) => Err(e),
                        },
                        Err(e) => Err(e),
                    },
                    Err(e) => Err(e),
                },
                Err(e) => Err(e),
            }
        },
        Err(e) => Err(e),
    }
}

/// Reads the will fields from the front of `s` if the will flag is set.
#[verifier::opaque]
pub open spec fn parse_last_will(s: Seq<u8>, flags: ConnectFlags) -> Result<
    (Option<LastWillView>, Seq<u8>),
    ProtoError,
> {
    if !flags.will_flag {
        Ok((None, s))
    } else {
        match parse_mqtt_string(s) {
            Ok((t, r1)) => match parse_mqtt_bytes(r1) {
                Ok((msg, r2)) => Ok(
                    (
                        Some(
                            LastWillView {
                                topic_name: t,
                                message: msg,
                                qos: flags.will_qos,
                                retain: flags.will_retain,
                            },
                        ),
                        r2,
                    ),
                ),
                Err(e) => Err(e),
            },
            Err(e) => Err(e),
        }
    }
}

/// Reads the user name and the password from the front of `s`, each if its
/// flag is set; there is a login if either is.
#[verifier::opaque]
pub open spec fn parse_login(s: Seq<u8>, flags: ConnectFlags) -> Result<
    (Option<LoginView>, Seq<u8>),
    ProtoError,
> {
    match (if flags.username_flag {
        parse_mqtt_string(s)
    } else {
        Ok((Seq::empty(), s))
    }) {
        Ok((u, r1)) => match (if flags.password_flag {
            parse_mqtt_string(r1)
        } else {
            Ok((Seq::empty(), r1))
        }) {
            Ok((p, r2)) => Ok(
                (
                    if flags.username_flag || flags.password_flag {
                        Some(LoginView { username: u, password: p })
                    } else {
                        None
                    },
                    r2,
                ),
            ),
            Err(e) => Err(e),
        },
        Err(e) => Err(e),
    }
}

/// Reads a CONNECT from the front of `s`; bytes left over in the body are an
/// error.
pub open spec fn parse_connect(s: Seq<u8>) -> Result<ConnectView, ProtoError> {
    match parse_frame(s) {
        Ok((h, body)) => if h.message_type != MessageType::CONNECT {
            Err(ProtoError::NotKnow)
        } else {
            match parse_connect_variable_header(body) {
                Ok((vh, r1)) => match parse_mqtt_string(r1) {
                    Ok((cid, r2)) => match parse_last_will(r2, vh.connect_flags) {
                        Ok((w, r3)) => match parse_login(r3, vh.connect_flags) {
                            Ok((l, r4)) => if r4.len() != 0 {
                                Err(ProtoError::NotKnow)
                            } else {
                                Ok(
                                    ConnectView {
                                        fixed_header: h,
                                        variable_header: vh,
                                        client_id: cid,
                                        last_will: w,
                                        login: l,
                                    },
                                )
                            },
                            Err(e) => Err(e),
                        },
                        Err(e) => Err(e),
                    },
                    Err(e) => Err(e),
                },
                Err(e) => Err(e),
            }
        },
        Err(e) => Err(e),
    }
}

/// Whether a CONNECT is one that decoding gives back: named "MQTT", with
/// flags that match its will and login, fields that fit, and a header whose
/// lengths match the body.
pub open spec fn connect_wf(m: ConnectView) -> bool {
    &&& connect_encode_error(m) is None
    &&& encode_utf8(m.variable_header.protocol_name) == protocol_name_bytes()
    &&& m.variable_header.connect_flags == flags_for(
        m.variable_header.connect_flags.clean_session,
        m.last_will,
        m.login,
    )
    &&& m.fixed_header == with_length(plain_header(MessageType::CONNECT), connect_body(m).len())
}

proof fn lemma_connect_vh_round_trip(vh: ConnectVariableHeaderView, fb: u8, r1: Seq<u8>)
    requires
        encode_utf8(vh.protocol_name) == protocol_name_bytes(),
        flags_of_byte(fb) == Ok::<ConnectFlags, ProtoError>(vh.connect_flags),
    ensures
        parse_connect_variable_header(
            mqtt_string(vh.protocol_name) + (seq![level_code(vh.protocol_level)] + (seq![fb] + (
            be16(vh.keep_alive) + r1))),
        ) == Ok::<(ConnectVariableHeaderView, Seq<u8>), ProtoError>((vh, r1)),
{
    reveal(parse_connect_variable_header);
    let lv = level_code(vh.protocol_level);
    let r3 = be16(vh.keep_alive) + r1;
    let rb = seq![fb] + r3;
    let ra = seq![lv] + rb;
    lemma_string_round_trip(vh.protocol_name, ra);
    lemma_u8_round_trip(lv, rb);
    lemma_u8_round_trip(fb, r3);
    lemma_u16_round_trip(vh.keep_alive, r1);
}

proof fn lemma_will_round_trip(will: Option<LastWillView>, flags: ConnectFlags, rest: Seq<u8>)
    requires
        flags.will_flag == will is Some,
        will matches Some(w) ==> fits_string(w.topic_name) && w.message.len() <= 65535
            && flags.will_qos == w.qos && flags.will_retain == w.retain,
    ensures
        parse_last_will(will_bytes(will) + rest, flags) == Ok::<(Option<LastWillView>, Seq<u8>), ProtoError>((will, rest)),
{
    reveal(parse_last_will);
    match will {
        Some(w) => {
            assert(will_bytes(will) + rest =~= mqtt_string(w.topic_name) + (mqtt_bytes(w.message) + rest));
            lemma_string_round_trip(w.topic_name, mqtt_bytes(w.message) + rest);
            lemma_bytes_round_trip(w.message, rest);
        },
        None => {
            assert(will_bytes(will) + rest =~= rest);
        },
    }
}

proof fn lemma_login_round_trip(login: Option<LoginView>, flags: ConnectFlags, rest: Seq<u8>)
    requires
        flags.username_flag == login is Some,
        flags.password_flag == login is Some,
        login matches Some(l) ==> fits_string(l.username) && fits_string(l.password),
    ensures
        parse_login(login_bytes(login) + rest, flags) == Ok::<(Option<LoginView>, Seq<u8>), ProtoError>((login, rest)),
{
    reveal(parse_login);
    match login {
        Some(l) => {
            assert(login_bytes(login) + rest =~= mqtt_string(l.username) + (mqtt_string(l.password) + rest));
            lemma_string_round_trip(l.username, mqtt_string(l.password) + rest);
            lemma_string_round_trip(l.password, rest);
        },
        None => {
            assert(login_bytes(login) + rest =~= rest);
        },
    }
}

/// A well-formed CONNECT is read back from its wire form, every field as it
/// was.
#[verifier::rlimit(100)]
#[verifier::spinoff_prover]
pub proof fn lemma_connect_round_trip(m: ConnectView, rest: Seq<u8>)
    requires
        connect_wf(m),
    ensures
        parse_connect(connect_bytes(m) + rest) == Ok::<ConnectView, ProtoError>(m),
{
    let vh = m.variable_header;
    let fb = connect_flags_byte(vh.connect_flags.clean_session, m.last_will, m.login);
    let body = connect_body(m);
    lemma_frame_round_trip(plain_header(MessageType::CONNECT), body, rest);
    let lb = login_bytes(m.login);
    let r2 = will_bytes(m.last_will) + lb;
    let r1 = mqtt_string(m.client_id) + r2;
    assert(body =~= mqtt_string(vh.protocol_name) + (seq![level_code(vh.protocol_level)] + (seq![fb] + (
            be16(vh.keep_alive) + r1))));
    lemma_flags_byte(vh.connect_flags.clean_session, m.last_will, m.login);
    lemma_connect_vh_round_trip(vh, fb, r1);
    lemma_string_round_trip(m.client_id, r2);
    lemma_will_round_trip(m.last_will, vh.connect_flags, lb);
    lemma_login_round_trip(m.login, vh.connect_flags, Seq::empty());
    assert(lb + Seq::<u8>::empty() =~= lb);
    let h = with_length(plain_header(MessageType::CONNECT), body.len());
    assert(parse_frame(connect_bytes(m) + rest) == Ok::<(FixedHeader, Seq<u8>), ProtoError>((h, body)));
    assert(parse_connect_variable_header(body) == Ok::<(ConnectVariableHeaderView, Seq<u8>), ProtoError>((vh, r1)));
    assert(parse_mqtt_string(r1) == Ok::<(Seq<char>, Seq<u8>), ProtoError>((m.client_id, r2)));
    assert(parse_last_will(r2, vh.connect_flags) == Ok::<(Option<LastWillView>, Seq<u8>), ProtoError>((m.last_will, lb)));
    assert(parse_login(lb, vh.connect_flags) == Ok::<(Option<LoginView>, Seq<u8>), ProtoError>((m.login, Seq::empty())));
}

/// The length of a CONNECT body: ten bytes of fixed fields, then each
/// string or byte field with its two-byte prefix.
pub open spec fn connect_len_of(m: ConnectView) -> nat {
    10 + 2 + encode_utf8(m.client_id).len() + match m.last_will {
        Some(w) => (2 + encode_utf8(w.topic_name).len() + 2 + w.message.len()) as nat,
        None => 0nat,
    } + match m.login {
        Some(l) => (2 + encode_utf8(l.username).len() + 2 + encode_utf8(l.password).len()) as nat,
        None => 0nat,
    }
}

pub proof fn lemma_connect_len(m: ConnectView)
    ensures
        connect_body(m).len() == connect_len_of(m),
{
}

/// The characters of the protocol name.
pub open spec fn protocol_name_chars() -> Seq<char> {
    seq!['M', 'Q', 'T', 'T']
}

pub proof fn lemma_protocol_name()
    ensures
        encode_utf8(protocol_name_chars()) == protocol_name_bytes(),
{
    let c = protocol_name_chars();
    vstd::utf8::is_ascii_chars_encode_utf8(c);
    assert(encode_utf8(c) =~= protocol_name_bytes());
}

/// The protocol name as a string.
pub fn protocol_name_string() -> (r: String)
    ensures
        encode_utf8(r@) == protocol_name_bytes(),
{
    let s = String::from_str(crate::PROTOCOL_NAME);
    proof {
        reveal_strlit("MQTT");
        assert(s@ =~= protocol_name_chars());
        lemma_protocol_name();
    }
    s
}

fn string_bytes_len(s: &String) -> (r: usize)
    ensures
        r == encode_utf8(s@).len(),
{
    s.as_str().as_bytes().len()
}

impl ConnectFlags {
    pub fn new(
        username_flag: bool,
        password_flag: bool,
        will_retain: bool,
        will_qos: QoS,
        will_flag: bool,
        clean_session: bool,
    ) -> (r: Self)
        ensures
            r == (ConnectFlags {
                username_flag,
                password_flag,
                will_retain,
                will_qos,
                will_flag,
                clean_session,
            }),
    {
        Self { username_flag, password_flag, will_retain, will_qos, will_flag, clean_session }
    }

    pub fn clean_session(&self) -> (r: bool)
        ensures
            r == self.clean_session,
    {
        self.clean_session
    }

    pub fn will_qos(&self) -> (r: QoS)
        ensures
            r == self.will_qos,
    {
        self.will_qos
    }

    pub fn will_flag(&self) -> (r: bool)
        ensures
            r == self.will_flag,
    {
        self.will_flag
    }

    /// Reads the flags from a connect flags byte.
    pub fn from_u8(byte: u8) -> (r: Result<Self, ProtoError>)
        ensures
            r == flags_of_byte(byte),
    {
        reveal(flags_of_byte);
        let will_qos = QoS::try_from((byte / 8) % 4)?;
        if byte % 2 == 1 {
            return Err(ProtoError::NotKnow);
        }
        Ok(
            Self {
                username_flag: byte / 128 == 1,
                password_flag: (byte / 64) % 2 == 1,
                will_retain: (byte / 32) % 2 == 1,
                will_qos,
                will_flag: (byte / 4) % 2 == 1,
                clean_session: (byte / 2) % 2 == 1,
            },
        )
    }
}

impl ConnectVariableHeader {
    pub fn new(
        protocol_name: String,
        protocol_level: MqttVersion,
        connect_flags: ConnectFlags,
        keep_alive: u16,
    ) -> (r: Self)
        ensures
            r.protocol_name == protocol_name,
            r.protocol_level == protocol_level,
            r.connect_flags == connect_flags,
            r.keep_alive == keep_alive,
    {
        Self { protocol_name, protocol_level, connect_flags, keep_alive }
    }

    pub fn protocol_name(&self) -> (r: &str)
        ensures
            r@ == self.protocol_name@,
    {
        self.protocol_name.as_str()
    }

    pub fn protocol_level(&self) -> (r: MqttVersion)
        ensures
            r == self.protocol_level,
    {
        self.protocol_level
    }

    pub fn connect_flags(&self) -> (r: &ConnectFlags)
        ensures
            *r == self.connect_flags,
    {
        &self.connect_flags
    }

    pub fn keep_alive(&self) -> (r: u16)
        ensures
            r == self.keep_alive,
    {
        self.keep_alive
    }

    /// The number of bytes the variable header takes: name, level, flags and
    /// keep-alive.
    pub fn len(&self) -> (r: usize)
        ensures
            r == 10,
    {
        10
    }

    /// Reads a CONNECT variable header at `pos`; returns it and the position
    /// after it.
    pub fn decode(stream: &[u8], pos: usize) -> (r: Result<(ConnectVariableHeader, usize), ProtoError>)
        requires
            pos <= stream@.len(),
        ensures
            match parse_connect_variable_header(tail(stream@, pos as int)) {
                Ok((vh, rest)) => r matches Ok((x, p)) && x@ == vh && p <= stream@.len() && rest
                    == tail(stream@, p as int),
                Err(e) => r matches Err(x) && x == e,
            },
    {
        reveal(parse_connect_variable_header);
        let (protocol_name, p1) = read_mqtt_string(stream, pos)?;
        let b = protocol_name.as_str().as_bytes();
        if !(b.len() == 4 && b[0] == 77 && b[1] == 81 && b[2] == 84 && b[3] == 84) {
            assert(encode_utf8(protocol_name@) != protocol_name_bytes());
            return Err(ProtoError::NotKnow);
        }
        assert(encode_utf8(protocol_name@) =~= protocol_name_bytes());
        let (level, p2) = read_u8(stream, p1)?;
        let protocol_level = match level {
            4 => MqttVersion::V4,
            5 => MqttVersion::V5,
            n => return Err(ProtoError::UnsupportedVersion(n)),
        };
        let (fb, p3) = read_u8(stream, p2)?;
        let connect_flags = ConnectFlags::from_u8(fb)?;
        let (keep_alive, p4) = read_u16(stream, p3)?;
        Ok((ConnectVariableHeader { protocol_name, protocol_level, connect_flags, keep_alive }, p4))
    }
}

impl Login {
    pub fn new(username: String, password: String) -> (r: Self)
        ensures
            r.username == username,
            r.password == password,
    {
        Self { username, password }
    }

    pub fn username(&self) -> (r: String)
        ensures
            r@ == self.username@,
    {
        self.username.clone()
    }

    pub fn password(&self) -> (r: String)
        ensures
            r@ == self.password@,
    {
        self.password.clone()
    }

    /// The number of bytes the login takes: both strings with their prefixes.
    pub fn len(&self) -> (r: usize)
        requires
            encode_utf8(self.username@).len() + encode_utf8(self.password@).len() + 4 <= usize::MAX,
        ensures
            r == login_bytes(Some(self@)).len(),
    {
        string_bytes_len(&self.username) + string_bytes_len(&self.password) + 4
    }

    /// Appends the user name and the password and returns the flag bits they
    /// set.
    pub fn write(&self, buffer: &mut Vec<u8>) -> (r: u8)
        requires
            fits_string(self.username@),
            fits_string(self.password@),
        ensures
            final(buffer)@ == old(buffer)@ + login_bytes(Some(self@)),
            r == 192,
    {
        write_mqtt_bytes(buffer, self.username.as_str().as_bytes());
        write_mqtt_bytes(buffer, self.password.as_str().as_bytes());
        assert(buffer@ =~= old(buffer)@ + login_bytes(Some(self@)));
        192
    }

    /// Reads the user name and the password at `pos`, each if its flag is set.
    fn read_login(stream: &[u8], pos: usize, connect_flags: &ConnectFlags) -> (r: Result<(Option<Self>, usize), ProtoError>)
        requires
            pos <= stream@.len(),
        ensures
            match parse_login(tail(stream@, pos as int), *connect_flags) {
                Ok((l, rest)) => r matches Ok((x, p)) && p <= stream@.len() && rest == tail(stream@, p as int)
                    && match x {
                        Some(y) => l == Some(y@),
                        None => l is None,
                    },
                Err(e) => r matches Err(x) && x == e,
            },
    {
        reveal(parse_login);
        let mut p = pos;
        let mut username = String::new();
        let mut password = String::new();
        if connect_flags.username_flag {
            let (u, p1) = read_mqtt_string(stream, p)?;
            username = u;
            p = p1;
        }
        if connect_flags.password_flag {
            let (w, p2) = read_mqtt_string(stream, p)?;
            password = w;
            p = p2;
        }
        if connect_flags.username_flag || connect_flags.password_flag {
            Ok((Some(Login { username, password }), p))
        } else {
            Ok((None, p))
        }
    }
}

impl LastWill {
    pub fn new(topic_name: String, message: Vec<u8>, qos: QoS, retain: bool) -> (r: Self)
        ensures
            r.topic_name == topic_name,
            r.message == message,
            r.qos == qos,
            r.retain == retain,
    {
        Self { topic_name, message, qos, retain }
    }

    /// The number of bytes the will takes: topic and message with their
    /// prefixes.
    pub fn len(&self) -> (r: usize)
        requires
            encode_utf8(self.topic_name@).len() + self.message@.len() + 4 <= usize::MAX,
        ensures
            r == will_bytes(Some(self@)).len(),
    {
        string_bytes_len(&self.topic_name) + self.message.len() + 4
    }

    /// Appends the topic and the message and returns the flag bits the will
    /// sets.
    pub fn write(&self, buffer: &mut Vec<u8>) -> (r: Result<u8, ProtoError>)
        requires
            fits_string(self.topic_name@),
            self.message@.len() <= 65535,
        ensures
            final(buffer)@ == old(buffer)@ + will_bytes(Some(self@)),
            r == Ok::<u8, ProtoError>((4 + 8 * qos_code(self.qos) + if self.retain { 32nat } else { 0nat }) as u8),
    {
        write_mqtt_bytes(buffer, self.topic_name.as_str().as_bytes());
        write_mqtt_bytes(buffer, self.message.as_slice());
        assert(buffer@ =~= old(buffer)@ + will_bytes(Some(self@)));
        let r: u8 = if self.retain { 32 } else { 0 };
        Ok(4 + 8 * self.qos.code() + r)
    }

    /// Reads the will at `pos` if the will flag is set.
    fn read_last_will(stream: &[u8], pos: usize, connect_flags: &ConnectFlags) -> (r: Result<(Option<Self>, usize), ProtoError>)
        requires
            pos <= stream@.len(),
        ensures
            match parse_last_will(tail(stream@, pos as int), *connect_flags) {
                Ok((w, rest)) => r matches Ok((x, p)) && p <= stream@.len() && rest == tail(stream@, p as int)
                    && match x {
                        Some(y) => w == Some(y@),
                        None => w is None,
                    },
                Err(e) => r matches Err(x) && x == e,
            },
    {
        reveal(parse_last_will);
        if !connect_flags.will_flag {
            return Ok((None, pos));
        }
        let (topic_name, p1) = read_mqtt_string(stream, pos)?;
        let (message, p2) = read_mqtt_bytes(stream, p1)?;
        Ok((Some(LastWill { topic_name, message, qos: connect_flags.will_qos, retain: connect_flags.will_retain }), p2))
    }
}

impl Connect {
    pub fn new(
        fixed_header: FixedHeader,
        variable_header: ConnectVariableHeader,
        client_id: String,
        last_will: Option<LastWill>,
        login: Option<Login>,
    ) -> (r: Self)
        ensures
            r.fixed_header == fixed_header,
            r.variable_header == variable_header,
            r.client_id == client_id,
            r.last_will == last_will,
            r.login == login,
    {
        Self { fixed_header, variable_header, client_id, last_will, login }
    }

    /// The length of the body: fixed fields, client id, will and login.
    pub fn len(&self) -> (r: usize)
        requires
            connect_len_of(self@) <= usize::MAX,
        ensures
            r == connect_len_of(self@),
    {
        let mut len: usize = 12 + string_bytes_len(&self.client_id);
        if let Some(w) = &self.last_will {
            len = len + w.len();
        }
        if let Some(l) = &self.login {
            len = len + l.len();
        }
        len
    }

    /// Writes the packet, its remaining length computed from its body, with
    /// the flag bits set from its will and login. A packet that cannot be
    /// written leaves `buffer` as it was.
    #[verifier::rlimit(100)]
    #[verifier::spinoff_prover]
    pub fn encode(&self, buffer: &mut BytesMut) -> (r: Result<usize, ProtoError>)
        ensures
            match connect_encode_error(self@) {
                Some(e) => r == Err::<usize, ProtoError>(e) && buf_view(*final(buffer)) == buf_view(
                    *old(buffer),
                ),
                None => r == Ok::<usize, ProtoError>(connect_bytes(self@).len() as usize) && buf_view(
                    *final(buffer),
                ) == buf_view(*old(buffer)) + connect_bytes(self@),
            },
    {
        let ghost m = self@;
        let mut fits = string_bytes_len(&self.client_id) <= 65535;
        if let Some(w) = &self.last_will {
            fits = fits && string_bytes_len(&w.topic_name) <= 65535 && w.message.len() <= 65535;
        }
        if let Some(l) = &self.login {
            fits = fits && string_bytes_len(&l.username) <= 65535 && string_bytes_len(&l.password) <= 65535;
        }
        if !fits {
            return Err(ProtoError::EncodeVariableHeaderError);
        }
        let mut flags: u8 = if self.variable_header.connect_flags.clean_session { 2 } else { 0 };
        let mut will_part: Vec<u8> = Vec::new();
        if let Some(w) = &self.last_will {
            let f = w.write(&mut will_part)?;
            flags = flags + f;
        }
        let mut login_part: Vec<u8> = Vec::new();
        if let Some(l) = &self.login {
            flags = flags + l.write(&mut login_part);
        }
        proof {
            reveal(connect_flags_byte);
            assert(will_part@ =~= will_bytes(m.last_will));
            assert(login_part@ =~= login_bytes(m.login));
        }
        let mut body: Vec<u8> = Vec::new();
        body.push(0);
        body.push(4);
        body.push(77);
        body.push(81);
        body.push(84);
        body.push(84);
        let level: u8 = match self.variable_header.protocol_level {
            MqttVersion::V4 => 4,
            MqttVersion::V5 => 5,
        };
        body.push(level);
        body.push(flags);
        write_u16(&mut body, self.variable_header.keep_alive);
        write_mqtt_bytes(&mut body, self.client_id.as_str().as_bytes());
        crate::coder::append_bytes(&mut body, will_part.as_slice());
        crate::coder::append_bytes(&mut body, login_part.as_slice());
        proof {
            assert(mqtt_bytes(protocol_name_bytes()) =~= seq![0u8, 4u8, 77u8, 81u8, 84u8, 84u8]);
            assert(body@ =~= connect_body(m));
        }
        if body.len() > MAX_REMAINING_LENGTH {
            return Err(ProtoError::OutOfMaxRemainingLength(body.len()));
        }
        let header = FixedHeader {
            message_type: MessageType::CONNECT,
            dup: Some(false),
            qos: None,
            retain: Some(false),
            remaining_length: 0,
            len: 0,
        };
        proof {
            assert(crate::fixed_header::header_bytes(header, body@.len()) == crate::fixed_header::header_bytes(plain_header(MessageType::CONNECT), body@.len()));
        }
        encode_frame(&header, body.as_slice(), buffer)
    }

    /// Reads the CONNECT at the front of `stream`.
    pub fn decode(stream: &[u8]) -> (r: Result<Self, ProtoError>)
        ensures
            match parse_connect(stream@) {
                Ok(m) => r matches Ok(p) && p@ == m,
                Err(e) => r matches Err(x) && x == e,
            },
    {
        let (h, start, end) = decode_frame(stream)?;
        if h.message_type != MessageType::CONNECT {
            return Err(ProtoError::NotKnow);
        }
        let body = vstd::slice::slice_subrange(stream, start, end);
        proof {
            assert(tail(body@, 0) =~= body@);
        }
        let (variable_header, p1) = ConnectVariableHeader::decode(body, 0)?;
        let (client_id, p2) = read_mqtt_string(body, p1)?;
        let (last_will, p3) = LastWill::read_last_will(body, p2, &variable_header.connect_flags)?;
        let (login, p4) = Login::read_login(body, p3, &variable_header.connect_flags)?;
        if p4 != body.len() {
            return Err(ProtoError::NotKnow);
        }
        Ok(Connect { fixed_header: h, variable_header, client_id, last_will, login })
    }
}

} // verus!
