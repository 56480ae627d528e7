//! The MQTT 5.0 CONNECT variable header and payload: as in 3.1.1, with
//! properties after the keep-alive and in the will, four-byte length
//! prefixes on the will payload and the authentication data, and an
//! authentication method in place of the login.
use bytes::BytesMut;
use vstd::prelude::*;
use vstd::utf8::encode_utf8;

use crate::buffer::{buf_view, extend_from_slice};
use crate::coder::{
    append_bytes, be16, fits_string, lemma_string_round_trip, lemma_u16_round_trip,
    lemma_u8_round_trip, mqtt_bytes, mqtt_string, parse_mqtt_string, parse_u16, parse_u8,
    read_mqtt_string, read_u16, read_u8, tail, write_mqtt_bytes, write_u16,
};
use crate::connect::protocol_name_bytes;
use crate::error::ProtoError;
use crate::v5::{
    be32, lemma_be32, lemma_properties_round_trip, parse_properties, properties_bytes, tlv_bytes,
    u32_of, user_properties_fit, Properties, PropertiesView, MAX_PROPERTIES_LEN,
};
use crate::{qos_code, qos_of_code, QoS};

verus! {

/// The protocol level of MQTT 5.0.
pub const PROTOCOL_LEVEL: u8 = 5;

/// A version 5 will message, with its own properties.
#[derive(Debug, Clone, PartialEq, Eq)]
pub struct LastWill {
    pub topic: String,
    pub payload: Vec<u8>,
    pub qos: QoS,
    pub retain: bool,
    pub properties: Properties,
}

/// An authentication method and its data.
#[derive(Debug, Clone, PartialEq, Eq)]
pub struct Auth {
    pub method: String,
    pub data: Vec<u8>,
}

/// A version 5 CONNECT, without its fixed header.
#[derive(Debug, Clone, PartialEq, Eq)]
pub struct Connect {
    pub clean_start: bool,
    pub keep_alive: u16,
    pub properties: Properties,
    pub client_id: String,
    pub will: Option<LastWill>,
    pub auth: Option<Auth>,
}

pub struct LastWillView {
    pub topic: Seq<char>,
    pub payload: Seq<u8>,
    pub qos: QoS,
    pub retain: bool,
    pub properties: PropertiesView,
}

pub struct AuthView {
    pub method: Seq<char>,
    pub data: Seq<u8>,
}

/// The value of a version 5 CONNECT that the contracts speak of.
pub struct ConnectView {
    pub clean_start: bool,
    pub keep_alive: u16,
    pub properties: PropertiesView,
    pub client_id: Seq<char>,
    pub will: Option<LastWillView>,
    pub auth: Option<AuthView>,
}

impl View for LastWill {
    type V = LastWillView;

    open spec fn view(&self) -> LastWillView {
        LastWillView {
            topic: self.topic@,
            payload: self.payload@,
            qos: self.qos,
            retain: self.retain,
            properties: self.properties@,
        }
    }
}

impl View for Auth {
    type V = AuthView;

    open spec fn view(&self) -> AuthView {
        AuthView { method: self.method@, data: self.data@ }
    }
}

impl View for Connect {
    type V = ConnectView;

    open spec fn view(&self) -> ConnectView {
        ConnectView {
            clean_start: self.clean_start,
            keep_alive: self.keep_alive,
            properties: self.properties@,
            client_id: self.client_id@,
            will: match self.will {
                Some(w) => Some(w@),
                None => None,
            },
            auth: match self.auth {
                Some(a) => Some(a@),
                None => None,
            },
        }
    }
}

/// Bytes with a four-byte length prefix.
pub open spec fn sized_bytes(b: Seq<u8>) -> Seq<u8> {
    be32(b.len() as u32) + b
}

/// Reads bytes with a four-byte length prefix from the front of `s`.
pub open spec fn parse_sized(s: Seq<u8>) -> Result<(Seq<u8>, Seq<u8>), ProtoError> {
    if s.len() < 4 {
        Err(ProtoError::NotKnow)
    } else {
        let n = u32_of(s);
        let r = s.subrange(4, s.len() as int);
        if n > r.len() {
            Err(ProtoError::NotKnow)
        } else {
            Ok((r.subrange(0, n as int), r.subrange(n as int, r.len() as int)))
        }
    }
}

pub proof fn lemma_sized_round_trip(b: Seq<u8>, rest: Seq<u8>)
    requires
        b.len() <= u32::MAX,
    ensures
        parse_sized(sized_bytes(b) + rest) == Ok::<(Seq<u8>, Seq<u8>), ProtoError>((b, rest)),
{
    let s = sized_bytes(b) + rest;
    lemma_be32(b.len() as u32);
    assert(s.subrange(0, 4) =~= be32(b.len() as u32));
    assert(u32_of(s) == u32_of(be32(b.len() as u32)));
    let r = s.subrange(4, s.len() as int);
    assert(r =~= b + rest);
    assert(r.subrange(0, b.len() as int) =~= b);
    assert(r.subrange(b.len() as int, r.len() as int) =~= rest);
}

/// The connect flags byte: clean start, the will bits, and both login bits
/// when there is authentication.
pub open spec fn flags_byte(clean: bool, will: Option<LastWillView>, auth: Option<AuthView>) -> u8 {
    ((if auth is Some { 192nat } else { 0nat }) + (match will {
        Some(w) => (4 + 8 * qos_code(w.qos) + if w.retain { 32nat } else { 0nat }) as nat,
        None => 0nat,
    }) + if clean { 2nat } else { 0nat }) as u8
}

pub open spec fn will_bytes(will: Option<LastWillView>) -> Seq<u8> {
    match will {
        Some(w) => properties_bytes(w.properties) + mqtt_string(w.topic) + sized_bytes(w.payload),
        None => Seq::empty(),
    }
}

pub open spec fn auth_bytes(auth: Option<AuthView>) -> Seq<u8> {
    match auth {
        Some(a) => mqtt_string(a.method) + sized_bytes(a.data),
        None => Seq::empty(),
    }
}

/// The wire form of a version 5 CONNECT without its fixed header.
pub open spec fn connect_bytes(m: ConnectView) -> Seq<u8> {
    mqtt_bytes(protocol_name_bytes()) + seq![PROTOCOL_LEVEL, flags_byte(m.clean_start, m.will, m.auth)]
        + be16(m.keep_alive) + properties_bytes(m.properties) + mqtt_string(m.client_id)
        + will_bytes(m.will) + auth_bytes(m.auth)
}

/// Whether a property set can be written and read back as it is.
pub open spec fn properties_ok(p: PropertiesView) -> bool {
    tlv_bytes(p).len() <= MAX_PROPERTIES_LEN && user_properties_fit(p.user_properties)
}

/// Whether every length-prefixed field fits its prefix.
pub open spec fn fields_fit(m: ConnectView) -> bool {
    &&& fits_string(m.client_id)
    &&& (m.will matches Some(w) ==> fits_string(w.topic) && w.payload.len() <= u32::MAX)
    &&& (m.auth matches Some(a) ==> fits_string(a.method) && a.data.len() <= u32::MAX)
}

/// Why a version 5 CONNECT cannot be written, if it cannot.
pub open spec fn encode_error(m: ConnectView) -> Option<ProtoError> {
    if !fields_fit(m) {
        Some(ProtoError::EncodeVariableHeaderError)
    } else if tlv_bytes(m.properties).len() > MAX_PROPERTIES_LEN || (m.will matches Some(w) && tlv_bytes(
        w.properties,
    ).len() > MAX_PROPERTIES_LEN) {
        Some(ProtoError::OutOfMaxPropertySize)
    } else {
        None
    }
}

/// Reads name, level, flags byte and keep-alive from the front of `s`: the
/// name must be "MQTT", the level 5, the reserved bit clear.
#[verifier::opaque]
pub open spec fn parse_head(s: Seq<u8>) -> Result<(u8, u16, Seq<u8>), ProtoError> {
    match parse_mqtt_string(s) {
        Ok((name, r1)) => if encode_utf8(name) != protocol_name_bytes() {
            Err(ProtoError::NotKnow)
        } else {
            match parse_u8(r1) {
                Ok((lv, r2)) => if lv != PROTOCOL_LEVEL {
                    Err(ProtoError::UnsupportedVersion(lv))
                } else {
                    match parse_u8(r2) {
                        Ok((fb, r3)) => if fb % 2 == 1 {
                            Err(ProtoError::NotKnow)
                        } else {
                            match parse_u16(r3) {
                                Ok((ka, r4)) => Ok((fb, ka, r4)),
                                Err(e) => Err(e),
                            }
                        },
                        Err(e) => Err(e),
                    }
                },
                Err(e) => Err(e),
            }
        },
        Err(e) => Err(e),
    }
}

/// Reads the will from the front of `s` if the flags byte has its bit set.
#[verifier::opaque]
pub open spec fn parse_will(s: Seq<u8>, fb: u8) -> Result<(Option<LastWillView>, Seq<u8>), ProtoError> {
    if (fb / 4) % 2 == 0 {
        Ok((None, s))
    } else {
        match qos_of_code((fb / 8) % 4) {
            Ok(q) => match parse_properties(s) {
                Ok((p, r1)) => match parse_mqtt_string(r1) {
                    Ok((t, r2)) => match parse_sized(r2) {
                        Ok((payload, r3)) => Ok(
                            (
                                Some(
                                    LastWillView {
                                        topic: t,
                                        payload,
                                        qos: q,
                                        retain: (fb / 32) % 2 == 1,
                                        properties: p,
                                    },
                                ),
                                r3,
                            ),
                        ),
                        Err(e) => Err(e),
                    },
                    Err(e) => Err(e),
                },
                Err(e) => Err(e),
            },
            Err(e) => Err(e),
        }
    }
}

/// Reads the authentication from the front of `s` if the flags byte has its
/// top bit set.
#[verifier::opaque]
pub open spec fn parse_auth(s: Seq<u8>, fb: u8) -> Result<(Option<AuthView>, Seq<u8>), ProtoError> {
    if fb / 128 == 0 {
        Ok((None, s))
    } else {
        match parse_mqtt_string(s) {
            Ok((method, r1)) => match parse_sized(r1) {
                Ok((data, r2)) => Ok((Some(AuthView { method, data }), r2)),
                Err(e) => Err(e),
            },
            Err(e) => Err(e),
        }
    }
}

/// Reads a version 5 CONNECT that fills `s` exactly.
pub open spec fn parse_connect(s: Seq<u8>) -> Result<ConnectView, ProtoError> {
    match parse_head(s) {
        Ok((fb, ka, r1)) => match parse_properties(r1) {
            Ok((props, r2)) => match parse_mqtt_string(r2) {
                Ok((cid, r3)) => match parse_will(r3, fb) {
                    Ok((will, r4)) => match parse_auth(r4, fb) {
                        Ok((auth, r5)) => if r5.len() != 0 {
                            Err(ProtoError::NotKnow)
                        } else {
                            Ok(
                                ConnectView {
                                    clean_start: (fb / 2) % 2 == 1,
                                    keep_alive: ka,
                                    properties: props,
                                    client_id: cid,
                                    will,
                                    auth,
                                },
                            )
                        },
                        Err(e) => Err(e),
                    },
                    Err(e) => Err(e),
                },
                Err(e) => Err(e),
            },
            Err(e) => Err(e),
        },
        Err(e) => Err(e),
    }
}

/// Whether a version 5 CONNECT is one that decoding gives back.
pub open spec fn connect_wf(m: ConnectView) -> bool {
    &&& encode_error(m) is None
    &&& properties_ok(m.properties)
    &&& (m.will matches Some(w) ==> properties_ok(w.properties))
}

proof fn lemma_head_round_trip(fb: u8, ka: u16, rest: Seq<u8>, name: Seq<char>)
    requires
        fb % 2 == 0,
        encode_utf8(name) == protocol_name_bytes(),
    ensures
        parse_head(mqtt_string(name) + (seq![PROTOCOL_LEVEL] + (seq![fb] + (be16(ka) + rest)))) == Ok::<
            (u8, u16, Seq<u8>),
            ProtoError,
        >((fb, ka, rest)),
{
    reveal(parse_head);
    let r3 = be16(ka) + rest;
    let r2 = seq![fb] + r3;
    let r1 = seq![PROTOCOL_LEVEL] + r2;
    lemma_string_round_trip(name, r1);
    lemma_u8_round_trip(PROTOCOL_LEVEL, r2);
    lemma_u8_round_trip(fb, r3);
    lemma_u16_round_trip(ka, rest);
}

proof fn lemma_flags_bits(clean: bool, will: Option<LastWillView>, auth: Option<AuthView>)
    ensures
        ({
            let fb = flags_byte(clean, will, auth);
            &&& fb % 2 == 0
            &&& ((fb / 2) % 2 == 1) == clean
            &&& ((fb / 4) % 2 == 1) == will is Some
            &&& (will matches Some(w) ==> (fb / 8) % 4 == qos_code(w.qos) && ((fb / 32) % 2 == 1) == w.retain)
            &&& (fb / 128 == 1) == auth is Some
            &&& fb / 128 <= 1
        }),
{
}

proof fn lemma_some_will_round_trip(w: LastWillView, fb: u8, rest: Seq<u8>)
    requires
        properties_ok(w.properties),
        fits_string(w.topic),
        w.payload.len() <= u32::MAX,
        (fb / 4) % 2 == 1,
        (fb / 8) % 4 == qos_code(w.qos),
        ((fb / 32) % 2 == 1) == w.retain,
    ensures
        parse_will(will_bytes(Some(w)) + rest, fb) == Ok::<(Option<LastWillView>, Seq<u8>), ProtoError>(
            (Some(w), rest),
        ),
{
    reveal(parse_will);
    crate::lemma_qos_code_round_trip(w.qos);
    let r2 = sized_bytes(w.payload) + rest;
    let r1 = mqtt_string(w.topic) + r2;
    assert(will_bytes(Some(w)) + rest =~= properties_bytes(w.properties) + r1);
    lemma_properties_round_trip(w.properties, r1);
    lemma_string_round_trip(w.topic, r2);
    lemma_sized_round_trip(w.payload, rest);
}

proof fn lemma_will_round_trip(m: ConnectView, rest: Seq<u8>)
    requires
        connect_wf(m),
    ensures
        parse_will(will_bytes(m.will) + rest, flags_byte(m.clean_start, m.will, m.auth)) == Ok::<
            (Option<LastWillView>, Seq<u8>),
            ProtoError,
        >((m.will, rest)),
{
    let fb = flags_byte(m.clean_start, m.will, m.auth);
    lemma_flags_bits(m.clean_start, m.will, m.auth);
    match m.will {
        Some(w) => {
            lemma_some_will_round_trip(w, fb, rest);
        },
        None => {
            reveal(parse_will);
            assert(will_bytes(m.will) + rest =~= rest);
        },
    }
}

proof fn lemma_auth_round_trip(m: ConnectView, rest: Seq<u8>)
    requires
        connect_wf(m),
    ensures
        parse_auth(auth_bytes(m.auth) + rest, flags_byte(m.clean_start, m.will, m.auth)) == Ok::<
            (Option<AuthView>, Seq<u8>),
            ProtoError,
        >((m.auth, rest)),
{
    reveal(parse_auth);
    let fb = flags_byte(m.clean_start, m.will, m.auth);
    lemma_flags_bits(m.clean_start, m.will, m.auth);
    match m.auth {
        Some(a) => {
            assert(fb / 128 == 1);
            assert(auth_bytes(m.auth) + rest =~= mqtt_string(a.method) + (sized_bytes(a.data) + rest));
            lemma_string_round_trip(a.method, sized_bytes(a.data) + rest);
            lemma_sized_round_trip(a.data, rest);
        },
        None => {
            assert(fb / 128 == 0);
            assert(auth_bytes(m.auth) + rest =~= rest);
        },
    }
}

/// A well-formed version 5 CONNECT is read back from its wire form, every
/// field as it was.
#[verifier::rlimit(100)]
#[verifier::spinoff_prover]
pub proof fn lemma_connect_round_trip(m: ConnectView)
    requires
        connect_wf(m),
    ensures
        parse_connect(connect_bytes(m)) == Ok::<ConnectView, ProtoError>(m),
{
    let name = crate::connect::protocol_name_chars();
    crate::connect::lemma_protocol_name();
    let fb = flags_byte(m.clean_start, m.will, m.auth);
    let ab = auth_bytes(m.auth);
    let r4 = will_bytes(m.will) + ab;
    let r3 = mqtt_string(m.client_id) + r4;
    let r2 = properties_bytes(m.properties) + r3;
    assert(connect_bytes(m) =~= mqtt_string(name) + (seq![PROTOCOL_LEVEL] + (seq![fb] + (be16(m.keep_alive) + r2))));
    lemma_flags_bits(m.clean_start, m.will, m.auth);
    lemma_head_round_trip(fb, m.keep_alive, r2, name);
    lemma_properties_round_trip(m.properties, r3);
    lemma_string_round_trip(m.client_id, r4);
    lemma_will_round_trip(m, ab);
    lemma_auth_round_trip(m, Seq::empty());
    assert(ab + Seq::<u8>::empty() =~= ab);
}

/// Appends `v` as four bytes, most significant first.
fn write_u32(out: &mut Vec<u8>, v: u32)
    ensures
        final(out)@ == old(out)@ + be32(v),
{
    out.push((v / 0x100_0000) as u8);
    out.push(((v / 0x1_0000) % 256) as u8);
    out.push(((v / 256) % 256) as u8);
    out.push((v % 256) as u8);
    assert(out@ =~= old(out)@ + be32(v));
}

/// Appends `b` with its four-byte length prefix.
fn write_sized(out: &mut Vec<u8>, b: &[u8])
    requires
        b@.len() <= u32::MAX,
    ensures
        final(out)@ == old(out)@ + sized_bytes(b@),
{
    write_u32(out, b.len() as u32);
    append_bytes(out, b);
    assert(out@ =~= old(out)@ + sized_bytes(b@));
}

/// Reads bytes with a four-byte length prefix at `pos`.
fn read_sized(stream: &[u8], pos: usize) -> (r: Result<(Vec<u8>, usize), ProtoError>)
    requires
        pos <= stream@.len(),
    ensures
        match parse_sized(tail(stream@, pos as int)) {
            Ok((v, rest)) => r matches Ok((x, p)) && x@ == v && p <= stream@.len() && rest == tail(stream@, p as int),
            Err(e) => r matches Err(x) && x == e,
        },
{
    if stream.len() - pos < 4 {
        return Err(ProtoError::NotKnow);
    }
    let n: u32 = (stream[pos] as u32) * 0x100_0000 + (stream[pos + 1] as u32) * 0x1_0000
        + (stream[pos + 2] as u32) * 256 + (stream[pos + 3] as u32);
    let ghost t = tail(stream@, pos as int);
    assert(u32_of(t) == n);
    let p = pos + 4;
    if n as u64 > (stream.len() - p) as u64 {
        return Err(ProtoError::NotKnow);
    }
    let len = n as usize;
    let v = vstd::slice::slice_to_vec(vstd::slice::slice_subrange(stream, p, p + len));
    proof {
        let r = t.subrange(4, t.len() as int);
        assert(r =~= tail(stream@, p as int));
        assert(r.subrange(0, len as int) =~= v@);
        assert(r.subrange(len as int, r.len() as int) =~= tail(stream@, p + len));
    }
    Ok((v, p + len))
}

fn read_head(stream: &[u8]) -> (r: Result<(u8, u16, usize), ProtoError>)
    ensures
        match parse_head(stream@) {
            Ok((fb, ka, rest)) => r matches Ok((x, y, p)) && x == fb && y == ka && p <= stream@.len() && rest == tail(stream@, p as int),
            Err(e) => r matches Err(x) && x == e,
        },
{
    reveal(parse_head);
    assert(tail(stream@, 0) =~= stream@);
    let (name, p1) = read_mqtt_string(stream, 0)?;
    let b = name.as_str().as_bytes();
    if !(b.len() == 4 && b[0] == 77 && b[1] == 81 && b[2] == 84 && b[3] == 84) {
        assert(encode_utf8(name@) != protocol_name_bytes());
        return Err(ProtoError::NotKnow);
    }
    assert(encode_utf8(name@) =~= protocol_name_bytes());
    let (level, p2) = read_u8(stream, p1)?;
    if level != PROTOCOL_LEVEL {
        return Err(ProtoError::UnsupportedVersion(level));
    }
    let (fb, p3) = read_u8(stream, p2)?;
    if fb % 2 == 1 {
        return Err(ProtoError::NotKnow);
    }
    let (ka, p4) = read_u16(stream, p3)?;
    Ok((fb, ka, p4))
}

fn read_will(stream: &[u8], pos: usize, fb: u8) -> (r: Result<(Option<LastWill>, usize), ProtoError>)
    requires
        pos <= stream@.len(),
    ensures
        match parse_will(tail(stream@, pos as int), fb) {
            Ok((w, rest)) => r matches Ok((x, p)) && p <= stream@.len() && rest == tail(stream@, p as int)
                && match x {
                    Some(y) => w == Some(y@),
                    None => w is None,
                },
            Err(e) => r matches Err(x) && x == e,
        },
{
    reveal(parse_will);
    if (fb / 4) % 2 == 0 {
        return Ok((None, pos));
    }
    let qos = QoS::try_from((fb / 8) % 4)?;
    let (properties, p1) = Properties::decode(stream, pos)?;
    let (topic, p2) = read_mqtt_string(stream, p1)?;
    let (payload, p3) = read_sized(stream, p2)?;
    Ok((Some(LastWill { topic, payload, qos, retain: (fb / 32) % 2 == 1, properties }), p3))
}

fn read_auth(stream: &[u8], pos: usize, fb: u8) -> (r: Result<(Option<Auth>, usize), ProtoError>)
    requires
        pos <= stream@.len(),
    ensures
        match parse_auth(tail(stream@, pos as int), fb) {
            Ok((a, rest)) => r matches Ok((x, p)) && p <= stream@.len() && rest == tail(stream@, p as int)
                && match x {
                    Some(y) => a == Some(y@),
                    None => a is None,
                },
            Err(e) => r matches Err(x) && x == e,
        },
{
    reveal(parse_auth);
    if fb / 128 == 0 {
        return Ok((None, pos));
    }
    let (method, p1) = read_mqtt_string(stream, pos)?;
    let (data, p2) = read_sized(stream, p1)?;
    Ok((Some(Auth { method, data }), p2))
}

impl Connect {
    /// A CONNECT with no properties, will or authentication.
    pub fn new(client_id: String, keep_alive: u16, clean_start: bool) -> (r: Self)
        ensures
            r.client_id == client_id,
            r.keep_alive == keep_alive,
            r.clean_start == clean_start,
            r@.properties == crate::v5::no_properties(),
            r.will is None,
            r.auth is None,
    {
        Self { clean_start, keep_alive, properties: Properties::new(), client_id, will: None, auth: None }
    }

    pub fn with_will(self, will: LastWill) -> (r: Self)
        ensures
            r == (Connect { will: Some(will), ..self }),
    {
        let mut c = self;
        c.will = Some(will);
        c
    }

    pub fn with_auth(self, auth: Auth) -> (r: Self)
        ensures
            r == (Connect { auth: Some(auth), ..self }),
    {
        let mut c = self;
        c.auth = Some(auth);
        c
    }

    pub fn with_properties(self, properties: Properties) -> (r: Self)
        ensures
            r == (Connect { properties, ..self }),
    {
        let mut c = self;
        c.properties = properties;
        c
    }

    /// Writes the packet without its fixed header. A packet that cannot be
    /// written leaves `buffer` as it was.
    #[verifier::rlimit(100)]
    #[verifier::spinoff_prover]
    pub fn encode(&self, buffer: &mut BytesMut) -> (r: Result<usize, ProtoError>)
        ensures
            match encode_error(self@) {
                Some(e) => r == Err::<usize, ProtoError>(e) && buf_view(*final(buffer)) == buf_view(*old(buffer)),
                None => r == Ok::<usize, ProtoError>(connect_bytes(self@).len() as usize) && buf_view(*final(buffer))
                    == buf_view(*old(buffer)) + connect_bytes(self@),
            },
    {
        let ghost m = self@;
        let mut fits = self.client_id.as_str().as_bytes().len() <= 65535;
        if let Some(w) = &self.will {
            fits = fits && w.topic.as_str().as_bytes().len() <= 65535 && (w.payload.len() as u64) <= 0xFFFF_FFFF;
        }
        if let Some(a) = &self.auth {
            fits = fits && a.method.as_str().as_bytes().len() <= 65535 && (a.data.len() as u64) <= 0xFFFF_FFFF;
        }
        if !fits {
            return Err(ProtoError::EncodeVariableHeaderError);
        }
        let mut flags: u8 = if self.clean_start { 2 } else { 0 };
        if let Some(w) = &self.will {
            let r: u8 = if w.retain { 32 } else { 0 };
            flags = flags + 4 + 8 * w.qos.code() + r;
        }
        if self.auth.is_some() {
            flags = flags + 192;
        }
        let mut body: Vec<u8> = Vec::new();
        body.push(0);
        body.push(4);
        body.push(77);
        body.push(81);
        body.push(84);
        body.push(84);
        body.push(PROTOCOL_LEVEL);
        body.push(flags);
        write_u16(&mut body, self.keep_alive);
        let ghost head = body@;
        self.properties.write_to(&mut body)?;
        write_mqtt_bytes(&mut body, self.client_id.as_str().as_bytes());
        let ghost before_will = body@;
        if let Some(w) = &self.will {
            w.properties.write_to(&mut body)?;
            write_mqtt_bytes(&mut body, w.topic.as_str().as_bytes());
            write_sized(&mut body, w.payload.as_slice());
        }
        proof {
            assert(body@ =~= before_will + will_bytes(m.will));
        }
        let ghost before_auth = body@;
        if let Some(a) = &self.auth {
            write_mqtt_bytes(&mut body, a.method.as_str().as_bytes());
            write_sized(&mut body, a.data.as_slice());
        }
        proof {
            assert(body@ =~= before_auth + auth_bytes(m.auth));
            assert(mqtt_bytes(protocol_name_bytes()) =~= seq![0u8, 4u8, 77u8, 81u8, 84u8, 84u8]);
            assert(head =~= mqtt_bytes(protocol_name_bytes()) + seq![PROTOCOL_LEVEL, flags_byte(m.clean_start, m.will, m.auth)] + be16(m.keep_alive));
            assert(body@ =~= connect_bytes(m));
        }
        extend_from_slice(buffer, body.as_slice());
        Ok(body.len())
    }

    /// Reads a version 5 CONNECT, without its fixed header, that fills
    /// `stream`.
    pub fn decode(stream: &[u8]) -> (r: Result<Self, ProtoError>)
        ensures
            match parse_connect(stream@) {
                Ok(m) => r matches Ok(c) && c@ == m,
                Err(e) => r matches Err(x) && x == e,
            },
    {
        let (fb, keep_alive, p1) = read_head(stream)?;
        let (properties, p2) = Properties::decode(stream, p1)?;
        let (client_id, p3) = read_mqtt_string(stream, p2)?;
        let (will, p4) = read_will(stream, p3, fb)?;
        let (auth, p5) = read_auth(stream, p4, fb)?;
        if p5 != stream.len() {
            return Err(ProtoError::NotKnow);
        }
        Ok(Connect { clean_start: (fb / 2) % 2 == 1, keep_alive, properties, client_id, will, auth })
    }
}

} // verus!
