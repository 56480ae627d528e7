//! MQTT 5.0: properties (a length-prefixed run of tagged values), connect
//! reason codes, and the CONNACK variable header that carries both.
use bytes::BytesMut;
use vstd::prelude::*;

use crate::buffer::{buf_view, extend_from_slice, put_u8};
use crate::coder::{
    append_bytes, be16, fits_string, lemma_string_round_trip, lemma_u16_round_trip,
    mqtt_string, parse_mqtt_string, read_mqtt_string, tail, write_mqtt_bytes,
    write_u16,
};
use crate::error::ProtoError;
use crate::varint::{
    decode_remaining_length, encode_remaining_len, lemma_varint_round_trip, parse_varint, varint,
    varint_bytes, varint_len,
};

verus! {

/// The largest number of bytes the properties may take.
pub const MAX_PROPERTIES_LEN: usize = 65535;

/// Identifier of the Session Expiry Interval property (four bytes).
pub const SESSION_EXPIRY_INTERVAL: u8 = 0x11;

/// Identifier of the Receive Maximum property (two bytes).
pub const RECEIVE_MAXIMUM: u8 = 0x12;

/// Identifier of a User Property (a key and a value string); it may repeat.
pub const USER_PROPERTY: u8 = 0x26;

/// The properties this codec knows.
#[derive(Debug, Clone, PartialEq, Eq)]
pub struct Properties {
    pub session_expiry_interval: Option<u32>,
    pub receive_maximum: Option<u16>,
    pub user_properties: Vec<(String, String)>,
}

/// The value of a property set that the contracts speak of.
pub struct PropertiesView {
    pub session_expiry_interval: Option<u32>,
    pub receive_maximum: Option<u16>,
    pub user_properties: Seq<(Seq<char>, Seq<char>)>,
}

/// The key and value of a user property as the contracts see them.
pub open spec fn pair_view(p: (String, String)) -> (Seq<char>, Seq<char>) {
    (p.0@, p.1@)
}

impl View for Properties {
    type V = PropertiesView;

    open spec fn view(&self) -> PropertiesView {
        PropertiesView {
            session_expiry_interval: self.session_expiry_interval,
            receive_maximum: self.receive_maximum,
            user_properties: self.user_properties@.map_values(|p: (String, String)| pair_view(p)),
        }
    }
}

/// The four bytes of `v`, most significant first.
pub open spec fn be32(v: u32) -> Seq<u8> {
    seq![
        (v / 0x100_0000) as u8,
        ((v / 0x1_0000) % 256) as u8,
        ((v / 256) % 256) as u8,
        (v % 256) as u8,
    ]
}

/// The value of four bytes, most significant first.
pub open spec fn u32_of(s: Seq<u8>) -> u32 {
    (s[0] * 0x100_0000 + s[1] * 0x1_0000 + s[2] * 256 + s[3]) as u32
}

pub proof fn lemma_be32(v: u32)
    ensures
        u32_of(be32(v)) == v,
        be32(v).len() == 4,
{
    let b = be32(v);
    assert(v == (v / 0x100_0000) * 0x100_0000 + ((v / 0x1_0000) % 256) * 0x1_0000 + ((v / 256)
        % 256) * 256 + v % 256) by (nonlinear_arith);
}

/// The wire form of one user property.
pub open spec fn user_property_bytes(p: (Seq<char>, Seq<char>)) -> Seq<u8> {
    seq![USER_PROPERTY] + mqtt_string(p.0) + mqtt_string(p.1)
}

/// The wire form of a list of user properties, in order.
pub open spec fn user_properties_bytes(us: Seq<(Seq<char>, Seq<char>)>) -> Seq<u8>
    decreases us.len(),
{
    if us.len() == 0 {
        Seq::empty()
    } else {
        user_property_bytes(us[0]) + user_properties_bytes(us.drop_first())
    }
}

/// The tagged values of a property set: session expiry interval, receive
/// maximum, then the user properties in order.
pub open spec fn tlv_bytes(p: PropertiesView) -> Seq<u8> {
    (match p.session_expiry_interval {
        Some(v) => seq![SESSION_EXPIRY_INTERVAL] + be32(v),
        None => Seq::empty(),
    }) + (match p.receive_maximum {
        Some(v) => seq![RECEIVE_MAXIMUM] + be16(v),
        None => Seq::empty(),
    }) + user_properties_bytes(p.user_properties)
}

/// The wire form of a property set: its length as a variable-length
/// integer, then its tagged values.
pub open spec fn properties_bytes(p: PropertiesView) -> Seq<u8> {
    varint(tlv_bytes(p).len()) + tlv_bytes(p)
}

/// The empty property set.
pub open spec fn no_properties() -> PropertiesView {
    PropertiesView { session_expiry_interval: None, receive_maximum: None, user_properties: Seq::empty() }
}

/// Reads tagged values until `s` is used up, adding them to `acc`. An
/// unknown identifier is an `UnknownProperty`, a user property without both
/// halves a `MalformedUserProperty`, a truncated number an error too.
#[verifier::opaque]
pub open spec fn parse_tlvs(s: Seq<u8>, acc: PropertiesView) -> Result<PropertiesView, ProtoError>
    decreases s.len(),
{
    if s.len() == 0 {
        Ok(acc)
    } else {
        let id = s[0];
        let r = s.drop_first();
        if id == SESSION_EXPIRY_INTERVAL {
            if r.len() >= 4 {
                parse_tlvs(
                    r.subrange(4, r.len() as int),
                    PropertiesView { session_expiry_interval: Some(u32_of(r)), ..acc },
                )
            } else {
                Err(ProtoError::NotKnow)
            }
        } else if id == RECEIVE_MAXIMUM {
            if r.len() >= 2 {
                parse_tlvs(
                    r.subrange(2, r.len() as int),
                    PropertiesView { receive_maximum: Some((r[0] * 256 + r[1]) as u16), ..acc },
                )
            } else {
                Err(ProtoError::NotKnow)
            }
        } else if id == USER_PROPERTY {
            match parse_mqtt_string(r) {
                Ok((k, r2)) => match parse_mqtt_string(r2) {
                    Ok((v, r3)) => if r3.len() < s.len() {
                        parse_tlvs(r3, PropertiesView { user_properties: acc.user_properties.push((k, v)), ..acc })
                    } else {
                        Err(ProtoError::MalformedUserProperty)
                    },
                    Err(_) => Err(ProtoError::MalformedUserProperty),
                },
                Err(_) => Err(ProtoError::MalformedUserProperty),
            }
        } else {
            Err(ProtoError::UnknownProperty(id))
        }
    }
}

/// Reads a property set from the front of `s`: the length, then exactly that
/// many bytes of tagged values. A length past the end of `s` is an
/// `InvalidPropertyLength`.
pub open spec fn parse_properties(s: Seq<u8>) -> Result<(PropertiesView, Seq<u8>), ProtoError> {
    match parse_varint(s) {
        Ok((n, c)) => if c + n > s.len() {
            Err(ProtoError::InvalidPropertyLength(n as usize))
        } else {
            match parse_tlvs(s.subrange(c as int, (c + n) as int), no_properties()) {
                Ok(p) => Ok((p, s.subrange((c + n) as int, s.len() as int))),
                Err(e) => Err(e),
            }
        },
        Err(e) => Err(e),
    }
}

proof fn lemma_tlv_user(k: Seq<char>, v: Seq<char>, rest: Seq<u8>, acc: PropertiesView)
    requires
        fits_string(k),
        fits_string(v),
    ensures
        parse_tlvs(user_property_bytes((k, v)) + rest, acc) == parse_tlvs(
            rest,
            PropertiesView { user_properties: acc.user_properties.push((k, v)), ..acc },
        ),
{
    let s = user_property_bytes((k, v)) + rest;
    assert(s.drop_first() =~= mqtt_string(k) + (mqtt_string(v) + rest));
    lemma_string_round_trip(k, mqtt_string(v) + rest);
    lemma_string_round_trip(v, rest);
    reveal_with_fuel(parse_tlvs, 1);
}

proof fn lemma_tlv_sei(v: u32, rest: Seq<u8>, acc: PropertiesView)
    ensures
        parse_tlvs(seq![SESSION_EXPIRY_INTERVAL] + be32(v) + rest, acc) == parse_tlvs(
            rest,
            PropertiesView { session_expiry_interval: Some(v), ..acc },
        ),
{
    let x = seq![SESSION_EXPIRY_INTERVAL] + be32(v) + rest;
    lemma_be32(v);
    assert(x.drop_first().subrange(4, x.drop_first().len() as int) =~= rest);
    assert(x.drop_first().subrange(0, 4) =~= be32(v));
    assert(u32_of(x.drop_first()) == u32_of(be32(v)));
    reveal_with_fuel(parse_tlvs, 1);
}

proof fn lemma_tlv_rm(v: u16, rest: Seq<u8>, acc: PropertiesView)
    ensures
        parse_tlvs(seq![RECEIVE_MAXIMUM] + be16(v) + rest, acc) == parse_tlvs(
            rest,
            PropertiesView { receive_maximum: Some(v), ..acc },
        ),
{
    let x = seq![RECEIVE_MAXIMUM] + be16(v) + rest;
    assert(x.drop_first() =~= be16(v) + rest);
    lemma_u16_round_trip(v, rest);
    assert(x.drop_first().subrange(2, x.drop_first().len() as int) =~= rest);
    reveal_with_fuel(parse_tlvs, 1);
}

proof fn lemma_user_properties_round_trip(us: Seq<(Seq<char>, Seq<char>)>, acc: PropertiesView)
    requires
        forall|i: int| 0 <= i < us.len() ==> fits_string((#[trigger] us[i]).0) && fits_string(us[i].1),
    ensures
        parse_tlvs(user_properties_bytes(us), acc) == Ok::<PropertiesView, ProtoError>(
            PropertiesView { user_properties: acc.user_properties + us, ..acc },
        ),
    decreases us.len(),
{
    if us.len() == 0 {
        assert(acc.user_properties + us =~= acc.user_properties);
        reveal_with_fuel(parse_tlvs, 1);
    } else {
        let (k, v) = us[0];
        let rest = user_properties_bytes(us.drop_first());
        assert(fits_string(us[0].0) && fits_string(us[0].1));
        lemma_tlv_user(k, v, rest, acc);
        let acc2 = PropertiesView { user_properties: acc.user_properties.push((k, v)), ..acc };
        assert(forall|i: int| 0 <= i < us.drop_first().len() ==> us.drop_first()[i] == us[i + 1]);
        lemma_user_properties_round_trip(us.drop_first(), acc2);
        assert(acc2.user_properties + us.drop_first() =~= acc.user_properties + us);
    }
}

/// Whether every user property's key and value fit their length prefixes.
pub open spec fn user_properties_fit(us: Seq<(Seq<char>, Seq<char>)>) -> bool {
    forall|i: int| 0 <= i < us.len() ==> fits_string((#[trigger] us[i]).0) && fits_string(us[i].1)
}

/// A property set that fits the size bound is read back from its wire form,
/// whatever follows it.
pub proof fn lemma_properties_round_trip(p: PropertiesView, rest: Seq<u8>)
    requires
        tlv_bytes(p).len() <= MAX_PROPERTIES_LEN,
        user_properties_fit(p.user_properties),
    ensures
        parse_properties(properties_bytes(p) + rest) == Ok::<(PropertiesView, Seq<u8>), ProtoError>((p, rest)),
{
    let t = tlv_bytes(p);
    let s = properties_bytes(p) + rest;
    lemma_varint_round_trip(t.len(), t + rest);
    assert(s =~= varint(t.len()) + (t + rest));
    crate::varint::lemma_varint_len(t.len());
    let c = varint_len(t.len());
    assert(s.subrange(c as int, (c + t.len()) as int) =~= t);
    assert(s.subrange((c + t.len()) as int, s.len() as int) =~= rest);
    let a1 = match p.session_expiry_interval {
        Some(v) => PropertiesView { session_expiry_interval: Some(v), ..no_properties() },
        None => no_properties(),
    };
    let a2 = match p.receive_maximum {
        Some(v) => PropertiesView { receive_maximum: Some(v), ..a1 },
        None => a1,
    };
    let ub = user_properties_bytes(p.user_properties);
    lemma_user_properties_round_trip(p.user_properties, a2);
    assert(Seq::<(Seq<char>, Seq<char>)>::empty() + p.user_properties =~= p.user_properties);
    let rm_part = match p.receive_maximum {
        Some(v) => seq![RECEIVE_MAXIMUM] + be16(v),
        None => Seq::empty(),
    };
    if let Some(v) = p.receive_maximum {
        lemma_tlv_rm(v, ub, a1);
    } else {
        assert(rm_part + ub =~= ub);
    }
    if let Some(v) = p.session_expiry_interval {
        assert(t =~= seq![SESSION_EXPIRY_INTERVAL] + be32(v) + (rm_part + ub));
        lemma_tlv_sei(v, rm_part + ub, no_properties());
        assert(a1 == PropertiesView { session_expiry_interval: Some(v), ..no_properties() });
    } else {
        assert(t =~= rm_part + ub);
    }
}

proof fn lemma_user_properties_bytes_append(a: Seq<(Seq<char>, Seq<char>)>, b: Seq<(Seq<char>, Seq<char>)>)
    ensures
        user_properties_bytes(a + b) == user_properties_bytes(a) + user_properties_bytes(b),
    decreases a.len(),
{
    if a.len() == 0 {
        assert(a + b =~= b);
        assert(user_properties_bytes(a) + user_properties_bytes(b) =~= user_properties_bytes(b));
    } else {
        lemma_user_properties_bytes_append(a.drop_first(), b);
        assert((a + b).drop_first() =~= a.drop_first() + b);
        assert((a + b)[0] == a[0]);
        assert(user_properties_bytes(a + b) =~= user_properties_bytes(a) + user_properties_bytes(b));
    }
}

proof fn lemma_user_properties_bytes_one(x: (Seq<char>, Seq<char>))
    ensures
        user_properties_bytes(seq![x]) == user_property_bytes(x),
{
    assert(seq![x].drop_first() =~= Seq::<(Seq<char>, Seq<char>)>::empty());
    assert(seq![x][0] == x);
    assert(user_properties_bytes(Seq::<(Seq<char>, Seq<char>)>::empty()) == Seq::<u8>::empty());
    assert(user_property_bytes(x) + Seq::<u8>::empty() =~= user_property_bytes(x));
}

/// Writes tagged values with their length in front.
fn write_tlv(tlv: &Vec<u8>, buffer: &mut BytesMut) -> (r: Result<usize, ProtoError>)
    requires
        tlv@.len() <= MAX_PROPERTIES_LEN,
    ensures
        r == Ok::<usize, ProtoError>((varint(tlv@.len()) + tlv@).len() as usize),
        buf_view(*final(buffer)) == buf_view(*old(buffer)) + varint(tlv@.len()) + tlv@,
{
    let n = encode_remaining_len(tlv.len(), buffer);
    proof {
        crate::varint::lemma_varint_len(tlv@.len());
    }
    extend_from_slice(buffer, tlv.as_slice());
    match n {
        Ok(c) => Ok(c + tlv.len()),
        Err(e) => Err(e),
    }
}


/// Reads one tagged value at `p` in `region` into `props`; returns the
/// position after it.
#[verifier::rlimit(100)]
#[verifier::spinoff_prover]
fn read_tlv(region: &[u8], p: usize, props: &mut Properties) -> (r: Result<usize, ProtoError>)
    requires
        p < region@.len(),
    ensures
        match r {
            Ok(q) => p < q <= region@.len() && parse_tlvs(tail(region@, p as int), old(props)@)
                == parse_tlvs(tail(region@, q as int), final(props)@),
            Err(e) => parse_tlvs(tail(region@, p as int), old(props)@) == Err::<PropertiesView, ProtoError>(e),
        },
{
        let ghost t = tail(region@, p as int);
        let ghost before = props@;
        proof {
            assert(t.drop_first() =~= tail(region@, p + 1));
        }
        let id = region[p];
        if id == SESSION_EXPIRY_INTERVAL {
            if region.len() - (p + 1) < 4 {
                proof {
                    reveal_with_fuel(parse_tlvs, 1);
                    assert(parse_tlvs(t, before) == Err::<PropertiesView, ProtoError>(ProtoError::NotKnow));
                }
                return Err(ProtoError::NotKnow);
            }
            let v: u32 = (region[p + 1] as u32) * 0x100_0000 + (region[p + 2] as u32) * 0x1_0000
                + (region[p + 3] as u32) * 256 + (region[p + 4] as u32);
            props.session_expiry_interval = Some(v);
            proof {
                reveal_with_fuel(parse_tlvs, 1);
                assert(t.drop_first().subrange(4, t.drop_first().len() as int) =~= tail(region@, p + 5));
                assert(u32_of(t.drop_first()) == v);
                assert(parse_tlvs(t, before) == parse_tlvs(tail(region@, p + 5), props@));
            }
            return Ok(p + 5);
        } else if id == RECEIVE_MAXIMUM {
            if region.len() - (p + 1) < 2 {
                proof {
                    reveal_with_fuel(parse_tlvs, 1);
                    assert(parse_tlvs(t, before) == Err::<PropertiesView, ProtoError>(ProtoError::NotKnow));
                }
                return Err(ProtoError::NotKnow);
            }
            let v: u16 = (region[p + 1] as u16) * 256 + (region[p + 2] as u16);
            props.receive_maximum = Some(v);
            proof {
                reveal_with_fuel(parse_tlvs, 1);
                assert(t.drop_first().subrange(2, t.drop_first().len() as int) =~= tail(region@, p + 3));
                assert(parse_tlvs(t, before) == parse_tlvs(tail(region@, p + 3), props@));
            }
            return Ok(p + 3);
        } else if id == USER_PROPERTY {
            let (k, p1) = match read_mqtt_string(region, p + 1) {
                Ok(x) => x,
                Err(_) => {
                    proof {
                        reveal_with_fuel(parse_tlvs, 1);
                        assert(parse_tlvs(t, before) == Err::<PropertiesView, ProtoError>(ProtoError::MalformedUserProperty));
                    }
                    return Err(ProtoError::MalformedUserProperty);
                },
            };
            let (v, p2) = match read_mqtt_string(region, p1) {
                Ok(x) => x,
                Err(_) => {
                    proof {
                        reveal_with_fuel(parse_tlvs, 1);
                        assert(parse_tlvs(t, before) == Err::<PropertiesView, ProtoError>(ProtoError::MalformedUserProperty));
                    }
                    return Err(ProtoError::MalformedUserProperty);
                },
            };
            let ghost kv = (k@, v@);
            let ghost old_users = props@.user_properties;
            props.user_properties.push((k, v));
            proof {
                assert(props@.user_properties =~= old_users.push(kv));
                reveal_with_fuel(parse_tlvs, 1);
                assert(parse_tlvs(t, before) == parse_tlvs(tail(region@, p2 as int), props@));
            }
            return Ok(p2);
        } else {
            proof {
                reveal_with_fuel(parse_tlvs, 1);
                assert(parse_tlvs(t, before) == Err::<PropertiesView, ProtoError>(ProtoError::UnknownProperty(id)));
            }
            return Err(ProtoError::UnknownProperty(id));
        }
    }

impl Properties {
    /// An empty property set.
    pub fn new() -> (r: Self)
        ensures
            r@ == no_properties(),
    {
        let r = Properties {
            session_expiry_interval: None,
            receive_maximum: None,
            user_properties: Vec::new(),
        };
        assert(r@.user_properties =~= Seq::<(Seq<char>, Seq<char>)>::empty());
        r
    }

    /// Writes the property set: its length, then the session expiry
    /// interval, the receive maximum and the user properties. If the tagged
    /// values would take more than 65,535 bytes, nothing is written and the
    /// result is `OutOfMaxPropertySize`.
    pub fn encode(&self, buffer: &mut BytesMut) -> (r: Result<usize, ProtoError>)
        ensures
            tlv_bytes(self@).len() > MAX_PROPERTIES_LEN ==> r == Err::<usize, ProtoError>(
                ProtoError::OutOfMaxPropertySize,
            ) && buf_view(*final(buffer)) == buf_view(*old(buffer)),
            tlv_bytes(self@).len() <= MAX_PROPERTIES_LEN ==> r == Ok::<usize, ProtoError>(
                properties_bytes(self@).len() as usize,
            ) && buf_view(*final(buffer)) == buf_view(*old(buffer)) + properties_bytes(self@),
    {
        let tlv = self.tlv()?;
        write_tlv(&tlv, buffer)
    }

    /// Appends the property set to `out`; properties over the size bound are
    /// rejected with nothing appended.
    pub fn write_to(&self, out: &mut Vec<u8>) -> (r: Result<(), ProtoError>)
        ensures
            tlv_bytes(self@).len() > MAX_PROPERTIES_LEN ==> r == Err::<(), ProtoError>(
                ProtoError::OutOfMaxPropertySize,
            ) && final(out)@ == old(out)@,
            tlv_bytes(self@).len() <= MAX_PROPERTIES_LEN ==> r == Ok::<(), ProtoError>(())
                && final(out)@ == old(out)@ + properties_bytes(self@),
    {
        let tlv = self.tlv()?;
        let len = varint_bytes(tlv.len());
        append_bytes(out, len.as_slice());
        append_bytes(out, tlv.as_slice());
        assert(out@ =~= old(out)@ + properties_bytes(self@));
        Ok(())
    }

    /// The tagged values of the set, or `OutOfMaxPropertySize` when they
    /// would take more than 65,535 bytes.
    fn tlv(&self) -> (r: Result<Vec<u8>, ProtoError>)
        ensures
            tlv_bytes(self@).len() > MAX_PROPERTIES_LEN ==> r == Err::<Vec<u8>, ProtoError>(
                ProtoError::OutOfMaxPropertySize,
            ),
            tlv_bytes(self@).len() <= MAX_PROPERTIES_LEN ==> (r matches Ok(v) && v@ == tlv_bytes(self@)),
    {
        let ghost m = self@;
        let mut tlv: Vec<u8> = Vec::new();
        if let Some(v) = self.session_expiry_interval {
            tlv.push(SESSION_EXPIRY_INTERVAL);
            tlv.push((v / 0x100_0000) as u8);
            tlv.push(((v / 0x1_0000) % 256) as u8);
            tlv.push(((v / 256) % 256) as u8);
            tlv.push((v % 256) as u8);
        }
        if let Some(v) = self.receive_maximum {
            tlv.push(RECEIVE_MAXIMUM);
            write_u16(&mut tlv, v);
        }
        let ghost prefix = tlv@;
        proof {
            assert(prefix + user_properties_bytes(m.user_properties) =~= tlv_bytes(m));
            assert(m.user_properties.take(0) =~= Seq::<(Seq<char>, Seq<char>)>::empty());
            assert(prefix + Seq::<u8>::empty() =~= prefix);
        }
        let mut i: usize = 0;
        while i < self.user_properties.len()
            invariant
                m == self@,
                m.user_properties.len() == self.user_properties@.len(),
                i <= self.user_properties@.len(),
                prefix.len() <= 8,
                prefix + user_properties_bytes(m.user_properties) == tlv_bytes(m),
                tlv@ == prefix + user_properties_bytes(m.user_properties.take(i as int)),
                tlv@.len() <= MAX_PROPERTIES_LEN,
            decreases self.user_properties@.len() - i,
        {
            let (k, v) = &self.user_properties[i];
            let kb = k.as_str().as_bytes();
            let vb = v.as_str().as_bytes();
            let ghost x = m.user_properties[i as int];
            proof {
                let us = m.user_properties;
                assert(us.take(i as int) + us.skip(i as int) =~= us);
                lemma_user_properties_bytes_append(us.take(i as int), us.skip(i as int));
                assert(us.skip(i as int) =~= seq![x] + us.skip(i + 1));
                lemma_user_properties_bytes_append(seq![x], us.skip(i + 1));
                lemma_user_properties_bytes_one(x);
            }
            if kb.len() > 65535 || vb.len() > 65535 || tlv.len() + 5 + kb.len() + vb.len() > MAX_PROPERTIES_LEN {
                return Err(ProtoError::OutOfMaxPropertySize);
            }
            tlv.push(USER_PROPERTY);
            write_mqtt_bytes(&mut tlv, kb);
            write_mqtt_bytes(&mut tlv, vb);
            proof {
                let us = m.user_properties;
                assert(us.take(i + 1) =~= us.take(i as int) + seq![x]);
                lemma_user_properties_bytes_append(us.take(i as int), seq![x]);
                lemma_user_properties_bytes_one(x);
                assert(tlv@ =~= prefix + user_properties_bytes(us.take(i + 1)));
            }
            i = i + 1;
        }
        proof {
            assert(m.user_properties.take(i as int) =~= m.user_properties);
        }
        Ok(tlv)
    }

    /// Reads a property set at `pos`; returns it and the position after it.
    pub fn decode(stream: &[u8], pos: usize) -> (r: Result<(Properties, usize), ProtoError>)
        requires
            pos <= stream@.len(),
        ensures
            match parse_properties(tail(stream@, pos as int)) {
                Ok((p, rest)) => r matches Ok((x, q)) && x@ == p && q <= stream@.len() && rest == tail(stream@, q as int),
                Err(e) => r matches Err(x) && x == e,
            },
    {
        let (n, start) = decode_remaining_length(stream, pos)?;
        if n > stream.len() - start {
            return Err(ProtoError::InvalidPropertyLength(n));
        }
        let region = vstd::slice::slice_subrange(stream, start, start + n);
        let ghost whole = tail(stream@, pos as int);
        proof {
            let t = tail(stream@, pos as int);
            let c = start - pos;
            assert(t.subrange(c as int, (c + n) as int) =~= region@);
            assert(t.subrange((c + n) as int, t.len() as int) =~= tail(stream@, start + n));
            assert(tail(region@, 0) =~= region@);
        }
        let mut props = Properties::new();
        let mut p: usize = 0;
        while p < region.len()
            invariant
                p <= region@.len(),
                parse_tlvs(region@, no_properties()) == parse_tlvs(tail(region@, p as int), props@),
                whole == tail(stream@, pos as int),
                start + n <= stream@.len(),
                match parse_properties(whole) {
                    Ok((pv, rest)) => rest == tail(stream@, start + n) && parse_tlvs(region@, no_properties()) == Ok::<PropertiesView, ProtoError>(pv),
                    Err(e) => parse_tlvs(region@, no_properties()) == Err::<PropertiesView, ProtoError>(e),
                },
            decreases region@.len() - p,
        {
            let q = match read_tlv(region, p, &mut props) {
                Ok(q) => q,
                Err(e) => {
                    assert(parse_tlvs(region@, no_properties()) == Err::<PropertiesView, ProtoError>(e));
                    assert(parse_properties(tail(stream@, pos as int)) == Err::<(PropertiesView, Seq<u8>), ProtoError>(e));
                    return Err(e);
                },
            };
            p = q;
        }
        proof {
            assert(tail(region@, p as int) =~= Seq::<u8>::empty());
            reveal_with_fuel(parse_tlvs, 1);
            assert(parse_tlvs(tail(region@, p as int), props@) == Ok::<PropertiesView, ProtoError>(props@));
        }
        Ok((props, start + n))
    }
}

/// The reason codes of a version 5 CONNACK that this codec knows.
#[derive(Debug, Clone, Copy, PartialEq, Eq, Structural)]
pub enum ConnectReasonCode {
    Success,
    UnspecifiedError,
    MalformedPacket,
    ProtocolError,
    ImplementationSpecificError,
    UnsupportedProtocolVersion,
}

/// The wire value of a reason code.
pub open spec fn reason_code_value(c: ConnectReasonCode) -> u8 {
    match c {
        ConnectReasonCode::Success => 0,
        ConnectReasonCode::UnspecifiedError => 0x80,
        ConnectReasonCode::MalformedPacket => 0x81,
        ConnectReasonCode::ProtocolError => 0x82,
        ConnectReasonCode::ImplementationSpecificError => 0x83,
        ConnectReasonCode::UnsupportedProtocolVersion => 0x84,
    }
}

/// The reason code with wire value `v`: values from 0x85 up are unknown
/// codes, values from 1 to 0x7F are not reason codes at all.
pub open spec fn reason_code_of(v: u8) -> Result<ConnectReasonCode, ProtoError> {
    if v == 0 {
        Ok(ConnectReasonCode::Success)
    } else if v == 0x80 {
        Ok(ConnectReasonCode::UnspecifiedError)
    } else if v == 0x81 {
        Ok(ConnectReasonCode::MalformedPacket)
    } else if v == 0x82 {
        Ok(ConnectReasonCode::ProtocolError)
    } else if v == 0x83 {
        Ok(ConnectReasonCode::ImplementationSpecificError)
    } else if v == 0x84 {
        Ok(ConnectReasonCode::UnsupportedProtocolVersion)
    } else if v >= 0x85 {
        Err(ProtoError::UnknownReasonCode(v))
    } else {
        Err(ProtoError::InvalidReasonCode(v))
    }
}

impl ConnectReasonCode {
    /// Reads a reason code from its wire value.
    pub fn try_from(value: u8) -> (r: Result<ConnectReasonCode, ProtoError>)
        ensures
            r == reason_code_of(value),
    {
        match value {
            0 => Ok(ConnectReasonCode::Success),
            0x80 => Ok(ConnectReasonCode::UnspecifiedError),
            0x81 => Ok(ConnectReasonCode::MalformedPacket),
            0x82 => Ok(ConnectReasonCode::ProtocolError),
            0x83 => Ok(ConnectReasonCode::ImplementationSpecificError),
            0x84 => Ok(ConnectReasonCode::UnsupportedProtocolVersion),
            code => if code >= 0x85 {
                Err(ProtoError::UnknownReasonCode(code))
            } else {
                Err(ProtoError::InvalidReasonCode(code))
            },
        }
    }

    /// The wire value of this reason code.
    pub fn value(&self) -> (r: u8)
        ensures
            r == reason_code_value(*self),
    {
        match self {
            ConnectReasonCode::Success => 0,
            ConnectReasonCode::UnspecifiedError => 0x80,
            ConnectReasonCode::MalformedPacket => 0x81,
            ConnectReasonCode::ProtocolError => 0x82,
            ConnectReasonCode::ImplementationSpecificError => 0x83,
            ConnectReasonCode::UnsupportedProtocolVersion => 0x84,
        }
    }
}

/// The variable header of a version 5 CONNACK: session-present flag, reason
/// code, properties.
#[derive(Debug, Clone, PartialEq, Eq)]
pub struct ConnAck {
    pub session_present: bool,
    pub reason_code: ConnectReasonCode,
    pub properties: Properties,
}

/// The value of a version 5 CONNACK that the contracts speak of.
pub struct ConnAckView {
    pub session_present: bool,
    pub reason_code: ConnectReasonCode,
    pub properties: PropertiesView,
}

impl View for ConnAck {
    type V = ConnAckView;

    open spec fn view(&self) -> ConnAckView {
        ConnAckView {
            session_present: self.session_present,
            reason_code: self.reason_code,
            properties: self.properties@,
        }
    }
}

/// The wire form of a version 5 CONNACK variable header.
pub open spec fn conn_ack_v5_bytes(m: ConnAckView) -> Seq<u8> {
    seq![if m.session_present { 1u8 } else { 0u8 }, reason_code_value(m.reason_code)]
        + properties_bytes(m.properties)
}

/// Reads a version 5 CONNACK variable header that fills `s` exactly.
pub open spec fn parse_conn_ack_v5(s: Seq<u8>) -> Result<ConnAckView, ProtoError> {
    if s.len() < 2 {
        Err(ProtoError::NotKnow)
    } else {
        match reason_code_of(s[1]) {
            Ok(code) => match parse_properties(s.subrange(2, s.len() as int)) {
                Ok((p, rest)) => if rest.len() != 0 {
                    Err(ProtoError::NotKnow)
                } else {
                    Ok(ConnAckView { session_present: s[0] != 0, reason_code: code, properties: p })
                },
                Err(e) => Err(e),
            },
            Err(e) => Err(e),
        }
    }
}

/// A version 5 CONNACK whose properties fit the size bound is read back from
/// its wire form.
pub proof fn lemma_conn_ack_v5_round_trip(m: ConnAckView)
    requires
        tlv_bytes(m.properties).len() <= MAX_PROPERTIES_LEN,
        user_properties_fit(m.properties.user_properties),
    ensures
        parse_conn_ack_v5(conn_ack_v5_bytes(m)) == Ok::<ConnAckView, ProtoError>(m),
{
    let s = conn_ack_v5_bytes(m);
    lemma_properties_round_trip(m.properties, Seq::empty());
    assert(s.subrange(2, s.len() as int) =~= properties_bytes(m.properties) + Seq::<u8>::empty());
    assert(reason_code_of(reason_code_value(m.reason_code)) == Ok::<ConnectReasonCode, ProtoError>(m.reason_code));
}

impl ConnAck {
    /// Writes the variable header; properties over the size bound are
    /// rejected with nothing written.
    pub fn encode(&self, buffer: &mut BytesMut) -> (r: Result<usize, ProtoError>)
        ensures
            tlv_bytes(self.properties@).len() > MAX_PROPERTIES_LEN ==> r == Err::<usize, ProtoError>(
                ProtoError::OutOfMaxPropertySize,
            ) && buf_view(*final(buffer)) == buf_view(*old(buffer)),
            tlv_bytes(self.properties@).len() <= MAX_PROPERTIES_LEN ==> r == Ok::<usize, ProtoError>(
                conn_ack_v5_bytes(self@).len() as usize,
            ) && buf_view(*final(buffer)) == buf_view(*old(buffer)) + conn_ack_v5_bytes(self@),
    {
        let tlv = self.properties.tlv()?;
        proof {
            crate::varint::lemma_varint_len(tlv@.len());
        }
        put_u8(buffer, if self.session_present { 1 } else { 0 });
        put_u8(buffer, self.reason_code.value());
        let n = write_tlv(&tlv, buffer)?;
        proof {
            assert(buf_view(*final(buffer)) =~= buf_view(*old(buffer)) + conn_ack_v5_bytes(self@));
        }
        Ok(2 + n)
    }

    /// Reads a version 5 CONNACK variable header that fills `stream`.
    pub fn decode(stream: &[u8]) -> (r: Result<Self, ProtoError>)
        ensures
            match parse_conn_ack_v5(stream@) {
                Ok(m) => r matches Ok(p) && p@ == m,
                Err(e) => r matches Err(x) && x == e,
            },
    {
        if stream.len() < 2 {
            return Err(ProtoError::NotKnow);
        }
        let reason_code = ConnectReasonCode::try_from(stream[1])?;
        proof {
            assert(tail(stream@, 2) =~= stream@.subrange(2, stream@.len() as int));
        }
        let (properties, q) = Properties::decode(stream, 2)?;
        if q != stream.len() {
            return Err(ProtoError::NotKnow);
        }
        Ok(ConnAck { session_present: stream[0] != 0, reason_code, properties })
    }
}

} // verus!
