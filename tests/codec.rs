use bytes::BytesMut;
use walle_mqtt_protocol::ack::{PubAck, PubComp, PubRec, PubRel, UnSubAck};
use walle_mqtt_protocol::builder::MqttMessageBuilder;
use walle_mqtt_protocol::coder::{read_mqtt_string, read_u16, write_mqtt_string};
use walle_mqtt_protocol::conn_ack::ConnAck;
use walle_mqtt_protocol::connect::Connect;
use walle_mqtt_protocol::error::{BuildError, ProtoError};
use walle_mqtt_protocol::fixed_header::{
    check_fixed_header_options, check_fixed_header_type, parse_fixed_header, FixedHeader,
};
use walle_mqtt_protocol::packet::Packet;
use walle_mqtt_protocol::ping::{DisConnect, PingReq, PingResp};
use walle_mqtt_protocol::publish::{Publish, PublishVariableHeader};
use walle_mqtt_protocol::subscribe::{read_strings, SubAck, Subscribe, UnSubscribe};
use walle_mqtt_protocol::topic::Topic;
use walle_mqtt_protocol::v5::{ConnAck as ConnAckV5, ConnectReasonCode, Properties};
use walle_mqtt_protocol::v5_connect::{Auth, Connect as ConnectV5, LastWill as WillV5};
use walle_mqtt_protocol::varint::{decode_remaining_length, encode_remaining_len, remaining_length_len};
use walle_mqtt_protocol::{MessageType, MqttVersion, QoS};

fn varint_bytes(n: usize) -> Result<Vec<u8>, ProtoError> {
    let mut buf = BytesMut::new();
    encode_remaining_len(n, &mut buf).map(|_| buf.to_vec())
}

#[test]
fn varint_boundaries() {
    assert_eq!(varint_bytes(127).unwrap(), vec![0x7F]);
    assert_eq!(varint_bytes(128).unwrap(), vec![0x80, 0x01]);
    assert_eq!(varint_bytes(16_383).unwrap().len(), 2);
    assert_eq!(varint_bytes(16_384).unwrap().len(), 3);
    assert_eq!(varint_bytes(2_097_151).unwrap().len(), 3);
    assert_eq!(varint_bytes(2_097_152).unwrap().len(), 4);
    assert_eq!(varint_bytes(268_435_455).unwrap(), vec![0xFF, 0xFF, 0xFF, 0x7F]);
    assert_eq!(
        varint_bytes(268_435_456),
        Err(ProtoError::OutOfMaxRemainingLength(268_435_456))
    );
    assert_eq!(varint_bytes(0).unwrap(), vec![0]);
    assert_eq!(varint_bytes(321).unwrap(), vec![0xC1, 0x02]);
}

#[test]
fn varint_lengths() {
    assert_eq!(remaining_length_len(127), Ok(1));
    assert_eq!(remaining_length_len(128), Ok(2));
    assert_eq!(remaining_length_len(16_384), Ok(3));
    assert_eq!(remaining_length_len(2_097_152), Ok(4));
    assert_eq!(
        remaining_length_len(268_435_456),
        Err(ProtoError::OutOfMaxRemainingLength(268_435_456))
    );
}

#[test]
fn varint_decode() {
    for n in [0usize, 1, 127, 128, 16_383, 16_384, 2_097_151, 2_097_152, 268_435_455] {
        let b = varint_bytes(n).unwrap();
        assert_eq!(decode_remaining_length(&b, 0), Ok((n, b.len())));
    }
    assert_eq!(
        decode_remaining_length(&[0x80, 0x80, 0x80, 0x80, 0x01], 0),
        Err(ProtoError::NotKnow)
    );
    assert_eq!(decode_remaining_length(&[0x80, 0x80], 0), Err(ProtoError::NotKnow));
    assert_eq!(decode_remaining_length(&[9, 0xC1, 0x02], 1), Ok((321, 3)));
}

#[test]
fn qos_bits_in_publish_header() {
    let h = check_fixed_header_options(&0x30, MessageType::PUBLISH).unwrap();
    assert_eq!(h.qos, Some(QoS::AtMostOnce));
    let h = check_fixed_header_options(&0x32, MessageType::PUBLISH).unwrap();
    assert_eq!(h.qos, Some(QoS::AtLeastOnce));
    let h = check_fixed_header_options(&0x34, MessageType::PUBLISH).unwrap();
    assert_eq!(h.qos, Some(QoS::ExactlyOnce));
    assert_eq!(
        check_fixed_header_options(&0x36, MessageType::PUBLISH),
        Err(ProtoError::QoSError(3))
    );
    let h = check_fixed_header_options(&0x3B, MessageType::PUBLISH).unwrap();
    assert_eq!(h.dup, Some(true));
    assert_eq!(h.retain, Some(true));
    assert_eq!(h.qos, Some(QoS::AtLeastOnce));
}

#[test]
fn fixed_flag_rules() {
    assert!(check_fixed_header_options(&0x62, MessageType::PUBREL).is_ok());
    assert_eq!(
        check_fixed_header_options(&0x60, MessageType::PUBREL),
        Err(ProtoError::NotKnow)
    );
    assert_eq!(
        check_fixed_header_options(&0x8A, MessageType::SUBSCRIBE),
        Err(ProtoError::NotKnow)
    );
    assert_eq!(
        check_fixed_header_options(&0x21, MessageType::CONNACK),
        Err(ProtoError::NotKnow)
    );
    assert!(check_fixed_header_options(&0xC0, MessageType::PINGREQ).is_ok());
}

#[test]
fn packet_type_nibble() {
    assert_eq!(check_fixed_header_type(&0x10), Ok(MessageType::CONNECT));
    assert_eq!(check_fixed_header_type(&0xE0), Ok(MessageType::DISCONNECT));
    assert_eq!(
        check_fixed_header_type(&0x00),
        Err(ProtoError::MessageTypeError(BuildError::MessageTypeError(0)))
    );
    assert_eq!(
        check_fixed_header_type(&0xF0),
        Err(ProtoError::MessageTypeError(BuildError::MessageTypeError(15)))
    );
    assert_eq!(FixedHeader::check_with_u8(0xF0), Err(BuildError::MessageTypeError(15)));
}

#[test]
fn fixed_header_decode_lengths() {
    let h = parse_fixed_header(&[0x30, 0xC1, 0x02]).unwrap();
    assert_eq!(h.message_type, MessageType::PUBLISH);
    assert_eq!(h.remaining_length, 321);
    assert_eq!(h.len, 3);
    assert_eq!(parse_fixed_header(&[]), Err(ProtoError::NotKnow));
}

#[test]
fn fixed_header_encode_rejects_bad_flags() {
    let mut buf = BytesMut::new();
    let h = FixedHeader::new(MessageType::CONNECT, Some(true), None, Some(false), 0, 2);
    assert_eq!(h.encode(&mut buf), Err(ProtoError::NotKnow));
    let h = FixedHeader::new(MessageType::PUBLISH, Some(false), None, Some(false), 0, 2);
    assert_eq!(h.encode(&mut buf), Err(ProtoError::NotKnow));
    assert!(buf.is_empty());
    let h = FixedHeader::new(MessageType::PUBLISH, Some(true), Some(QoS::ExactlyOnce), Some(true), 5, 2);
    assert_eq!(h.encode(&mut buf), Ok(2));
    assert_eq!(&buf[..], &[0x3D, 5][..]);
}

#[test]
fn publish_identifier_presence() {
    let v0 = PublishVariableHeader::new("/test".to_string(), None, Some(QoS::AtMostOnce));
    assert_eq!(v0.variable_header_len(), 7);
    let v1 = PublishVariableHeader::new("/test".to_string(), Some(9), Some(QoS::AtLeastOnce));
    assert_eq!(v1.variable_header_len(), 9);

    let p0 = MqttMessageBuilder::publish()
        .topic("/t")
        .qos(QoS::AtMostOnce)
        .message_id(7)
        .payload_str("x")
        .build()
        .unwrap();
    let mut b0 = BytesMut::new();
    p0.encode(&mut b0).unwrap();
    assert_eq!(&b0[..], &[0x30, 5, 0, 2, b'/', b't', b'x'][..]);

    let p1 = MqttMessageBuilder::publish()
        .topic("/t")
        .qos(QoS::AtLeastOnce)
        .message_id(7)
        .payload_str("x")
        .build()
        .unwrap();
    let mut b1 = BytesMut::new();
    p1.encode(&mut b1).unwrap();
    assert_eq!(&b1[..], &[0x32, 7, 0, 2, b'/', b't', 0, 7, b'x'][..]);
    let d1 = Publish::decode(&b1[..]).unwrap();
    assert_eq!(d1, p1);
    assert_eq!(d1.variable_header.message_id(), Some(7));
}

#[test]
fn publish_without_identifier_is_rejected() {
    let mut p = MqttMessageBuilder::publish()
        .topic("/t")
        .qos(QoS::AtLeastOnce)
        .build()
        .unwrap();
    let mut b = BytesMut::new();
    assert_eq!(p.encode(&mut b), Err(ProtoError::EncodeVariableHeaderError));
    assert!(b.is_empty());
    p = p.update(3);
    assert!(p.encode(&mut b).is_ok());
}

#[test]
fn topic_list_termination() {
    let mut body = vec![0u8, 5];
    assert_eq!(Topic::read_topics(&body, 2).unwrap().len(), 0);
    body.extend_from_slice(&[0, 2, b'/', b'a', 1, 0, 2, b'/', b'b', 0]);
    let ts = Topic::read_topics(&body, 2).unwrap();
    assert_eq!(ts.len(), 2);
    assert_eq!(ts[0].name(), "/a");
    assert_eq!(ts[0].qos(), QoS::AtLeastOnce);
    assert_eq!(ts[1].name(), "/b");
    assert_eq!(ts[1].name_len(), 2);
    body.extend_from_slice(&[0, 9, b'/']);
    assert_eq!(Topic::read_topics(&body, 2), Err(ProtoError::ReadTopicError));
    assert_eq!(
        Topic::read_topics(&[0, 1, b'a', 3], 0),
        Err(ProtoError::QoSError(3))
    );

    let names = vec![0u8, 2, b'/', b'a', 0, 2, b'/', b'b'];
    assert_eq!(read_strings(&names, 0).unwrap(), vec!["/a".to_string(), "/b".to_string()]);
    assert_eq!(read_strings(&[], 0).unwrap().len(), 0);
    assert_eq!(read_strings(&[0, 2, b'/', b'a', 0, 4], 0), Err(ProtoError::NotKnow));
}

#[test]
fn property_size_bound() {
    let big = "k".repeat(30_000);
    let mut p = Properties::new();
    p.user_properties.push((big.clone(), big.clone()));
    let mut buf = BytesMut::new();
    assert!(p.encode(&mut buf).is_ok());
    let written = buf.len();
    p.user_properties.push((big.clone(), "v".to_string()));
    let mut buf2 = BytesMut::new();
    assert_eq!(p.encode(&mut buf2), Err(ProtoError::OutOfMaxPropertySize));
    assert!(buf2.is_empty());
    assert_eq!(written, 3 + 1 + 2 + 30_000 + 2 + 30_000);
}

#[test]
fn properties_round_trip() {
    let mut p = Properties::new();
    p.session_expiry_interval = Some(0x0102_0304);
    p.receive_maximum = Some(0x0506);
    p.user_properties.push(("a".to_string(), "b".to_string()));
    p.user_properties.push(("a".to_string(), "c".to_string()));
    let mut buf = BytesMut::new();
    let n = p.encode(&mut buf).unwrap();
    assert_eq!(n, buf.len());
    assert_eq!(
        &buf[..9],
        &[22, 0x11, 1, 2, 3, 4, 0x12, 5, 6][..]
    );
    let (d, end) = Properties::decode(&buf[..], 0).unwrap();
    assert_eq!(end, buf.len());
    assert_eq!(d, p);
}

#[test]
fn property_errors() {
    assert_eq!(Properties::decode(&[2, 0x99, 0], 0), Err(ProtoError::UnknownProperty(0x99)));
    assert_eq!(
        Properties::decode(&[4, 0x26, 0, 1, b'k'], 0),
        Err(ProtoError::MalformedUserProperty)
    );
    assert_eq!(Properties::decode(&[9, 0x11], 0), Err(ProtoError::InvalidPropertyLength(9)));
    assert_eq!(Properties::decode(&[2, 0x11, 0], 0), Err(ProtoError::NotKnow));
}

#[test]
fn connect_scenario() {
    let connect = MqttMessageBuilder::connect()
        .client_id("client_01")
        .keep_alive(10)
        .clean_session(true)
        .username("rump")
        .password("mq")
        .protocol_level(MqttVersion::V4)
        .retain(false)
        .will_qos(QoS::AtLeastOnce)
        .will_topic("/a")
        .will_message(b"offline".to_vec())
        .build()
        .unwrap();
    let expected = 10 + 2 + 9 + 2 + 2 + 2 + 7 + 2 + 4 + 2 + 2;
    assert_eq!(connect.fixed_header.remaining_length(), expected);
    let mut buf = BytesMut::new();
    let n = connect.encode(&mut buf).unwrap();
    assert_eq!(n, 2 + expected);
    assert_eq!(buf[1] as usize, expected);
    assert_eq!(buf[9], 0b1100_1110);
    let d = Connect::decode(&buf[..]).unwrap();
    assert_eq!(d.client_id, "client_01");
    assert_eq!(d.variable_header.keep_alive(), 10);
    assert!(d.variable_header.connect_flags().clean_session());
    assert_eq!(d.variable_header.protocol_name(), "MQTT");
    assert_eq!(d.variable_header.protocol_level(), MqttVersion::V4);
    let login = d.login.clone().unwrap();
    assert_eq!(login.username(), "rump");
    assert_eq!(login.password(), "mq");
    let will = d.last_will.clone().unwrap();
    assert_eq!(will.topic_name, "/a");
    assert_eq!(will.message, b"offline".to_vec());
    assert_eq!(will.qos, QoS::AtLeastOnce);
    assert!(!will.retain);
    assert_eq!(d, connect);
    assert_eq!(connect.len(), expected);
}

#[test]
fn connect_errors() {
    let connect = MqttMessageBuilder::connect().client_id("c").build().unwrap();
    let mut buf = BytesMut::new();
    connect.encode(&mut buf).unwrap();
    let mut bad = buf.to_vec();
    bad[8] = 3;
    assert_eq!(Connect::decode(&bad), Err(ProtoError::UnsupportedVersion(3)));
    let mut bad = buf.to_vec();
    bad[4] = b'X';
    assert_eq!(Connect::decode(&bad), Err(ProtoError::NotKnow));
    let mut bad = buf.to_vec();
    bad[9] = 0b0001_1100;
    assert_eq!(Connect::decode(&bad), Err(ProtoError::QoSError(3)));
    let mut bad = buf.to_vec();
    bad[4] = 0xFF;
    assert_eq!(Connect::decode(&bad), Err(ProtoError::NotKnow));
    let mut extra = buf.to_vec();
    extra[1] += 1;
    extra.push(0);
    assert_eq!(Connect::decode(&extra), Err(ProtoError::NotKnow));
    let mut short = buf.to_vec();
    short.pop();
    assert_eq!(Connect::decode(&short), Err(ProtoError::NotKnow));
    let long = "x".repeat(70_000);
    assert_eq!(
        MqttMessageBuilder::connect().client_id(&long).build(),
        Err(ProtoError::EncodeVariableHeaderError)
    );
}

#[test]
fn every_packet_round_trips() {
    let packets = vec![
        Packet::Connect(
            MqttMessageBuilder::connect()
                .client_id("id")
                .username("u")
                .password("p")
                .build()
                .unwrap(),
        ),
        Packet::ConnAck(MqttMessageBuilder::conn_ack().build()),
        Packet::Publish(
            MqttMessageBuilder::publish()
                .topic("a/b")
                .qos(QoS::ExactlyOnce)
                .dup(true)
                .retain(true)
                .message_id(300)
                .payload(vec![1, 2, 3])
                .build()
                .unwrap(),
        ),
        Packet::PubAck(PubAck::new(1)),
        Packet::PubRel(PubRel::new(2)),
        Packet::PubRec(PubRec::new(3)),
        Packet::PubComp(PubComp::new(4)),
        Packet::PingReq(PingReq::new()),
        Packet::PingResp(PingResp::new()),
        Packet::Subscribe(
            MqttMessageBuilder::subscribe()
                .message_id(5)
                .topic(Topic::new("x".to_string(), QoS::ExactlyOnce))
                .build()
                .unwrap(),
        ),
        Packet::SubAck(MqttMessageBuilder::sub_ack().message_id(6).acks(vec![0, 0x80]).build().unwrap()),
        Packet::UnSubscribe(
            MqttMessageBuilder::unsubscriber()
                .message_id(7)
                .topices(vec!["x".to_string()])
                .build()
                .unwrap(),
        ),
        Packet::UnSubAck(MqttMessageBuilder::unsub_ack().message_id(8).build().unwrap()),
        Packet::DisConnect(MqttMessageBuilder::disconnect().build().unwrap()),
    ];
    for p in packets {
        let mut buf = BytesMut::new();
        let n = p.encode(&mut buf).unwrap();
        assert_eq!(n, buf.len());
        buf.extend_from_slice(&[0xAA, 0xBB]);
        let d = Packet::decode(&buf[..]).unwrap();
        assert_eq!(d, p);
    }
}

#[test]
fn ack_packets() {
    let mut buf = BytesMut::new();
    PubRel::new(0x0102).encode(&mut buf).unwrap();
    assert_eq!(&buf[..], &[0x62, 2, 1, 2][..]);
    assert_eq!(PubAck::decode(&buf[..]), Err(ProtoError::NotKnow));
    assert_eq!(PubRel::decode(&buf[..]).unwrap().message_id(), 0x0102);
    assert_eq!(
        UnSubAck::decode(&[0xB0, 1, 0]),
        Err(ProtoError::DecodeGeneralVariableHeaderError)
    );
    assert_eq!(PubAck::decode(&[0x40, 5, 0]), Err(ProtoError::NotKnow));
    let mut buf = BytesMut::new();
    assert_eq!(PubAck::new(70_000).encode(&mut buf), Err(ProtoError::EncodeVariableHeaderError));
    assert!(buf.is_empty());
    let mut buf = BytesMut::new();
    DisConnect::new(FixedHeader::default()).encode(&mut buf).unwrap();
    assert_eq!(&buf[..], &[0xE0, 0][..]);
    assert_eq!(PingResp::decode(&[0xD0, 1, 0]), Err(ProtoError::NotKnow));
}

#[test]
fn conn_ack_bytes() {
    let mut buf = BytesMut::new();
    ConnAck::new(walle_mqtt_protocol::conn_ack::ConnAckType::BadUsernameOrPassword)
        .unwrap()
        .encode(&mut buf)
        .unwrap();
    assert_eq!(&buf[..], &[0x20, 2, 0, 4][..]);
    assert_eq!(ConnAck::decode(&[0x20, 2, 0, 6]), Err(ProtoError::NotKnow));
    let d = ConnAck::decode(&[0x20, 2, 1, 0]).unwrap();
    assert!(d.variable_header.session_present);
}

#[test]
fn subscribe_bytes() {
    let s = MqttMessageBuilder::subscribe()
        .message_id(10)
        .topic(Topic::new("a".to_string(), QoS::AtLeastOnce))
        .build()
        .unwrap();
    assert_eq!(s.fixed_header.remaining_length(), 6);
    let mut buf = BytesMut::new();
    s.encode(&mut buf).unwrap();
    assert_eq!(&buf[..], &[0x82, 6, 0, 10, 0, 1, b'a', 1][..]);
    assert_eq!(
        Subscribe::decode(&[0x82, 1, 0]),
        Err(ProtoError::DecodeGeneralVariableHeaderError)
    );
    let u = MqttMessageBuilder::unsubscriber().message_id(10).topices(vec!["a".to_string()]);
    assert_eq!(u.remaining_length(), 3);
    let mut buf = BytesMut::new();
    u.build().unwrap().encode(&mut buf).unwrap();
    assert_eq!(&buf[..], &[0xA2, 5, 0, 10, 0, 1, b'a'][..]);
    assert_eq!(UnSubscribe::decode(&[0xA2, 3, 0, 10, 0]), Err(ProtoError::NotKnow));
    let a = SubAck::decode(&[0x90, 4, 0, 10, 1, 2]).unwrap();
    assert_eq!(a.acks, vec![1, 2]);
    assert_eq!(a.message_id(), 10);
}

#[test]
fn strings_on_the_wire() {
    let mut v = Vec::new();
    write_mqtt_string(&mut v, "hé");
    assert_eq!(v, vec![0, 3, b'h', 0xC3, 0xA9]);
    assert_eq!(read_mqtt_string(&v, 0), Ok(("hé".to_string(), 5)));
    assert_eq!(read_mqtt_string(&[0, 1, 0xFF], 0), Err(ProtoError::NotKnow));
    assert_eq!(read_mqtt_string(&[0, 3, b'a'], 0), Err(ProtoError::NotKnow));
    assert_eq!(read_u16(&[1, 2, 3], 1), Ok((0x0203, 3)));
}

#[test]
fn reason_codes() {
    assert_eq!(ConnectReasonCode::try_from(0), Ok(ConnectReasonCode::Success));
    assert_eq!(ConnectReasonCode::try_from(0x84), Ok(ConnectReasonCode::UnsupportedProtocolVersion));
    assert_eq!(ConnectReasonCode::try_from(0x85), Err(ProtoError::UnknownReasonCode(0x85)));
    assert_eq!(ConnectReasonCode::try_from(0x10), Err(ProtoError::InvalidReasonCode(0x10)));
    assert_eq!(QoS::try_from(3), Err(ProtoError::QoSError(3)));
    assert_eq!(u8::from(QoS::ExactlyOnce), 2);
}

#[test]
fn v5_conn_ack_round_trip() {
    let mut properties = Properties::new();
    properties.receive_maximum = Some(10);
    let c = ConnAckV5 { session_present: true, reason_code: ConnectReasonCode::ProtocolError, properties };
    let mut buf = BytesMut::new();
    c.encode(&mut buf).unwrap();
    assert_eq!(&buf[..], &[1, 0x82, 3, 0x12, 0, 10][..]);
    assert_eq!(ConnAckV5::decode(&buf[..]).unwrap(), c);
}

#[test]
fn decoding_a_truncated_frame_fails() {
    assert_eq!(Packet::decode(&[0x30, 10, 0, 1]).err(), Some(ProtoError::NotKnow));
    assert_eq!(
        Packet::decode(&[0x00, 0]).err(),
        Some(ProtoError::MessageTypeError(BuildError::MessageTypeError(0)))
    );
}

#[test]
fn v5_connect_round_trip() {
    let mut will_props = Properties::new();
    will_props.user_properties.push(("k".to_string(), "v".to_string()));
    let will = WillV5 {
        topic: "/w".to_string(),
        payload: vec![9, 8],
        qos: QoS::ExactlyOnce,
        retain: true,
        properties: will_props,
    };
    let mut props = Properties::new();
    props.session_expiry_interval = Some(60);
    let c = ConnectV5::new("cid".to_string(), 30, true)
        .with_properties(props)
        .with_will(will)
        .with_auth(Auth { method: "m".to_string(), data: vec![1, 2, 3] });
    let mut buf = BytesMut::new();
    let n = c.encode(&mut buf).unwrap();
    assert_eq!(n, buf.len());
    assert_eq!(&buf[..10], &[0, 4, b'M', b'Q', b'T', b'T', 5, 0b1111_0110, 0, 30][..]);
    assert_eq!(&buf[buf.len() - 7..], &[0, 0, 0, 3, 1, 2, 3][..]);
    assert_eq!(ConnectV5::decode(&buf[..]).unwrap(), c);

    let plain = ConnectV5::new("x".to_string(), 5, false);
    let mut buf = BytesMut::new();
    plain.encode(&mut buf).unwrap();
    assert_eq!(&buf[..], &[0, 4, b'M', b'Q', b'T', b'T', 5, 0, 0, 5, 0, 0, 1, b'x'][..]);
    assert_eq!(ConnectV5::decode(&buf[..]).unwrap(), plain);
    let mut bad = buf.to_vec();
    bad[6] = 4;
    assert_eq!(ConnectV5::decode(&bad), Err(ProtoError::UnsupportedVersion(4)));
    let mut bad = buf.to_vec();
    bad[7] = 1;
    assert_eq!(ConnectV5::decode(&bad), Err(ProtoError::NotKnow));
    let mut big = Properties::new();
    big.user_properties.push(("a".repeat(40_000), "b".repeat(40_000)));
    let mut out = BytesMut::new();
    assert_eq!(
        ConnectV5::new("x".to_string(), 5, false).with_properties(big).encode(&mut out),
        Err(ProtoError::OutOfMaxPropertySize)
    );
    assert!(out.is_empty());
}

#[test]
fn decoded_options_have_header_length_two() {
    let h = check_fixed_header_options(&0x30, MessageType::PUBLISH).unwrap();
    assert_eq!(
        h,
        FixedHeader::new(MessageType::PUBLISH, Some(false), Some(QoS::AtMostOnce), Some(false), 0, 2)
    );
    let h = check_fixed_header_options(&0x34, MessageType::PUBLISH).unwrap();
    assert_eq!(
        h,
        FixedHeader::new(MessageType::PUBLISH, Some(false), Some(QoS::ExactlyOnce), Some(false), 0, 2)
    );
    let h = check_fixed_header_options(&0xC0, MessageType::PINGREQ).unwrap();
    assert_eq!(h.len(), 2);
    assert_eq!(h.qos(), None);
    assert_eq!(h.remaining_length(), 0);
}

#[test]
fn out_of_range_length_is_reported_before_flags() {
    let mut buf = BytesMut::new();
    let h = FixedHeader::new(MessageType::CONNECT, Some(true), None, Some(false), 268_435_456, 2);
    assert_eq!(h.encode(&mut buf), Err(ProtoError::OutOfMaxRemainingLength(268_435_456)));
    let h = FixedHeader::new(MessageType::PUBLISH, None, None, None, 268_435_456, 2);
    assert_eq!(h.encode(&mut buf), Err(ProtoError::OutOfMaxRemainingLength(268_435_456)));
    assert!(buf.is_empty());
}

#[test]
fn will_qos_three_is_a_qos_error() {
    use_flags(0x19, Err(ProtoError::QoSError(3)));
    use_flags(0x18, Err(ProtoError::QoSError(3)));
    use_flags(0x01, Err(ProtoError::NotKnow));
    assert!(walle_mqtt_protocol::connect::ConnectFlags::from_u8(0xCE).is_ok());
}

fn use_flags(b: u8, expected: Result<(), ProtoError>) {
    assert_eq!(walle_mqtt_protocol::connect::ConnectFlags::from_u8(b).map(|_| ()), expected);
}

#[test]
fn variable_len_counts_the_identifier() {
    assert_eq!(PublishVariableHeader::variable_len("/test", Some(QoS::AtLeastOnce)), 9);
    assert_eq!(PublishVariableHeader::variable_len("/test", Some(QoS::AtMostOnce)), 7);
}

#[test]
fn buffer_read_back() {
    let p = Packet::PubAck(PubAck::new(0x1234));
    let mut buf = BytesMut::new();
    p.encode(&mut buf).unwrap();
    assert_eq!(&buf[..], &[0x40, 2, 0x12, 0x34][..]);
    assert_eq!(Packet::decode_buffer(&buf).unwrap(), p);
    let c = Packet::PubComp(PubComp::new(7));
    let mut buf = BytesMut::new();
    c.encode(&mut buf).unwrap();
    assert_eq!(&buf[..], &[0x70, 2, 0, 7][..]);
    assert_eq!(Packet::decode_buffer(&buf).unwrap(), c);
}
